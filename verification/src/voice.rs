//! The table of voices a service was loaded with.

use vstd::prelude::*;

verus! {

/// Position of the first voice called `name` in `names`, if there is one.
pub open spec fn lookup(names: Seq<Seq<char>>, name: Seq<char>) -> Option<int> {
    if exists|i: int| 0 <= i < names.len() && names[i] == name {
        Some(choose|i: int| is_first(names, name, i))
    } else {
        None
    }
}

/// `i` is the first position of `names` that holds `name`.
pub open spec fn is_first(names: Seq<Seq<char>>, name: Seq<char>, i: int) -> bool {
    &&& 0 <= i < names.len()
    &&& names[i] == name
    &&& forall|j: int| 0 <= j < i ==> names[j] != name
}

/// Two first positions of one name are the same position.
pub proof fn lemma_first_is_unique(names: Seq<Seq<char>>, name: Seq<char>, i: int, k: int)
    requires
        is_first(names, name, i),
        is_first(names, name, k),
    ensures
        i == k,
{
    if i < k {
        assert(names[i] != name);
    }
    if k < i {
        assert(names[k] != name);
    }
}

/// Voice identifiers, each standing for the embedding pack loaded at the same
/// position. The table does not change once the service is built.
#[derive(Debug)]
pub struct VoiceTable {
    names: Vec<String>,
}

impl View for VoiceTable {
    type V = Seq<Seq<char>>;

    closed spec fn view(&self) -> Seq<Seq<char>> {
        Seq::new(self.names@.len(), |i: int| self.names@[i]@)
    }
}

impl VoiceTable {
    /// A table of the given identifiers, in the order their packs were
    /// loaded.
    pub fn new(names: Vec<String>) -> (table: VoiceTable)
        ensures
            table@ == Seq::new(names@.len(), |i: int| names@[i]@),
    {
        VoiceTable { names }
    }

    /// Number of voices loaded.
    pub fn len(&self) -> (n: usize)
        ensures
            n == self@.len(),
    {
        self.names.len()
    }

    /// Position of the pack for voice `name`; `None` exactly when no voice
    /// of that name was loaded.
    pub fn find(&self, name: &str) -> (pack: Option<usize>)
        ensures
            match pack {
                Some(i) => lookup(self@, name@) == Some(i as int) && is_first(
                    self@,
                    name@,
                    i as int,
                ),
                None => lookup(self@, name@).is_none(),
            },
    {
        let wanted = name.to_owned();
        let mut i: usize = 0;
        while i < self.names.len()
            invariant
                i <= self.names@.len(),
                wanted@ == name@,
                forall|j: int| 0 <= j < i ==> self@[j] != name@,
            decreases self.names@.len() - i,
        {
            if self.names[i] == wanted {
                proof {
                    assert(self@[i as int] == name@);
                    assert(is_first(self@, name@, i as int));
                    let c = choose|k: int| is_first(self@, name@, k);
                    lemma_first_is_unique(self@, name@, i as int, c);
                }
                return Some(i);
            }
            i += 1;
        }
        None
    }
}

} // verus!

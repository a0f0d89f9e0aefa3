//! Replaying results in the order of submission.
//!
//! Syntheses that run side by side finish in any order. A caller that wants
//! the order of submission back files each result under the index of its
//! text and reads the collection out by ascending index.

use vstd::prelude::*;

verus! {

/// Number of leading entries of `s` whose index is below `index`.
pub open spec fn rank<T>(s: Seq<(usize, T)>, index: usize) -> int
    decreases s.len(),
{
    if s.len() == 0 || s[0].0 >= index {
        0
    } else {
        1 + rank(s.drop_first(), index)
    }
}

/// The indices of `s` ascend strictly.
pub open spec fn ascending<T>(s: Seq<(usize, T)>) -> bool {
    forall|i: int, j: int| 0 <= i < j < s.len() ==> s[i].0 < s[j].0
}

/// `s` with `value` filed under `index`: in place of the entry that had that
/// index, or else at the place that keeps the indices ascending.
pub open spec fn upsert<T>(s: Seq<(usize, T)>, index: usize, value: T) -> Seq<(usize, T)> {
    let p = rank(s, index);
    if p < s.len() && s[p].0 == index {
        s.update(p, (index, value))
    } else {
        s.insert(p, (index, value))
    }
}

/// Filing every completion of `done`, the earliest first, into an empty
/// collection.
pub open spec fn collect<T>(done: Seq<(usize, T)>) -> Seq<(usize, T)>
    decreases done.len(),
{
    if done.len() == 0 {
        Seq::empty()
    } else {
        upsert(collect(done.drop_last()), done.last().0, done.last().1)
    }
}

/// `rank` is the one position `p` with only smaller indices before it and
/// no smaller index at it.
pub proof fn lemma_rank<T>(s: Seq<(usize, T)>, index: usize, p: int)
    requires
        0 <= p <= s.len(),
        forall|j: int| 0 <= j < p ==> s[j].0 < index,
        p < s.len() ==> s[p].0 >= index,
    ensures
        rank(s, index) == p,
    decreases p,
{
    if p > 0 {
        let t = s.drop_first();
        assert forall|j: int| 0 <= j < p - 1 implies t[j].0 < index by {
            assert(t[j] == s[j + 1]);
        }
        if p < s.len() {
            assert(t[p - 1] == s[p]);
        }
        lemma_rank(t, index, p - 1);
    }
}

/// In an ascending sequence, `rank` splits the entries into those below
/// `index` and those not below it.
pub proof fn lemma_rank_splits<T>(s: Seq<(usize, T)>, index: usize)
    requires
        ascending(s),
    ensures
        0 <= rank(s, index) <= s.len(),
        forall|j: int| 0 <= j < rank(s, index) ==> s[j].0 < index,
        forall|j: int| rank(s, index) <= j < s.len() ==> s[j].0 >= index,
    decreases s.len(),
{
    if s.len() > 0 && s[0].0 < index {
        let t = s.drop_first();
        assert forall|i: int, j: int| 0 <= i < j < t.len() implies t[i].0 < t[j].0 by {
            assert(t[i] == s[i + 1]);
            assert(t[j] == s[j + 1]);
        }
        lemma_rank_splits(t, index);
        assert forall|j: int| 0 <= j < rank(s, index) implies s[j].0 < index by {
            if j > 0 {
                assert(t[j - 1] == s[j]);
            }
        }
        assert forall|j: int| rank(s, index) <= j < s.len() implies s[j].0 >= index by {
            assert(t[j - 1] == s[j]);
        }
    }
}

/// Filing a result keeps the indices ascending, puts the result under its
/// index, and leaves every entry with another index in the collection.
pub proof fn lemma_upsert<T>(s: Seq<(usize, T)>, index: usize, value: T)
    requires
        ascending(s),
    ensures
        ascending(upsert(s, index, value)),
        0 <= rank(s, index) < upsert(s, index, value).len(),
        upsert(s, index, value)[rank(s, index)] == (index, value),
        forall|i: int|
            0 <= i < s.len() && s[i].0 != index ==> upsert(s, index, value).contains(s[i]),
        forall|i: int|
            0 <= i < upsert(s, index, value).len() && i != rank(s, index) ==> s.contains(
                #[trigger] upsert(s, index, value)[i],
            ),
        s.len() <= upsert(s, index, value).len() <= s.len() + 1,
{
    lemma_rank_splits(s, index);
    let p = rank(s, index);
    let u = upsert(s, index, value);
    if p < s.len() && s[p].0 == index {
        assert forall|i: int| 0 <= i < s.len() && s[i].0 != index implies u.contains(s[i]) by {
            assert(u[i] == s[i]);
        }
        assert forall|i: int| 0 <= i < u.len() && i != p implies s.contains(#[trigger] u[i]) by {
            assert(u[i] == s[i]);
        }
    } else {
        assert forall|i: int| 0 <= i < u.len() implies u[i] == (if i < p {
            s[i]
        } else if i == p {
            (index, value)
        } else {
            s[i - 1]
        }) by {}
        assert forall|i: int| 0 <= i < s.len() && s[i].0 != index implies u.contains(s[i]) by {
            if i < p {
                assert(u[i] == s[i]);
            } else {
                assert(u[i + 1] == s[i]);
            }
        }
        assert forall|i: int| 0 <= i < u.len() && i != p implies s.contains(#[trigger] u[i]) by {
            if i < p {
                assert(u[i] == s[i]);
            } else {
                assert(u[i] == s[i - 1]);
            }
        }
        assert forall|i: int, j: int| 0 <= i < j < u.len() implies u[i].0 < u[j].0 by {
            if j < p {
                assert(u[i] == s[i] && u[j] == s[j]);
            } else if j == p {
                assert(u[i] == s[i]);
            } else if i < p {
                assert(u[i] == s[i] && u[j] == s[j - 1]);
            } else if i == p {
                assert(u[j] == s[j - 1]);
            } else {
                assert(u[i] == s[i - 1] && u[j] == s[j - 1]);
            }
        }
    }
}

/// Results filed under the index of their submission, kept by ascending
/// index. A second result under an index takes the place of the first.
#[derive(Debug)]
pub struct Batch<T> {
    entries: Vec<(usize, T)>,
}

impl<T> View for Batch<T> {
    type V = Seq<(usize, T)>;

    closed spec fn view(&self) -> Seq<(usize, T)> {
        self.entries@
    }
}

impl<T> Batch<T> {
    /// The collection's invariant: indices ascend strictly.
    pub open spec fn wf(&self) -> bool {
        ascending(self@)
    }

    /// An empty collection.
    pub fn new() -> (batch: Batch<T>)
        ensures
            batch.wf(),
            batch@ == Seq::<(usize, T)>::empty(),
    {
        Batch { entries: Vec::new() }
    }

    /// Number of indices that have a result.
    pub fn len(&self) -> (n: usize)
        ensures
            n == self@.len(),
    {
        self.entries.len()
    }

    /// Files `value` under `index`.
    pub fn insert(&mut self, index: usize, value: T)
        requires
            old(self).wf(),
        ensures
            final(self).wf(),
            final(self)@ == upsert(old(self)@, index, value),
    {
        let mut p: usize = 0;
        while p < self.entries.len() && self.entries[p].0 < index
            invariant
                p <= self.entries@.len(),
                self.entries@ == old(self).entries@,
                forall|j: int| 0 <= j < p ==> self.entries@[j].0 < index,
            decreases self.entries@.len() - p,
        {
            p += 1;
        }
        proof {
            lemma_rank(self.entries@, index, p as int);
            lemma_upsert(old(self)@, index, value);
        }
        if p < self.entries.len() && self.entries[p].0 == index {
            self.entries.remove(p);
            self.entries.insert(p, (index, value));
            proof {
                assert(self.entries@ =~= old(self).entries@.update(p as int, (index, value)));
            }
        } else {
            self.entries.insert(p, (index, value));
        }
    }

    /// Hands the results out by ascending index, each with its index.
    pub fn replay(self) -> (ordered: Vec<(usize, T)>)
        requires
            self.wf(),
        ensures
            ordered@ == self@,
            ascending(ordered@),
    {
        self.entries
    }
}

/// Indices that ascend strictly and stay below the number of entries are
/// exactly `0, 1, 2, ...`.
pub proof fn lemma_dense<T>(s: Seq<(usize, T)>, i: int)
    requires
        ascending(s),
        forall|j: int| 0 <= j < s.len() ==> s[j].0 < s.len(),
        0 <= i < s.len(),
    ensures
        s[i].0 == i,
{
    lemma_at_least(s, i);
    lemma_at_most(s, i);
}

/// In a strictly ascending sequence the entry at position `i` has index at
/// least `i`.
pub proof fn lemma_at_least<T>(s: Seq<(usize, T)>, i: int)
    requires
        ascending(s),
        0 <= i < s.len(),
    ensures
        s[i].0 >= i,
    decreases i,
{
    if i > 0 {
        lemma_at_least(s, i - 1);
    }
}

/// In a strictly ascending sequence with indices below its length, the entry
/// at position `i` has index at most `i`.
pub proof fn lemma_at_most<T>(s: Seq<(usize, T)>, i: int)
    requires
        ascending(s),
        forall|j: int| 0 <= j < s.len() ==> s[j].0 < s.len(),
        0 <= i < s.len(),
    ensures
        s[i].0 <= i,
    decreases s.len() - i,
{
    if i < s.len() - 1 {
        lemma_at_most(s, i + 1);
    }
}

/// The indices of `done` are pairwise different.
pub open spec fn distinct_indices<T>(done: Seq<(usize, T)>) -> bool {
    forall|a: int, b: int| 0 <= a < b < done.len() ==> done[a].0 != done[b].0
}

/// Filing completions with pairwise different indices loses none of them and
/// makes none up.
pub proof fn lemma_collect<T>(done: Seq<(usize, T)>)
    requires
        distinct_indices(done),
    ensures
        ascending(collect(done)),
        collect(done).len() == done.len(),
        forall|i: int|
            0 <= i < collect(done).len() ==> done.contains(#[trigger] collect(done)[i]),
        forall|a: int| 0 <= a < done.len() ==> collect(done).contains(#[trigger] done[a]),
    decreases done.len(),
{
    if done.len() > 0 {
        let prev = done.drop_last();
        let last = done.last();
        assert forall|a: int, b: int| 0 <= a < b < prev.len() implies prev[a].0 != prev[b].0 by {
            assert(prev[a] == done[a] && prev[b] == done[b]);
        }
        lemma_collect(prev);
        let c = collect(prev);
        let u = collect(done);
        lemma_upsert(c, last.0, last.1);
        lemma_rank_splits(c, last.0);
        let p = rank(c, last.0);
        assert(done[done.len() - 1] == last);
        assert((last.0, last.1) == last);
        assert forall|i: int| 0 <= i < c.len() implies c[i].0 != last.0 by {
            assert(prev.contains(c[i]));
            let a = choose|a: int| 0 <= a < prev.len() && prev[a] == c[i];
            assert(prev[a] == done[a]);
        }
        assert(u == c.insert(p, last));
        assert(u.len() == c.len() + 1);
        assert forall|i: int| 0 <= i < u.len() implies done.contains(#[trigger] u[i]) by {
            if i != p {
                assert(c.contains(u[i]));
                let k = choose|k: int| 0 <= k < c.len() && c[k] == u[i];
                assert(prev.contains(c[k]));
                let a = choose|a: int| 0 <= a < prev.len() && prev[a] == c[k];
                assert(done[a] == u[i]);
            }
        }
        assert forall|a: int| 0 <= a < done.len() implies u.contains(#[trigger] done[a]) by {
            if a == done.len() - 1 {
                assert(u[p] == done[a]);
            } else {
                assert(prev[a] == done[a]);
                assert(c.contains(prev[a]));
                let k = choose|k: int| 0 <= k < c.len() && c[k] == prev[a];
                assert(c[k].0 != last.0);
                assert(u.contains(c[k]));
            }
        }
    }
}

/// In-order replay: when each of the first `n` submissions has finished
/// exactly once, in whatever order, filing the results by index and reading
/// them out puts the result of submission `i` at position `i`, which is the
/// order that running them one after another would have given.
pub proof fn lemma_replay_restores_submission_order<T>(done: Seq<(usize, T)>, a: int)
    requires
        distinct_indices(done),
        forall|k: int| 0 <= k < done.len() ==> done[k].0 < done.len(),
        0 <= a < done.len(),
    ensures
        ascending(collect(done)),
        collect(done).len() == done.len(),
        collect(done)[done[a].0 as int] == done[a],
{
    lemma_collect(done);
    let c = collect(done);
    assert forall|j: int| 0 <= j < c.len() implies c[j].0 < c.len() by {
        assert(done.contains(c[j]));
        let k = choose|k: int| 0 <= k < done.len() && done[k] == c[j];
        assert(done[k].0 < done.len());
    }
    assert(c.contains(done[a]));
    let q = choose|q: int| 0 <= q < c.len() && c[q] == done[a];
    lemma_dense(c, q);
}

} // verus!

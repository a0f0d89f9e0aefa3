//! A pool of exclusive inference sessions behind a first-come, first-served
//! admission gate.
//!
//! Sessions are known to the pool by their slot number, `0..capacity`. The
//! pool records which slots are idle, which are checked out, and which callers
//! are suspended waiting for one.

use vstd::prelude::*;

verus! {

/// The mathematical state of a pool.
pub struct PoolState {
    /// Number of sessions the pool was built with.
    pub capacity: nat,
    /// Idle sessions; the last one is handed out next.
    pub idle: Seq<usize>,
    /// Sessions held by live handles.
    pub checked_out: Seq<usize>,
    /// Suspended callers, the longest-waiting first.
    pub waiting: Seq<u64>,
}

/// Index of the first occurrence of `v` in `q`, or `q.len()` if there is none.
pub open spec fn first_index<T>(q: Seq<T>, v: T) -> int
    decreases q.len(),
{
    if q.len() == 0 || q[0] == v {
        0
    } else {
        1 + first_index(q.drop_first(), v)
    }
}

impl PoolState {
    /// Every session is accounted for exactly once, either idle or checked
    /// out, and nobody waits while a session is idle.
    pub open spec fn wf(self) -> bool {
        &&& self.idle.len() + self.checked_out.len() == self.capacity
        &&& self.idle.no_duplicates()
        &&& self.checked_out.no_duplicates()
        &&& self.idle.disjoint(self.checked_out)
        &&& forall|i: int| 0 <= i < self.idle.len() ==> self.idle[i] < self.capacity
        &&& forall|i: int|
            0 <= i < self.checked_out.len() ==> self.checked_out[i] < self.capacity
        &&& self.waiting.len() > 0 ==> self.idle.len() == 0
    }

    /// Permits the admission gate can still hand out.
    pub open spec fn available_permits(self) -> nat {
        self.idle.len()
    }

    /// A freshly built pool of `n` sessions.
    pub open spec fn fresh(n: nat) -> PoolState {
        PoolState {
            capacity: n,
            idle: Seq::new(n, |i: int| i as usize),
            checked_out: Seq::empty(),
            waiting: Seq::empty(),
        }
    }

    /// State after `caller` asks for a session.
    pub open spec fn acquire(self, caller: u64) -> PoolState {
        if self.idle.len() > 0 {
            PoolState {
                capacity: self.capacity,
                idle: self.idle.drop_last(),
                checked_out: self.checked_out.push(self.idle.last()),
                waiting: self.waiting,
            }
        } else {
            PoolState {
                capacity: self.capacity,
                idle: self.idle,
                checked_out: self.checked_out,
                waiting: self.waiting.push(caller),
            }
        }
    }

    /// The session granted at once to a caller that asks now, if any.
    pub open spec fn grant_on_acquire(self) -> Option<usize> {
        if self.idle.len() > 0 {
            Some(self.idle.last())
        } else {
            None
        }
    }

    /// State after the handle on `session` is released: the session goes back
    /// to the idle collection first, and only then is the permit passed on, to
    /// the longest-waiting caller if there is one.
    pub open spec fn release(self, session: usize) -> PoolState {
        let rest = self.checked_out.remove(first_index(self.checked_out, session));
        if self.waiting.len() > 0 {
            PoolState {
                capacity: self.capacity,
                idle: self.idle,
                checked_out: rest.push(session),
                waiting: self.waiting.drop_first(),
            }
        } else {
            PoolState {
                capacity: self.capacity,
                idle: self.idle.push(session),
                checked_out: rest,
                waiting: self.waiting,
            }
        }
    }

    /// The caller woken by a release, if any.
    pub open spec fn woken_on_release(self) -> Option<u64> {
        if self.waiting.len() > 0 {
            Some(self.waiting[0])
        } else {
            None
        }
    }

    /// State after a suspended `caller` gives up waiting.
    pub open spec fn cancel(self, caller: u64) -> PoolState {
        if self.waiting.contains(caller) {
            PoolState {
                capacity: self.capacity,
                idle: self.idle,
                checked_out: self.checked_out,
                waiting: self.waiting.remove(first_index(self.waiting, caller)),
            }
        } else {
            self
        }
    }
}

/// `first_index` is the one position `k` that holds `v` with no `v` before it.
pub proof fn lemma_first_index<T>(q: Seq<T>, v: T, k: int)
    requires
        0 <= k <= q.len(),
        forall|j: int| 0 <= j < k ==> q[j] != v,
        k < q.len() ==> q[k] == v,
    ensures
        first_index(q, v) == k,
    decreases k,
{
    if k > 0 {
        let t = q.drop_first();
        assert forall|j: int| 0 <= j < k - 1 implies t[j] != v by {
            assert(t[j] == q[j + 1]);
        }
        if k < q.len() {
            assert(t[k - 1] == q[k]);
        }
        lemma_first_index(t, v, k - 1);
    }
}

/// Where the element at position `i` of `s.remove(k)` stood in `s`.
pub open spec fn slide(i: int, k: int) -> int {
    if i < k {
        i
    } else {
        i + 1
    }
}

/// Removing one element keeps the others, in their order.
pub proof fn lemma_remove_keeps_order<T>(s: Seq<T>, k: int)
    requires
        0 <= k < s.len(),
    ensures
        s.remove(k).len() == s.len() - 1,
        forall|i: int| 0 <= i < s.len() - 1 ==> s.remove(k)[i] == s[slide(i, k)],
{
}

/// Exclusive, temporary ownership of one session together with one permit of
/// the admission gate. Only the pool makes one, and releasing it consumes it.
#[derive(Debug)]
pub struct SessionHandle {
    session: usize,
    holder: u64,
}

impl SessionHandle {
    /// Slot number of the session this handle owns.
    pub closed spec fn session_id(&self) -> usize {
        self.session
    }

    /// The caller the session was granted to.
    pub closed spec fn holder_id(&self) -> u64 {
        self.holder
    }

    /// Slot number of the session this handle gives exclusive access to.
    pub fn session(&self) -> (id: usize)
        ensures
            id == self.session_id(),
    {
        self.session
    }

    /// The caller the session was granted to.
    pub fn holder(&self) -> (caller: u64)
        ensures
            caller == self.holder_id(),
    {
        self.holder
    }
}

/// What a caller that asks for a session is told.
#[derive(Debug)]
pub enum Admission {
    /// A session was idle: the caller owns it until the handle is released.
    Granted(SessionHandle),
    /// Every session is checked out: the caller is suspended at the back of
    /// the queue.
    Queued,
}

/// A fixed set of sessions, an admission gate with one permit per session, and
/// the queue of callers suspended at the admission gate.
#[derive(Debug)]
pub struct SessionPool {
    size: usize,
    idle: Vec<usize>,
    leased: Vec<usize>,
    waiting: Vec<u64>,
}

impl View for SessionPool {
    type V = PoolState;

    closed spec fn view(&self) -> PoolState {
        PoolState {
            capacity: self.size as nat,
            idle: self.idle@,
            checked_out: self.leased@,
            waiting: self.waiting@,
        }
    }
}

impl SessionPool {
    /// The pool's invariant.
    pub open spec fn wf(&self) -> bool {
        self@.wf()
    }

    /// Whether `handle` holds a session that this pool has checked out.
    pub open spec fn holds(&self, handle: &SessionHandle) -> bool {
        self@.checked_out.contains(handle.session_id())
    }

    /// Builds a pool of `size` sessions, all idle, with as many permits.
    /// A pool of no sessions admits nobody: every caller is left waiting.
    pub fn new(size: usize) -> (pool: SessionPool)
        ensures
            pool.wf(),
            pool@ == PoolState::fresh(size as nat),
    {
        let mut idle: Vec<usize> = Vec::new();
        let mut i: usize = 0;
        while i < size
            invariant
                i <= size,
                idle@.len() == i,
                forall|j: int| 0 <= j < i ==> idle@[j] == j,
            decreases size - i,
        {
            idle.push(i);
            i += 1;
        }
        let pool = SessionPool { size, idle, leased: Vec::new(), waiting: Vec::new() };
        assert(pool@.idle =~= PoolState::fresh(size as nat).idle);
        pool
    }

    /// Number of sessions the pool was built with.
    pub fn capacity(&self) -> (n: usize)
        ensures
            n == self@.capacity,
    {
        self.size
    }

    /// Permits the admission gate can hand out right now: the number of idle
    /// sessions.
    pub fn available_permits(&self) -> (n: usize)
        ensures
            n == self@.available_permits(),
    {
        self.idle.len()
    }

    /// Number of sessions held by live handles.
    pub fn checked_out(&self) -> (n: usize)
        ensures
            n == self@.checked_out.len(),
    {
        self.leased.len()
    }

    /// Number of callers suspended at the admission gate.
    pub fn waiting(&self) -> (n: usize)
        ensures
            n == self@.waiting.len(),
    {
        self.waiting.len()
    }

    /// Whether `handle` holds a session that this pool has checked out.
    pub fn owns(&self, handle: &SessionHandle) -> (yes: bool)
        ensures
            yes == self.holds(handle),
    {
        let k = slot_position(&self.leased, handle.session);
        k < self.leased.len()
    }

    /// Asks for a session on behalf of `caller`. If one is idle the caller
    /// gets the most recently returned one at once; otherwise the caller joins
    /// the back of the queue and is served by a later release.
    pub fn acquire(&mut self, caller: u64) -> (admission: Admission)
        requires
            old(self).wf(),
        ensures
            final(self).wf(),
            final(self)@ == old(self)@.acquire(caller),
            match admission {
                Admission::Granted(handle) => {
                    &&& old(self)@.grant_on_acquire() == Some(handle.session_id())
                    &&& handle.holder_id() == caller
                    &&& final(self).holds(&handle)
                    &&& !old(self).holds(&handle)
                },
                Admission::Queued => old(self)@.grant_on_acquire().is_none(),
            },
    {
        match self.idle.pop() {
            Some(session) => {
                self.leased.push(session);
                proof {
                    let before = old(self)@;
                    let after = self@;
                    assert(after.idle =~= before.idle.drop_last());
                    assert(after.checked_out[after.checked_out.len() - 1] == session);
                    assert(before.idle[before.idle.len() - 1] == session);
                }
                Admission::Granted(SessionHandle { session, holder: caller })
            },
            None => {
                self.waiting.push(caller);
                Admission::Queued
            },
        }
    }

    /// Takes back the session of `handle`. The session returns to the idle
    /// collection before the permit is passed on; if a caller is suspended at
    /// the admission gate, the longest-waiting one is woken and handed the
    /// session.
    pub fn release(&mut self, handle: SessionHandle) -> (woken: Option<SessionHandle>)
        requires
            old(self).wf(),
            old(self).holds(&handle),
        ensures
            final(self).wf(),
            final(self)@ == old(self)@.release(handle.session_id()),
            match woken {
                Some(next) => {
                    &&& old(self)@.woken_on_release() == Some(next.holder_id())
                    &&& next.session_id() == handle.session_id()
                    &&& final(self).holds(&next)
                },
                None => {
                    &&& old(self)@.woken_on_release().is_none()
                    &&& !final(self).holds(&handle)
                    &&& final(self)@.grant_on_acquire() == Some(handle.session_id())
                },
            },
    {
        let session = handle.session;
        let k = slot_position(&self.leased, session);
        self.leased.remove(k);
        proof {
            lemma_remove_keeps_order(old(self)@.checked_out, k as int);
            let rest = self@.checked_out;
            let out = old(self)@.checked_out;
            let idle = old(self)@.idle;
            assert forall|i: int| 0 <= i < rest.len() implies rest[i] != session && rest[i]
                < self@.capacity by {
                assert(rest[i] == out[slide(i, k as int)]);
            }
            assert forall|i: int, j: int|
                0 <= i < rest.len() && 0 <= j < rest.len() && i != j implies rest[i]
                != rest[j] by {
                assert(rest[i] == out[slide(i, k as int)]);
                assert(rest[j] == out[slide(j, k as int)]);
            }
            assert forall|i: int, j: int|
                0 <= i < idle.len() && 0 <= j < rest.len() implies idle[i] != rest[j] by {
                assert(rest[j] == out[slide(j, k as int)]);
            }
            assert forall|i: int| 0 <= i < idle.len() implies idle[i] != session by {
                assert(out[k as int] == session);
            }
        }
        if self.waiting.len() > 0 {
            let caller = self.waiting.remove(0);
            self.leased.push(session);
            proof {
                assert(self@.waiting =~= old(self)@.waiting.drop_first());
                assert(self@.checked_out[self@.checked_out.len() - 1] == session);
            }
            Some(SessionHandle { session, holder: caller })
        } else {
            self.idle.push(session);
            proof {
                assert(self@.idle[self@.idle.len() - 1] == session);
            }
            None
        }
    }

    /// Withdraws a suspended `caller` from the queue. A caller that was never
    /// granted a session holds nothing, so sessions and permits are untouched.
    /// Returns whether the caller was waiting.
    pub fn cancel(&mut self, caller: u64) -> (was_waiting: bool)
        requires
            old(self).wf(),
        ensures
            final(self).wf(),
            final(self)@ == old(self)@.cancel(caller),
            was_waiting == old(self)@.waiting.contains(caller),
    {
        let k = caller_position(&self.waiting, caller);
        if k < self.waiting.len() {
            self.waiting.remove(k);
            true
        } else {
            false
        }
    }

    /// The sessions whose instrumentation is to be flushed now: every idle
    /// one, in the order the idle collection holds them. Sessions that are
    /// checked out are left alone.
    pub fn end_profiling(&self) -> (flush: Vec<usize>)
        ensures
            flush@ == self@.idle,
    {
        copy_slots(&self.idle)
    }

    /// Tears the pool down and names the sessions to flush one last time:
    /// those still in the idle collection. A session that is checked out at
    /// this moment is not waited for.
    pub fn teardown(self) -> (flush: Vec<usize>)
        ensures
            flush@ == self@.idle,
    {
        self.idle
    }
}

/// Position of the first `v` in `items`, or `items.len()` if there is none.
fn slot_position(items: &Vec<usize>, v: usize) -> (k: usize)
    ensures
        k == first_index(items@, v),
        k <= items@.len(),
        k < items@.len() <==> items@.contains(v),
        k < items@.len() ==> items@[k as int] == v,
{
    let mut k: usize = 0;
    while k < items.len() && items[k] != v
        invariant
            k <= items@.len(),
            forall|j: int| 0 <= j < k ==> items@[j] != v,
        decreases items@.len() - k,
    {
        k += 1;
    }
    proof {
        lemma_first_index(items@, v, k as int);
    }
    k
}

/// Position of the first `v` in `items`, or `items.len()` if there is none.
fn caller_position(items: &Vec<u64>, v: u64) -> (k: usize)
    ensures
        k == first_index(items@, v),
        k <= items@.len(),
        k < items@.len() <==> items@.contains(v),
        k < items@.len() ==> items@[k as int] == v,
{
    let mut k: usize = 0;
    while k < items.len() && items[k] != v
        invariant
            k <= items@.len(),
            forall|j: int| 0 <= j < k ==> items@[j] != v,
        decreases items@.len() - k,
    {
        k += 1;
    }
    proof {
        lemma_first_index(items@, v, k as int);
    }
    k
}

/// A copy of `items`, element by element.
fn copy_slots(items: &Vec<usize>) -> (copy: Vec<usize>)
    ensures
        copy@ == items@,
{
    let mut copy: Vec<usize> = Vec::new();
    let mut i: usize = 0;
    while i < items.len()
        invariant
            i <= items@.len(),
            copy@ == items@.subrange(0, i as int),
        decreases items@.len() - i,
    {
        copy.push(items[i]);
        proof {
            assert(copy@ =~= items@.subrange(0, i + 1));
        }
        i += 1;
    }
    proof {
        assert(items@.subrange(0, items@.len() as int) =~= items@);
    }
    copy
}

} // verus!

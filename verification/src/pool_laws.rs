//! What holds of a session pool in every state it can reach.

use crate::session_pool::{first_index, lemma_remove_keeps_order, slide, PoolState};
use vstd::prelude::*;

verus! {

/// One thing that can happen to a pool.
pub enum PoolEvent {
    /// A caller asks for a session.
    Acquire(u64),
    /// The handle on a session is released. Releasing a session that is not
    /// checked out cannot happen, and changes nothing here.
    Release(usize),
    /// A suspended caller gives up waiting.
    Cancel(u64),
}

/// State after one event.
pub open spec fn step(s: PoolState, e: PoolEvent) -> PoolState {
    match e {
        PoolEvent::Acquire(caller) => s.acquire(caller),
        PoolEvent::Release(session) => if s.checked_out.contains(session) {
            s.release(session)
        } else {
            s
        },
        PoolEvent::Cancel(caller) => s.cancel(caller),
    }
}

/// State after a history of events, the oldest first.
pub open spec fn run(s: PoolState, events: Seq<PoolEvent>) -> PoolState
    decreases events.len(),
{
    if events.len() == 0 {
        s
    } else {
        step(run(s, events.drop_last()), events.last())
    }
}

/// A value that occurs in a sequence has a first occurrence, and
/// `first_index` is its position.
pub proof fn lemma_first_index_found<T>(q: Seq<T>, v: T)
    requires
        q.contains(v),
    ensures
        0 <= first_index(q, v) < q.len(),
        q[first_index(q, v)] == v,
        forall|j: int| 0 <= j < first_index(q, v) ==> q[j] != v,
    decreases q.len(),
{
    if q[0] != v {
        let t = q.drop_first();
        let w = choose|i: int| 0 <= i < q.len() && q[i] == v;
        assert(t[w - 1] == v);
        lemma_first_index_found(t, v);
        assert forall|j: int| 0 <= j < first_index(q, v) implies q[j] != v by {
            if j > 0 {
                assert(t[j - 1] == q[j]);
            }
        }
    }
}

/// A freshly built pool satisfies the invariant, with every session idle.
pub proof fn lemma_fresh_is_wf(n: nat)
    requires
        n <= usize::MAX,
    ensures
        PoolState::fresh(n).wf(),
        PoolState::fresh(n).available_permits() == n,
{
}

/// Asking for a session keeps the invariant and the pool's size.
pub proof fn lemma_acquire_keeps_invariant(s: PoolState, caller: u64)
    requires
        s.wf(),
    ensures
        s.acquire(caller).wf(),
        s.acquire(caller).capacity == s.capacity,
{
    if s.idle.len() > 0 {
        let t = s.acquire(caller);
        let last = s.idle.last();
        assert forall|i: int| 0 <= i < s.checked_out.len() implies s.checked_out[i] != last by {
            assert(s.idle[s.idle.len() - 1] == last);
        }
        assert forall|i: int, j: int|
            0 <= i < t.idle.len() && 0 <= j < t.checked_out.len() implies t.idle[i]
            != t.checked_out[j] by {
            assert(t.idle[i] == s.idle[i]);
        }
    }
}

/// Releasing a checked-out session keeps the invariant and the pool's size.
pub proof fn lemma_release_keeps_invariant(s: PoolState, session: usize)
    requires
        s.wf(),
        s.checked_out.contains(session),
    ensures
        s.release(session).wf(),
        s.release(session).capacity == s.capacity,
{
    lemma_first_index_found(s.checked_out, session);
    let k = first_index(s.checked_out, session);
    lemma_remove_keeps_order(s.checked_out, k);
    let out = s.checked_out;
    let rest = out.remove(k);
    let idle = s.idle;
    assert forall|i: int| 0 <= i < rest.len() implies rest[i] != session && rest[i]
        < s.capacity by {
        assert(rest[i] == out[slide(i, k)]);
    }
    assert forall|i: int, j: int|
        0 <= i < rest.len() && 0 <= j < rest.len() && i != j implies rest[i] != rest[j] by {
        assert(rest[i] == out[slide(i, k)]);
        assert(rest[j] == out[slide(j, k)]);
    }
    assert forall|i: int, j: int| 0 <= i < idle.len() && 0 <= j < rest.len() implies idle[i]
        != rest[j] by {
        assert(rest[j] == out[slide(j, k)]);
    }
    assert forall|i: int| 0 <= i < idle.len() implies idle[i] != session by {
        assert(out[k] == session);
    }
}

/// A caller that stops waiting leaves sessions and permits as they were, and
/// the invariant holds on.
pub proof fn lemma_cancel_keeps_invariant(s: PoolState, caller: u64)
    requires
        s.wf(),
    ensures
        s.cancel(caller).wf(),
        s.cancel(caller).capacity == s.capacity,
        s.cancel(caller).idle == s.idle,
        s.cancel(caller).checked_out == s.checked_out,
{
}

/// Capacity invariant: whatever has happened to a pool since it was built,
/// every one of its sessions is either idle or checked out, never both and
/// never lost, so at most `capacity` handles are live at any time.
pub proof fn lemma_capacity_invariant(n: nat, events: Seq<PoolEvent>)
    requires
        n <= usize::MAX,
    ensures
        run(PoolState::fresh(n), events).wf(),
        run(PoolState::fresh(n), events).capacity == n,
        run(PoolState::fresh(n), events).idle.len() + run(
            PoolState::fresh(n),
            events,
        ).checked_out.len() == n,
        run(PoolState::fresh(n), events).checked_out.len() <= n,
        run(PoolState::fresh(n), events).available_permits() == run(
            PoolState::fresh(n),
            events,
        ).idle.len(),
    decreases events.len(),
{
    if events.len() == 0 {
        lemma_fresh_is_wf(n);
    } else {
        lemma_capacity_invariant(n, events.drop_last());
        let s = run(PoolState::fresh(n), events.drop_last());
        match events.last() {
            PoolEvent::Acquire(caller) => lemma_acquire_keeps_invariant(s, caller),
            PoolEvent::Release(session) => {
                if s.checked_out.contains(session) {
                    lemma_release_keeps_invariant(s, session);
                }
            },
            PoolEvent::Cancel(caller) => lemma_cancel_keeps_invariant(s, caller),
        }
    }
}

/// No double issue: two live handles never hold the same session, and a
/// session that is checked out is not idle at the same time.
pub proof fn lemma_no_double_issue(s: PoolState, i: int, j: int)
    requires
        s.wf(),
        0 <= i < s.checked_out.len(),
        0 <= j < s.checked_out.len(),
        i != j,
    ensures
        s.checked_out[i] != s.checked_out[j],
        !s.idle.contains(s.checked_out[i]),
{
}

/// No double issue, at the moment of issue: the session granted to a caller
/// was held by nobody just before.
pub proof fn lemma_granted_session_was_free(s: PoolState, caller: u64)
    requires
        s.wf(),
        s.grant_on_acquire().is_some(),
    ensures
        !s.checked_out.contains(s.grant_on_acquire().unwrap()),
        s.acquire(caller).checked_out.contains(s.grant_on_acquire().unwrap()),
        !s.acquire(caller).idle.contains(s.grant_on_acquire().unwrap()),
{
    let t = s.acquire(caller);
    let g = s.idle.last();
    assert(s.idle[s.idle.len() - 1] == g);
    assert(t.checked_out[t.checked_out.len() - 1] == g);
    lemma_acquire_keeps_invariant(s, caller);
}

/// Guaranteed release: once a handle is released while nobody waits, its
/// session is idle again and the very next caller is granted it without
/// being suspended.
pub proof fn lemma_release_then_acquire(s: PoolState, session: usize, caller: u64)
    requires
        s.wf(),
        s.checked_out.contains(session),
        s.waiting.len() == 0,
    ensures
        s.release(session).available_permits() == s.available_permits() + 1,
        s.release(session).checked_out.len() == s.checked_out.len() - 1,
        s.release(session).grant_on_acquire() == Some(session),
        s.release(session).acquire(caller).waiting == s.waiting,
{
    lemma_first_index_found(s.checked_out, session);
    lemma_remove_keeps_order(s.checked_out, first_index(s.checked_out, session));
    let r = s.release(session);
    assert(r.idle[r.idle.len() - 1] == session);
}

/// First come, first served: a release wakes the caller that has waited
/// longest, hands it the session just returned, and moves everybody else in
/// the queue one place forward without changing their order.
pub proof fn lemma_release_serves_longest_waiting(s: PoolState, session: usize, i: int)
    requires
        s.wf(),
        s.checked_out.contains(session),
        0 <= i < s.waiting.len() - 1,
    ensures
        s.woken_on_release() == Some(s.waiting[0]),
        s.release(session).waiting.len() == s.waiting.len() - 1,
        s.release(session).waiting[i] == s.waiting[i + 1],
        s.release(session).checked_out.contains(session),
{
    lemma_first_index_found(s.checked_out, session);
    lemma_remove_keeps_order(s.checked_out, first_index(s.checked_out, session));
    let r = s.release(session);
    assert(r.checked_out[r.checked_out.len() - 1] == session);
}

/// First come, first served: a caller that has to wait joins the queue
/// behind everybody who was already waiting.
pub proof fn lemma_acquire_queues_at_the_back(s: PoolState, caller: u64)
    requires
        s.wf(),
        s.idle.len() == 0,
    ensures
        s.acquire(caller).waiting.len() == s.waiting.len() + 1,
        s.acquire(caller).waiting.last() == caller,
        forall|i: int| 0 <= i < s.waiting.len() ==> s.acquire(caller).waiting[i] == s.waiting[i],
{
}

/// First come, first served: a caller that gives up waiting leaves the
/// others in the queue in the order they arrived.
pub proof fn lemma_cancel_keeps_order(s: PoolState, caller: u64, i: int, j: int)
    requires
        s.wf(),
        s.waiting.contains(caller),
        0 <= i < j < s.waiting.len() - 1,
    ensures
        s.cancel(caller).waiting.len() == s.waiting.len() - 1,
        s.cancel(caller).waiting[i] == s.waiting[slide(i, first_index(s.waiting, caller))],
        s.cancel(caller).waiting[j] == s.waiting[slide(j, first_index(s.waiting, caller))],
        slide(i, first_index(s.waiting, caller)) < slide(j, first_index(s.waiting, caller)),
{
    lemma_first_index_found(s.waiting, caller);
    lemma_remove_keeps_order(s.waiting, first_index(s.waiting, caller));
}

/// Whether the sessions of `sessions` can be released one after another,
/// each being checked out when its turn comes.
pub open spec fn releasable(s: PoolState, sessions: Seq<usize>) -> bool
    decreases sessions.len(),
{
    sessions.len() == 0 || (s.checked_out.contains(sessions[0]) && releasable(
        s.release(sessions[0]),
        sessions.drop_first(),
    ))
}

/// The callers woken, in the order they are woken, when the sessions of
/// `sessions` are released one after another.
pub open spec fn woken_by(s: PoolState, sessions: Seq<usize>) -> Seq<u64>
    decreases sessions.len(),
{
    if sessions.len() == 0 {
        Seq::empty()
    } else {
        let rest = woken_by(s.release(sessions[0]), sessions.drop_first());
        match s.woken_on_release() {
            Some(caller) => seq![caller] + rest,
            None => rest,
        }
    }
}

/// First come, first served: as long as callers are waiting, each release
/// wakes one of them, and the callers woken by a run of releases are the
/// longest-waiting ones, in the order in which they arrived.
pub proof fn lemma_woken_in_arrival_order(s: PoolState, sessions: Seq<usize>)
    requires
        s.wf(),
        releasable(s, sessions),
        sessions.len() <= s.waiting.len(),
    ensures
        woken_by(s, sessions) == s.waiting.subrange(0, sessions.len() as int),
    decreases sessions.len(),
{
    if sessions.len() == 0 {
        assert(woken_by(s, sessions) =~= s.waiting.subrange(0, 0));
    } else {
        let next = s.release(sessions[0]);
        let rest = sessions.drop_first();
        lemma_release_keeps_invariant(s, sessions[0]);
        lemma_woken_in_arrival_order(next, rest);
        assert(next.waiting == s.waiting.drop_first());
        assert(seq![s.waiting[0]] + s.waiting.drop_first().subrange(0, rest.len() as int)
            =~= s.waiting.subrange(0, sessions.len() as int));
    }
}

} // verus!

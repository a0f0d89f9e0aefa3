use kokoro_tts::session_pool::{Admission, SessionHandle, SessionPool};

fn granted(admission: Admission) -> SessionHandle {
    match admission {
        Admission::Granted(handle) => handle,
        Admission::Queued => panic!("expected a session"),
    }
}

fn is_queued(admission: &Admission) -> bool {
    matches!(admission, Admission::Queued)
}

#[test]
fn new_pool_has_every_session_idle() {
    let pool = SessionPool::new(3);
    assert_eq!(pool.capacity(), 3);
    assert_eq!(pool.available_permits(), 3);
    assert_eq!(pool.checked_out(), 0);
    assert_eq!(pool.waiting(), 0);
    assert_eq!(pool.end_profiling(), vec![0, 1, 2]);
}

#[test]
fn empty_pool_queues_every_caller() {
    let mut pool = SessionPool::new(0);
    assert!(is_queued(&pool.acquire(1)));
    assert_eq!(pool.waiting(), 1);
    assert_eq!(pool.available_permits(), 0);
}

#[test]
fn at_most_capacity_callers_are_granted_before_a_release() {
    let n: usize = 3;
    let extra: usize = 4;
    let mut pool = SessionPool::new(n);
    let mut handles = Vec::new();
    let mut queued: usize = 0;
    for caller in 0..(n + extra) {
        match pool.acquire(caller as u64) {
            Admission::Granted(handle) => handles.push(handle),
            Admission::Queued => queued += 1,
        }
        assert_eq!(pool.available_permits() + pool.checked_out(), n);
    }
    assert_eq!(handles.len(), n);
    assert_eq!(queued, extra);
    assert_eq!(pool.waiting(), extra);
    assert_eq!(pool.available_permits(), 0);
}

#[test]
fn live_handles_hold_distinct_sessions() {
    let mut pool = SessionPool::new(4);
    let mut seen = Vec::new();
    let mut handles = Vec::new();
    for caller in 0..4u64 {
        let handle = granted(pool.acquire(caller));
        assert_eq!(handle.holder(), caller);
        assert!(!seen.contains(&handle.session()));
        assert!(handle.session() < 4);
        seen.push(handle.session());
        handles.push(handle);
    }
    assert_eq!(seen, vec![3, 2, 1, 0]);
    for handle in &handles {
        assert!(pool.owns(handle));
    }
}

#[test]
fn released_sessions_are_granted_again_without_waiting() {
    let n: usize = 3;
    let mut pool = SessionPool::new(n);
    let mut handles = Vec::new();
    for caller in 0..n {
        handles.push(granted(pool.acquire(caller as u64)));
    }
    assert_eq!(pool.available_permits(), 0);
    for handle in handles {
        assert!(pool.release(handle).is_none());
    }
    assert_eq!(pool.available_permits(), n);
    assert_eq!(pool.checked_out(), 0);
    let again = granted(pool.acquire(99));
    assert_eq!(again.holder(), 99);
    assert_eq!(pool.available_permits(), n - 1);
}

#[test]
fn release_returns_the_session_that_is_granted_next() {
    let mut pool = SessionPool::new(2);
    let first = granted(pool.acquire(1));
    let second = granted(pool.acquire(2));
    assert_eq!(first.session(), 1);
    assert_eq!(second.session(), 0);
    assert!(pool.release(first).is_none());
    assert!(pool.owns(&second));
    assert_eq!(pool.end_profiling(), vec![1]);
    let third = granted(pool.acquire(3));
    assert_eq!(third.session(), 1);
}

#[test]
fn waiting_callers_are_served_in_arrival_order() {
    let mut pool = SessionPool::new(1);
    let holder = granted(pool.acquire(0));
    let a: u64 = 101;
    let b: u64 = 102;
    let c: u64 = 103;
    assert!(is_queued(&pool.acquire(a)));
    assert!(is_queued(&pool.acquire(b)));
    assert!(is_queued(&pool.acquire(c)));
    assert_eq!(pool.waiting(), 3);

    let for_a = pool.release(holder).expect("a waits");
    assert_eq!(for_a.holder(), a);
    assert_eq!(for_a.session(), 0);
    assert_eq!(pool.available_permits(), 0);
    let for_b = pool.release(for_a).expect("b waits");
    assert_eq!(for_b.holder(), b);
    let for_c = pool.release(for_b).expect("c waits");
    assert_eq!(for_c.holder(), c);
    assert_eq!(pool.waiting(), 0);
    assert!(pool.release(for_c).is_none());
    assert_eq!(pool.available_permits(), 1);
}

#[test]
fn cancelled_waiter_holds_nothing() {
    let mut pool = SessionPool::new(1);
    let holder = granted(pool.acquire(1));
    assert!(is_queued(&pool.acquire(2)));
    assert!(is_queued(&pool.acquire(3)));
    assert!(pool.cancel(2));
    assert!(!pool.cancel(2));
    assert!(!pool.cancel(77));
    assert_eq!(pool.waiting(), 1);
    assert_eq!(pool.checked_out(), 1);
    assert_eq!(pool.available_permits(), 0);
    let next = pool.release(holder).expect("caller 3 still waits");
    assert_eq!(next.holder(), 3);
}

#[test]
fn cancel_removes_the_earliest_request_of_a_caller() {
    let mut pool = SessionPool::new(1);
    let holder = granted(pool.acquire(1));
    assert!(is_queued(&pool.acquire(5)));
    assert!(is_queued(&pool.acquire(6)));
    assert!(is_queued(&pool.acquire(5)));
    assert!(pool.cancel(5));
    let next = pool.release(holder).expect("caller 6 waits");
    assert_eq!(next.holder(), 6);
    let last = pool.release(next).expect("caller 5 waits");
    assert_eq!(last.holder(), 5);
}

#[test]
fn profiling_flush_skips_checked_out_sessions() {
    let mut pool = SessionPool::new(3);
    let handle = granted(pool.acquire(1));
    assert_eq!(handle.session(), 2);
    assert_eq!(pool.end_profiling(), vec![0, 1]);
    assert_eq!(pool.teardown(), vec![0, 1]);
}

#[test]
fn foreign_handle_is_not_owned() {
    let mut one = SessionPool::new(2);
    let other = SessionPool::new(2);
    let handle = granted(one.acquire(1));
    assert!(one.owns(&handle));
    assert!(!other.owns(&handle));
}

use kokoro_tts::batch::Batch;
use kokoro_tts::session_pool::{Admission, SessionHandle, SessionPool};

fn speak(text: &str) -> Vec<f32> {
    text.bytes().map(|b| b as f32 / 255.0).collect()
}

#[test]
fn empty_batch_replays_nothing() {
    let batch: Batch<u8> = Batch::new();
    assert_eq!(batch.len(), 0);
    assert!(batch.replay().is_empty());
}

#[test]
fn batch_replays_by_ascending_index() {
    let mut batch = Batch::new();
    batch.insert(7, "h");
    batch.insert(2, "c");
    batch.insert(9, "j");
    batch.insert(0, "a");
    assert_eq!(batch.len(), 4);
    assert_eq!(batch.replay(), vec![(0, "a"), (2, "c"), (7, "h"), (9, "j")]);
}

#[test]
fn later_result_replaces_the_earlier_one_under_an_index() {
    let mut batch = Batch::new();
    batch.insert(1, 10);
    batch.insert(0, 20);
    batch.insert(1, 30);
    assert_eq!(batch.len(), 2);
    assert_eq!(batch.replay(), vec![(0, 20), (1, 30)]);
}

#[test]
fn out_of_order_batch_replays_in_submission_order() {
    let texts = ["first text", "second", "the third one", "4"];
    let latency: [u64; 4] = [40, 10, 30, 5];

    // Strictly sequential run: one session, no concurrency.
    let sequential: Vec<Vec<f32>> = texts.iter().map(|t| speak(t)).collect();

    // Two sessions: a caller runs as soon as it is granted one.
    let mut pool = SessionPool::new(2);
    let mut running: Vec<(u64, SessionHandle)> = Vec::new();
    for idx in 0..texts.len() {
        if let Admission::Granted(handle) = pool.acquire(idx as u64) {
            running.push((latency[idx], handle));
        }
    }
    assert_eq!(running.len(), 2);
    assert_eq!(pool.waiting(), 2);

    let mut completion_order: Vec<usize> = Vec::new();
    let mut batch = Batch::new();
    while !running.is_empty() {
        let mut soonest = 0;
        for k in 1..running.len() {
            if running[k].0 < running[soonest].0 {
                soonest = k;
            }
        }
        let (finished_at, handle) = running.remove(soonest);
        let idx = handle.holder() as usize;
        completion_order.push(idx);
        batch.insert(idx, speak(texts[idx]));
        if let Some(next) = pool.release(handle) {
            let started = next.holder() as usize;
            running.push((finished_at + latency[started], next));
        }
    }

    assert_eq!(completion_order, vec![1, 0, 2, 3]);
    assert_ne!(completion_order, vec![0, 1, 2, 3]);
    assert_eq!(pool.available_permits(), 2);

    let replayed = batch.replay();
    assert_eq!(replayed.len(), 4);
    for (position, (idx, audio)) in replayed.iter().enumerate() {
        assert_eq!(*idx, position);
        assert_eq!(audio, &sequential[position]);
    }
}

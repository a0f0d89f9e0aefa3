use kokoro_tts::error::KokoroError;
use kokoro_tts::stream::{Delivery, Submission};
use kokoro_tts::{KokoroTts, SynthStep};

fn voices() -> Vec<String> {
    vec!["af_heart".to_string(), "zm_045".to_string()]
}

#[test]
fn unknown_voice_is_reported_by_name() {
    let mut tts = KokoroTts::new(voices());
    match tts.synth(1, "hello", "missing-voice") {
        Err(KokoroError::VoiceNotFound(name)) => assert_eq!(name, "missing-voice"),
        _ => panic!("expected VoiceNotFound"),
    }
    assert_eq!(tts.model().available_permits(), 1);
    assert_eq!(tts.model().checked_out(), 0);
}

#[test]
fn known_voice_runs_on_a_session() {
    let mut tts = KokoroTts::new_with_pool(voices(), 2);
    assert_eq!(tts.model().capacity(), 2);
    assert_eq!(tts.voice_table().len(), 2);
    let job = match tts.synth(7, "hello", "zm_045") {
        Ok(SynthStep::Run(job)) => job,
        _ => panic!("expected a job"),
    };
    assert_eq!(job.text, "hello");
    assert_eq!(job.pack, 1);
    assert_eq!(job.handle.holder(), 7);
    assert_eq!(job.handle.session(), 1);
    assert!(tts.owns(&job.handle));
    assert_eq!(tts.model().available_permits(), 1);
    let (woken, outcome) = tts.finish(job.handle, None);
    assert!(woken.is_none());
    assert!(outcome.is_ok());
    assert_eq!(tts.model().available_permits(), 2);
}

#[test]
fn new_builds_a_single_session() {
    let tts = KokoroTts::new(voices());
    assert_eq!(tts.model().capacity(), 1);
    assert_eq!(tts.model().available_permits(), 1);
    assert_eq!(tts.end_profiling(), vec![0]);
}

#[test]
fn voice_lookup_finds_the_first_of_equal_names() {
    let tts = KokoroTts::new(vec!["a".to_string(), "b".to_string(), "a".to_string()]);
    assert_eq!(tts.voice_table().find("a"), Some(0));
    assert_eq!(tts.voice_table().find("b"), Some(1));
    assert_eq!(tts.voice_table().find("c"), None);
    assert_eq!(tts.voice_table().find(""), None);
}

#[test]
fn callers_beyond_capacity_wait_and_are_woken_in_turn() {
    let mut tts = KokoroTts::new(voices());
    let first = match tts.synth(1, "one", "af_heart") {
        Ok(SynthStep::Run(job)) => job,
        _ => panic!("expected a job"),
    };
    match tts.synth(2, "two", "zm_045") {
        Ok(SynthStep::Wait(pack)) => assert_eq!(pack, 1),
        _ => panic!("expected to wait"),
    }
    let (woken, outcome) = tts.finish(first.handle, None);
    assert!(outcome.is_ok());
    let handle = woken.expect("caller 2 waits");
    assert_eq!(handle.holder(), 2);
    assert_eq!(handle.session(), 0);
    let (woken, _) = tts.finish(handle, None);
    assert!(woken.is_none());
}

#[test]
fn engine_failure_keeps_its_cause_and_returns_the_session() {
    let mut tts = KokoroTts::new(voices());
    let job = match tts.synth(1, "hello", "af_heart") {
        Ok(SynthStep::Run(job)) => job,
        _ => panic!("expected a job"),
    };
    let (woken, outcome) = tts.finish(job.handle, Some("inference failed".to_string()));
    assert!(woken.is_none());
    match outcome {
        Err(KokoroError::Engine(cause)) => assert_eq!(cause, "inference failed"),
        _ => panic!("expected the engine's failure"),
    }
    assert_eq!(tts.model().available_permits(), 1);
    assert!(matches!(tts.synth(2, "again", "af_heart"), Ok(SynthStep::Run(_))));
}

#[test]
fn waiting_request_can_be_withdrawn() {
    let mut tts = KokoroTts::new(voices());
    let job = match tts.synth(1, "one", "af_heart") {
        Ok(SynthStep::Run(job)) => job,
        _ => panic!("expected a job"),
    };
    assert!(matches!(tts.synth(2, "two", "af_heart"), Ok(SynthStep::Wait(0))));
    assert!(tts.cancel(2));
    assert!(!tts.cancel(2));
    let (woken, _) = tts.finish(job.handle, None);
    assert!(woken.is_none());
}

#[test]
fn stream_fails_as_released_once_the_service_is_gone() {
    let tts = KokoroTts::new(voices());
    let mut session = tts.stream("af_heart");
    drop(tts);
    match session.submit(None, 1, "chunk") {
        Submission::Failed(KokoroError::ModelReleased) => {}
        _ => panic!("expected ModelReleased"),
    }
    assert_eq!(session.outstanding(), 1);
    assert_eq!(session.poll(), Delivery::Item);
    assert_eq!(session.poll(), Delivery::Pending);
}

#[test]
fn stream_reports_an_unknown_voice_per_chunk() {
    let mut tts = KokoroTts::new(voices());
    let mut session = tts.stream("nobody");
    match session.submit(Some(&mut tts), 1, "chunk") {
        Submission::Failed(KokoroError::VoiceNotFound(name)) => assert_eq!(name, "nobody"),
        _ => panic!("expected VoiceNotFound"),
    }
    assert_eq!(tts.model().available_permits(), 1);
    assert_eq!(session.poll(), Delivery::Item);
}

#[test]
fn stream_drains_after_the_producer_closes() {
    let mut tts = KokoroTts::new_with_pool(voices(), 1);
    let mut session = tts.stream("af_heart");
    assert!(session.accepts());
    let first = match session.submit(Some(&mut tts), 1, "one") {
        Submission::Scheduled(SynthStep::Run(job)) => job,
        _ => panic!("expected a job"),
    };
    assert_eq!(first.text, "one");
    assert!(matches!(
        session.submit(Some(&mut tts), 2, "two"),
        Submission::Scheduled(SynthStep::Wait(0))
    ));
    assert_eq!(session.outstanding(), 2);
    assert_eq!(session.poll(), Delivery::Pending);

    session.close_producer();
    assert!(!session.accepts());
    assert!(matches!(session.submit(Some(&mut tts), 3, "three"), Submission::Refused));
    assert_eq!(session.outstanding(), 2);

    let (woken, _) = tts.finish(first.handle, None);
    session.complete();
    assert_eq!(session.poll(), Delivery::Item);
    assert_eq!(session.poll(), Delivery::Pending);
    assert!(!session.is_closed());

    let second = woken.expect("caller 2 waits");
    assert_eq!(second.holder(), 2);
    let (woken, _) = tts.finish(second, None);
    assert!(woken.is_none());
    session.complete();
    assert_eq!(session.poll(), Delivery::Item);
    assert_eq!(session.poll(), Delivery::End);
    assert!(session.is_closed());
    assert_eq!(session.poll(), Delivery::End);
}

#[test]
fn dropped_consumer_discards_results_but_lets_work_finish() {
    let mut tts = KokoroTts::new(voices());
    let mut session = tts.stream("af_heart");
    let job = match session.submit(Some(&mut tts), 1, "one") {
        Submission::Scheduled(SynthStep::Run(job)) => job,
        _ => panic!("expected a job"),
    };
    assert!(matches!(session.submit(None, 2, "two"), Submission::Failed(_)));
    assert_eq!(session.outstanding(), 2);
    session.drop_consumer();
    assert_eq!(session.outstanding(), 1);
    assert!(matches!(session.submit(Some(&mut tts), 3, "three"), Submission::Refused));
    session.close_producer();
    assert!(!session.is_closed());
    let (woken, _) = tts.finish(job.handle, None);
    assert!(woken.is_none());
    session.complete();
    assert_eq!(session.outstanding(), 0);
    assert!(session.is_closed());
    assert_eq!(tts.model().available_permits(), 1);
}

#[test]
fn closing_producer_of_an_abandoned_idle_stream_closes_it() {
    let tts = KokoroTts::new(voices());
    let mut session = tts.stream("af_heart");
    session.drop_consumer();
    assert!(!session.is_closed());
    session.close_producer();
    assert!(session.is_closed());
    session.close_producer();
    assert!(session.is_closed());
}

#[test]
fn request_against_a_released_service_fails_at_once() {
    match kokoro_tts::synthesizer::synth(None, 1, "hello", "af_heart") {
        Err(KokoroError::ModelReleased) => {}
        _ => panic!("expected ModelReleased"),
    }
    let mut tts = KokoroTts::new(voices());
    assert!(matches!(
        kokoro_tts::synthesizer::synth(Some(&mut tts), 1, "hello", "af_heart"),
        Ok(SynthStep::Run(_))
    ));
    match kokoro_tts::synthesizer::synth(Some(&mut tts), 2, "hello", "missing-voice") {
        Err(KokoroError::VoiceNotFound(name)) => assert_eq!(name, "missing-voice"),
        _ => panic!("expected VoiceNotFound"),
    }
}

#[test]
fn stream_counts_syntheses_in_flight() {
    let mut tts = KokoroTts::new_with_pool(voices(), 2);
    let mut session = tts.stream("zm_045");
    assert_eq!(session.in_flight(), 0);
    let job = match session.submit(Some(&mut tts), 1, "one") {
        Submission::Scheduled(SynthStep::Run(job)) => job,
        _ => panic!("expected a job"),
    };
    assert_eq!(job.pack, 1);
    assert_eq!(session.in_flight(), 1);
    assert_eq!(session.outstanding(), 1);
    let (_, outcome) = tts.finish(job.handle, Some("boom".to_string()));
    assert!(matches!(outcome, Err(KokoroError::Engine(_))));
    session.complete();
    assert_eq!(session.in_flight(), 0);
    assert_eq!(session.outstanding(), 1);
    assert_eq!(session.poll(), Delivery::Item);
    assert_eq!(session.outstanding(), 0);
}

use bitstask::engine::FakeEngine;
use bitstask::protocol::{EngineError, JobId, JobState};

#[test]
fn create_job_hands_out_distinct_identifiers() {
    let mut engine = FakeEngine::new();
    let a = engine.create_job(b"first".to_vec());
    let b = engine.create_job(b"second".to_vec());
    assert_ne!(a, b);
    assert!(engine.contains_job(&a));
    assert!(engine.contains_job(&b));
    assert!(!engine.contains_job(&JobId { hi: 0, lo: 99 }));
}

#[test]
fn fresh_jobs_start_suspended() {
    let mut engine = FakeEngine::new();
    let id = engine.create_job(b"j".to_vec());
    let st = engine.get_status(&id).unwrap();
    assert_eq!(st.state, JobState::Suspended);
    assert_eq!(st.progress.bytes_total, 0);
    assert_eq!(st.error_count, 0);
    assert_eq!(st.error, None);
}

#[test]
fn resume_suspend_and_complete_move_the_state() {
    let mut engine = FakeEngine::new();
    let id = engine.create_job(b"j".to_vec());
    engine.add_file(&id, b"https://example.invalid/x".to_vec(), b"/tmp/x".to_vec()).unwrap();

    engine.resume(&id).unwrap();
    assert_eq!(engine.get_status(&id).unwrap().state, JobState::Connecting);

    engine.suspend(&id).unwrap();
    assert_eq!(engine.get_status(&id).unwrap().state, JobState::Suspended);

    engine.complete(&id).unwrap();
    assert_eq!(engine.get_status(&id).unwrap().state, JobState::Acknowledged);
}

#[test]
fn every_capability_reports_not_found_for_unknown_jobs() {
    let mut engine = FakeEngine::new();
    let ghost_id = JobId { hi: 1, lo: 2 };
    assert_eq!(
        engine.add_file(&ghost_id, b"u".to_vec(), b"p".to_vec()),
        Err(EngineError::NotFound)
    );
    assert_eq!(engine.set_description(&ghost_id, b"d".to_vec()), Err(EngineError::NotFound));
    assert_eq!(engine.set_priority(&ghost_id, 1), Err(EngineError::NotFound));
    assert_eq!(engine.resume(&ghost_id), Err(EngineError::NotFound));
    assert_eq!(engine.suspend(&ghost_id), Err(EngineError::NotFound));
    assert_eq!(engine.complete(&ghost_id), Err(EngineError::NotFound));
    assert_eq!(engine.cancel(&ghost_id), Err(EngineError::NotFound));
    assert_eq!(
        engine.register_callbacks(&ghost_id, true, false, false),
        Err(EngineError::NotFound)
    );
    assert_eq!(engine.fire_transferred(&ghost_id), Err(EngineError::NotFound));
    assert_eq!(engine.get_status(&ghost_id), Err(EngineError::NotFound));
}

#[test]
fn fire_transferred_needs_a_registered_callback() {
    let mut engine = FakeEngine::new();
    let id = engine.create_job(b"j".to_vec());
    engine.resume(&id).unwrap();

    // Nobody registered: the event goes nowhere.
    engine.fire_transferred(&id).unwrap();
    assert_eq!(engine.get_status(&id).unwrap().state, JobState::Connecting);

    // Registered: the job becomes transferred at once.
    engine.register_callbacks(&id, true, false, false).unwrap();
    engine.fire_transferred(&id).unwrap();
    assert_eq!(engine.get_status(&id).unwrap().state, JobState::Transferred);
}

#[test]
fn status_reports_the_last_error_only_in_error_states() {
    let mut engine = FakeEngine::new();
    let id = engine.create_job(b"j".to_vec());
    engine.resume(&id).unwrap();

    engine.hit_transient_error(&id, 5, 0x8020_0010).unwrap();
    let st = engine.get_status(&id).unwrap();
    assert_eq!(st.state, JobState::TransientError);
    assert_eq!(st.error_count, 1);
    let err = st.error.unwrap();
    assert_eq!(err.context, 5);
    assert_eq!(err.code, 0x8020_0010);

    // A transient error keeps the job in the active set: a bridge would
    // keep monitoring.  Once the engine recovers, the error is counted but
    // no longer reported.
    engine.resume(&id).unwrap();
    let st = engine.get_status(&id).unwrap();
    assert_eq!(st.state, JobState::Connecting);
    assert_eq!(st.error_count, 1);
    assert_eq!(st.error, None);

    engine.hit_transient_error(&id, 5, 0x8020_0010).unwrap();
    assert_eq!(engine.get_status(&id).unwrap().error_count, 2);
}

#[test]
fn mutating_one_job_leaves_the_others_alone() {
    let mut engine = FakeEngine::new();
    let a = engine.create_job(b"a".to_vec());
    let b = engine.create_job(b"b".to_vec());
    engine.resume(&a).unwrap();
    engine.resume(&b).unwrap();

    engine.cancel(&a).unwrap();
    assert_eq!(engine.get_status(&a).unwrap().state, JobState::Cancelled);
    assert_eq!(engine.get_status(&b).unwrap().state, JobState::Connecting);

    engine.set_priority(&b, 3).unwrap();
    engine.set_description(&b, b"second job".to_vec()).unwrap();
    assert_eq!(engine.get_status(&a).unwrap().state, JobState::Cancelled);
}

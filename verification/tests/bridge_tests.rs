use bitstask::bridge::{monitor_step, on_transferred, run_bridge};
use bitstask::codec::{decode_status, encode_status};
use bitstask::dispatch::run_start;
use bitstask::engine::FakeEngine;
use bitstask::protocol::{
    DecodingError, EngineError, Failure, JobId, JobProgress, JobState, JobStatus,
    StartJobCommand,
};
use bitstask::transport::{EchoTransport, ECHO_TAG};

fn started_job(engine: &mut FakeEngine) -> JobId {
    let (resp, _) = run_start(
        engine,
        StartJobCommand {
            url: b"https://example.invalid/f".to_vec(),
            save_path: b"/tmp/f".to_vec(),
            monitor: None,
        },
    );
    resp.unwrap().job_id
}

#[test]
fn bridge_pushes_terminal_status_within_one_poll_of_the_event() {
    let mut engine = FakeEngine::new();
    let job_id = started_job(&mut engine);

    // The engine fires the transferred callback after three polls.
    let fire_after = 3u32;
    engine.schedule_transfer_after(&job_id, fire_after).unwrap();

    let mut channel: Vec<Vec<u8>> = Vec::new();
    let finished = run_bridge(&mut engine, &job_id, &mut channel, 10).unwrap();
    assert!(finished);

    // Exactly one push per poll while active, plus the terminal push: no
    // extra idle interval after the callback fired.
    assert_eq!(channel.len(), fire_after as usize + 1);
    for msg in &channel[..fire_after as usize] {
        let st = decode_status(msg).unwrap();
        assert_eq!(st.state, JobState::Connecting);
    }
    let last = decode_status(channel.last().unwrap()).unwrap();
    assert_eq!(last.state, JobState::Transferred);
}

#[test]
fn bridge_exits_at_once_on_inactive_job() {
    let mut engine = FakeEngine::new();
    let job_id = started_job(&mut engine);
    engine.suspend(&job_id).unwrap();

    let mut channel: Vec<Vec<u8>> = Vec::new();
    let finished = run_bridge(&mut engine, &job_id, &mut channel, 10).unwrap();
    assert!(finished);
    assert_eq!(channel.len(), 1);
    let st = decode_status(&channel[0]).unwrap();
    assert_eq!(st.state, JobState::Suspended);
}

#[test]
fn bridge_gives_up_after_its_poll_budget() {
    let mut engine = FakeEngine::new();
    let job_id = started_job(&mut engine);

    let mut channel: Vec<Vec<u8>> = Vec::new();
    let finished = run_bridge(&mut engine, &job_id, &mut channel, 5).unwrap();
    assert!(!finished);
    assert_eq!(channel.len(), 5);
    for msg in &channel {
        let st = decode_status(msg).unwrap();
        assert_eq!(st.state, JobState::Connecting);
    }
}

#[test]
fn bridge_on_unknown_job_reports_not_found() {
    let mut engine = FakeEngine::new();
    let mut channel: Vec<Vec<u8>> = Vec::new();
    let r = run_bridge(&mut engine, &JobId { hi: 3, lo: 4 }, &mut channel, 10);
    assert_eq!(r, Err(Failure::EngineError(EngineError::NotFound)));
    assert!(channel.is_empty());
}

#[test]
fn transferred_callback_completes_the_job() {
    let mut engine = FakeEngine::new();
    let job_id = started_job(&mut engine);
    on_transferred(&mut engine, &job_id).unwrap();
    let st = engine.get_status(&job_id).unwrap();
    assert_eq!(st.state, JobState::Acknowledged);
}

#[test]
fn monitor_step_reads_until_inactive() {
    let active = JobStatus {
        state: JobState::Transferring,
        progress: JobProgress {
            bytes_total: 100,
            bytes_transferred: 50,
            files_total: 1,
            files_transferred: 0,
        },
        error_count: 0,
        error: None,
    };
    let (st, keep_reading) = monitor_step(&encode_status(&active)).unwrap();
    assert_eq!(st, active);
    assert!(keep_reading);

    let done = JobStatus {
        state: JobState::Transferred,
        ..active
    };
    let (st, keep_reading) = monitor_step(&encode_status(&done)).unwrap();
    assert_eq!(st, done);
    assert!(!keep_reading);

    assert_eq!(monitor_step(&[1, 2, 3]), Err(DecodingError::Truncated));
}

#[test]
fn transact_pairs_one_reply_with_each_request() {
    let mut t = EchoTransport::new();

    let first = t.transact(b"start");
    // Exactly one request sent and one reply received.
    assert_eq!(t.requests.len(), 1);
    assert_eq!(t.replies.len(), 1);
    // The reply is the peer's transform of this very request.
    let mut expected = vec![ECHO_TAG];
    expected.extend_from_slice(b"start");
    assert_eq!(first, expected);

    let second = t.transact(b"cancel");
    assert_eq!(t.requests.len(), 2);
    assert_eq!(t.replies.len(), 2);
    let mut expected = vec![ECHO_TAG];
    expected.extend_from_slice(b"cancel");
    assert_eq!(second, expected);

    // The log still pairs the first reply with the first request.
    assert_eq!(t.requests[0], b"start".to_vec());
    assert_eq!(t.replies[0], first);
}

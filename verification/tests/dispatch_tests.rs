use bitstask::codec::{
    decode_cancel_response, decode_monitor_response, decode_start_response, encode_command,
};
use bitstask::dispatch::{handle_request, run_cancel, run_monitor, run_start};
use bitstask::engine::FakeEngine;
use bitstask::protocol::{
    CancelJobCommand, CancelJobSuccess, Command, DecodingError, EngineError, Failure, JobId,
    JobState, MonitorConfig, MonitorJobCommand, MonitorJobSuccess, StartJobCommand, MAX_RESPONSE,
};

fn start_command(monitor: Option<MonitorConfig>) -> StartJobCommand {
    StartJobCommand {
        url: b"https://example.invalid/update.mar".to_vec(),
        save_path: b"/tmp/update.mar".to_vec(),
        monitor,
    }
}

#[test]
fn lifecycle_start_then_cancel_reaches_terminal_state() {
    let mut engine = FakeEngine::new();

    // Start a job with no monitoring.
    let (resp, spawn) = run_start(&mut engine, start_command(None));
    let success = resp.unwrap();
    assert!(spawn.is_none());
    assert!(engine.contains_job(&success.job_id));

    // The fresh job is live and resumed.
    let st = engine.get_status(&success.job_id).unwrap();
    assert_eq!(st.state, JobState::Connecting);

    // Cancel it.
    let r = run_cancel(
        &mut engine,
        CancelJobCommand {
            job_id: success.job_id,
        },
    );
    assert_eq!(r, Ok(CancelJobSuccess));

    // A final status read reflects a terminal state.
    let st = engine.get_status(&success.job_id).unwrap();
    assert_eq!(st.state, JobState::Cancelled);
    assert!(!matches!(
        st.state,
        JobState::Connecting | JobState::Transferring | JobState::TransientError
    ));
}

#[test]
fn cancel_of_unregistered_id_reports_not_found() {
    let mut engine = FakeEngine::new();
    let r = run_cancel(
        &mut engine,
        CancelJobCommand {
            job_id: JobId { hi: 7, lo: 9 },
        },
    );
    assert_eq!(r, Err(Failure::EngineError(EngineError::NotFound)));
}

#[test]
fn start_with_monitor_requests_one_bridge() {
    let mut engine = FakeEngine::new();
    let monitor = MonitorConfig {
        channel_name: b"00112233445566778899aabbccddeeff".to_vec(),
        interval_ms: 100,
    };
    let (resp, spawn) = run_start(&mut engine, start_command(Some(monitor)));
    let success = resp.unwrap();
    let spawn = spawn.unwrap();
    assert_eq!(spawn.job_id, success.job_id);
    assert_eq!(
        spawn.monitor.channel_name,
        b"00112233445566778899aabbccddeeff".to_vec()
    );
    assert_eq!(spawn.monitor.interval_ms, 100);
}

#[test]
fn monitor_of_existing_job_succeeds() {
    let mut engine = FakeEngine::new();
    let (resp, _) = run_start(&mut engine, start_command(None));
    let job_id = resp.unwrap().job_id;

    let (r, spawn) = run_monitor(
        &engine,
        MonitorJobCommand {
            job_id,
            monitor: Some(MonitorConfig {
                channel_name: b"feed".to_vec(),
                interval_ms: 50,
            }),
        },
    );
    assert_eq!(r, Ok(MonitorJobSuccess));
    assert_eq!(spawn.unwrap().job_id, job_id);
}

#[test]
fn monitor_of_unknown_job_reports_not_found() {
    let engine = FakeEngine::new();
    let (r, spawn) = run_monitor(
        &engine,
        MonitorJobCommand {
            job_id: JobId { hi: 0, lo: 42 },
            monitor: None,
        },
    );
    assert_eq!(r, Err(Failure::EngineError(EngineError::NotFound)));
    assert!(spawn.is_none());
}

#[test]
fn dispatcher_answers_start_over_the_wire() {
    let mut engine = FakeEngine::new();
    let request = encode_command(&Command::StartJob(start_command(None))).unwrap();
    let (reply, spawn) = handle_request(&mut engine, &request).unwrap();
    assert!(reply.len() <= MAX_RESPONSE);
    assert!(spawn.is_none());
    let resp = decode_start_response(&reply).unwrap();
    let success = resp.unwrap();
    assert!(engine.contains_job(&success.job_id));
}

#[test]
fn dispatcher_answers_cancel_over_the_wire() {
    let mut engine = FakeEngine::new();
    let request = encode_command(&Command::StartJob(start_command(None))).unwrap();
    let (reply, _) = handle_request(&mut engine, &request).unwrap();
    let job_id = decode_start_response(&reply).unwrap().unwrap().job_id;

    let request = encode_command(&Command::CancelJob(CancelJobCommand { job_id })).unwrap();
    let (reply, spawn) = handle_request(&mut engine, &request).unwrap();
    assert!(spawn.is_none());
    assert_eq!(decode_cancel_response(&reply).unwrap(), Ok(CancelJobSuccess));

    // Cancelling again still names a job, so it succeeds again; an unknown
    // identifier does not.
    let request = encode_command(&Command::CancelJob(CancelJobCommand {
        job_id: JobId { hi: 1, lo: 1 },
    }))
    .unwrap();
    let (reply, _) = handle_request(&mut engine, &request).unwrap();
    assert_eq!(
        decode_cancel_response(&reply).unwrap(),
        Err(Failure::EngineError(EngineError::NotFound))
    );
}

#[test]
fn dispatcher_answers_monitor_over_the_wire() {
    let mut engine = FakeEngine::new();
    let request = encode_command(&Command::StartJob(start_command(None))).unwrap();
    let (reply, _) = handle_request(&mut engine, &request).unwrap();
    let job_id = decode_start_response(&reply).unwrap().unwrap().job_id;

    let request = encode_command(&Command::MonitorJob(MonitorJobCommand {
        job_id,
        monitor: Some(MonitorConfig {
            channel_name: b"cafe".to_vec(),
            interval_ms: 10,
        }),
    }))
    .unwrap();
    let (reply, spawn) = handle_request(&mut engine, &request).unwrap();
    assert_eq!(decode_monitor_response(&reply).unwrap(), Ok(MonitorJobSuccess));
    assert_eq!(spawn.unwrap().job_id, job_id);
}

#[test]
fn dispatcher_aborts_on_undecodable_command() {
    let mut engine = FakeEngine::new();
    assert!(matches!(
        handle_request(&mut engine, &[99]),
        Err(DecodingError::UnknownTag)
    ));
    assert!(matches!(
        handle_request(&mut engine, &[]),
        Err(DecodingError::Truncated)
    ));
    assert_eq!(engine.jobs.len(), 0);
}

use bitstask::codec::{
    decode_cancel_response, decode_command, decode_monitor_response, decode_start_response,
    decode_status, encode_cancel_response, encode_command, encode_monitor_response,
    encode_start_response, encode_status, TAG_CANCEL_JOB, TAG_MONITOR_JOB, TAG_START_JOB,
};
use bitstask::protocol::{
    CancelJobCommand, CancelJobSuccess, Command, DecodingError, EncodingError, EngineError,
    Failure, JobError, JobId, JobProgress, JobState, JobStatus, MonitorConfig, MonitorJobCommand,
    MonitorJobSuccess, StartJobCommand, StartJobSuccess, MAX_COMMAND, MAX_RESPONSE,
};

fn sample_id() -> JobId {
    JobId {
        hi: 0x0123_4567_89ab_cdef,
        lo: 0xfedc_ba98_7654_3210,
    }
}

fn assert_commands_equal(a: &Command, b: &Command) {
    // The codec is deterministic, so byte equality decides value equality.
    let ea = encode_command(a).unwrap();
    let eb = encode_command(b).unwrap();
    assert_eq!(ea, eb);
}

#[test]
fn start_job_round_trip_with_monitor() {
    let cmd = Command::StartJob(StartJobCommand {
        url: b"https://example.invalid/big.bin".to_vec(),
        save_path: b"/tmp/big.bin".to_vec(),
        monitor: Some(MonitorConfig {
            channel_name: b"0123456789abcdef0123456789abcdef".to_vec(),
            interval_ms: 100,
        }),
    });
    let bytes = encode_command(&cmd).unwrap();
    assert!(bytes.len() <= MAX_COMMAND);
    let back = decode_command(&bytes).unwrap();
    assert_commands_equal(&cmd, &back);
    match back {
        Command::StartJob(sc) => {
            assert_eq!(sc.url, b"https://example.invalid/big.bin".to_vec());
            assert_eq!(sc.save_path, b"/tmp/big.bin".to_vec());
            let m = sc.monitor.unwrap();
            assert_eq!(m.channel_name.len(), 32);
            assert_eq!(m.interval_ms, 100);
        }
        _ => panic!("wrong variant"),
    }
}

#[test]
fn start_job_round_trip_without_monitor() {
    let cmd = Command::StartJob(StartJobCommand {
        url: b"https://example.invalid/a".to_vec(),
        save_path: b"/tmp/a".to_vec(),
        monitor: None,
    });
    let bytes = encode_command(&cmd).unwrap();
    let back = decode_command(&bytes).unwrap();
    assert_commands_equal(&cmd, &back);
}

#[test]
fn monitor_job_round_trip() {
    let cmd = Command::MonitorJob(MonitorJobCommand {
        job_id: sample_id(),
        monitor: Some(MonitorConfig {
            channel_name: b"cafe".to_vec(),
            interval_ms: 250,
        }),
    });
    let bytes = encode_command(&cmd).unwrap();
    let back = decode_command(&bytes).unwrap();
    assert_commands_equal(&cmd, &back);
    match back {
        Command::MonitorJob(mc) => assert_eq!(mc.job_id, sample_id()),
        _ => panic!("wrong variant"),
    }
}

#[test]
fn cancel_job_exact_bytes() {
    let cmd = Command::CancelJob(CancelJobCommand {
        job_id: JobId { hi: 1, lo: 2 },
    });
    let bytes = encode_command(&cmd).unwrap();
    let mut expected = vec![TAG_CANCEL_JOB];
    expected.extend_from_slice(&[1, 0, 0, 0, 0, 0, 0, 0]); // hi, little endian
    expected.extend_from_slice(&[2, 0, 0, 0, 0, 0, 0, 0]); // lo, little endian
    assert_eq!(bytes, expected);
    let back = decode_command(&bytes).unwrap();
    match back {
        Command::CancelJob(cc) => assert_eq!(cc.job_id, JobId { hi: 1, lo: 2 }),
        _ => panic!("wrong variant"),
    }
}

#[test]
fn start_job_exact_bytes() {
    let cmd = Command::StartJob(StartJobCommand {
        url: b"ab".to_vec(),
        save_path: b"c".to_vec(),
        monitor: None,
    });
    let bytes = encode_command(&cmd).unwrap();
    let expected = vec![
        TAG_START_JOB,
        2, 0, 0, 0, b'a', b'b', // url, length prefixed
        1, 0, 0, 0, b'c', // save path, length prefixed
        0, // no monitor
    ];
    assert_eq!(bytes, expected);
}

#[test]
fn decoded_commands_reencode_to_the_same_bytes() {
    let cmd = Command::MonitorJob(MonitorJobCommand {
        job_id: sample_id(),
        monitor: Some(MonitorConfig {
            channel_name: b"00ff".to_vec(),
            interval_ms: 7,
        }),
    });
    let bytes = encode_command(&cmd).unwrap();
    let back = decode_command(&bytes).unwrap();
    assert_eq!(encode_command(&back).unwrap(), bytes);
}

#[test]
fn encode_rejects_oversized_command() {
    let cmd = Command::StartJob(StartJobCommand {
        url: vec![b'x'; MAX_COMMAND + 1],
        save_path: b"/tmp/a".to_vec(),
        monitor: None,
    });
    assert_eq!(encode_command(&cmd), Err(EncodingError::TooLong));

    // Together over the cap even though each field is under it.
    let cmd = Command::StartJob(StartJobCommand {
        url: vec![b'x'; MAX_COMMAND - 10],
        save_path: vec![b'y'; 20],
        monitor: None,
    });
    assert_eq!(encode_command(&cmd), Err(EncodingError::TooLong));
}

#[test]
fn decode_rejects_empty_and_truncated() {
    assert!(matches!(decode_command(&[]), Err(DecodingError::Truncated)));
    assert!(matches!(
        decode_command(&[TAG_START_JOB, 5, 0, 0, 0, b'a']),
        Err(DecodingError::Truncated)
    ));
    assert!(matches!(
        decode_command(&[TAG_MONITOR_JOB, 1, 2, 3]),
        Err(DecodingError::Truncated)
    ));
}

#[test]
fn decode_rejects_unknown_tag() {
    assert!(matches!(decode_command(&[9]), Err(DecodingError::UnknownTag)));
    assert!(matches!(decode_command(&[0]), Err(DecodingError::UnknownTag)));
}

#[test]
fn decode_rejects_bad_presence_byte() {
    let cmd = Command::StartJob(StartJobCommand {
        url: b"a".to_vec(),
        save_path: b"b".to_vec(),
        monitor: None,
    });
    let mut bytes = encode_command(&cmd).unwrap();
    let last = bytes.len() - 1;
    bytes[last] = 7; // presence byte of the monitor field
    assert!(matches!(decode_command(&bytes), Err(DecodingError::Malformed)));
}

#[test]
fn decode_rejects_trailing_data() {
    let cmd = Command::CancelJob(CancelJobCommand {
        job_id: JobId { hi: 0, lo: 0 },
    });
    let mut bytes = encode_command(&cmd).unwrap();
    bytes.push(0);
    assert!(matches!(decode_command(&bytes), Err(DecodingError::TrailingData)));
}

#[test]
fn start_response_round_trip() {
    let ok: Result<StartJobSuccess, Failure> = Ok(StartJobSuccess {
        job_id: sample_id(),
    });
    let bytes = encode_start_response(&ok);
    assert!(bytes.len() <= MAX_RESPONSE);
    assert_eq!(decode_start_response(&bytes).unwrap(), ok);

    let err: Result<StartJobSuccess, Failure> =
        Err(Failure::EngineError(EngineError::NotFound));
    let bytes = encode_start_response(&err);
    assert!(bytes.len() <= MAX_RESPONSE);
    assert_eq!(decode_start_response(&bytes).unwrap(), err);
}

#[test]
fn monitor_response_round_trip() {
    let ok: Result<MonitorJobSuccess, Failure> = Ok(MonitorJobSuccess);
    let bytes = encode_monitor_response(&ok);
    assert_eq!(bytes, vec![0]);
    assert_eq!(decode_monitor_response(&bytes).unwrap(), ok);

    let err: Result<MonitorJobSuccess, Failure> = Err(Failure::EngineError(
        EngineError::Status {
            context: 5,
            code: 0x8020_0010,
        },
    ));
    let bytes = encode_monitor_response(&err);
    assert!(bytes.len() <= MAX_RESPONSE);
    assert_eq!(decode_monitor_response(&bytes).unwrap(), err);
}

#[test]
fn cancel_response_round_trip() {
    let ok: Result<CancelJobSuccess, Failure> = Ok(CancelJobSuccess);
    let bytes = encode_cancel_response(&ok);
    assert_eq!(bytes, vec![0]);
    assert_eq!(decode_cancel_response(&bytes).unwrap(), ok);

    let err: Result<CancelJobSuccess, Failure> =
        Err(Failure::EngineError(EngineError::NotFound));
    let bytes = encode_cancel_response(&err);
    assert_eq!(bytes, vec![1, 0]);
    assert_eq!(decode_cancel_response(&bytes).unwrap(), err);
}

#[test]
fn every_engine_failure_fits_the_response_cap() {
    let samples = [
        EngineError::NotFound,
        EngineError::Status { context: 0, code: 0 },
        EngineError::Status {
            context: u32::MAX,
            code: u32::MAX,
        },
        EngineError::Status {
            context: 7,
            code: 0x8020_0024,
        },
    ];
    for e in samples {
        let f = Failure::EngineError(e);
        assert!(encode_start_response(&Err(f)).len() <= MAX_RESPONSE);
        assert!(encode_monitor_response(&Err(f)).len() <= MAX_RESPONSE);
        assert!(encode_cancel_response(&Err(f)).len() <= MAX_RESPONSE);
    }
}

#[test]
fn status_round_trip_without_error() {
    let st = JobStatus {
        state: JobState::Transferring,
        progress: JobProgress {
            bytes_total: 1 << 40,
            bytes_transferred: 123_456_789,
            files_total: 3,
            files_transferred: 1,
        },
        error_count: 0,
        error: None,
    };
    let bytes = encode_status(&st);
    assert_eq!(bytes.len(), 30);
    assert_eq!(decode_status(&bytes).unwrap(), st);
}

#[test]
fn status_round_trip_with_error() {
    let st = JobStatus {
        state: JobState::TransientError,
        progress: JobProgress {
            bytes_total: 10,
            bytes_transferred: 4,
            files_total: 1,
            files_transferred: 0,
        },
        error_count: 2,
        error: Some(JobError {
            context: 1,
            code: 0x8020_0010,
        }),
    };
    let bytes = encode_status(&st);
    assert_eq!(bytes.len(), 38);
    assert_eq!(decode_status(&bytes).unwrap(), st);
}

#[test]
fn status_decode_rejects_unknown_state_tag() {
    let st = JobStatus {
        state: JobState::Queued,
        progress: JobProgress {
            bytes_total: 0,
            bytes_transferred: 0,
            files_total: 0,
            files_transferred: 0,
        },
        error_count: 0,
        error: None,
    };
    let mut bytes = encode_status(&st);
    bytes[0] = 200;
    assert_eq!(decode_status(&bytes), Err(DecodingError::UnknownTag));
}

#[test]
fn status_decode_rejects_truncation() {
    let st = JobStatus {
        state: JobState::Connecting,
        progress: JobProgress {
            bytes_total: 0,
            bytes_transferred: 0,
            files_total: 0,
            files_transferred: 0,
        },
        error_count: 0,
        error: None,
    };
    let bytes = encode_status(&st);
    assert_eq!(
        decode_status(&bytes[..bytes.len() - 1]),
        Err(DecodingError::Truncated)
    );
}

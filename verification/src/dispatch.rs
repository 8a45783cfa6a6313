//! Worker-side command dispatcher.
//!
//! One request arrives, is decoded, dispatched to the handler its tag
//! selects, and answered with the bounded reply of that command's response
//! pair.  A decode failure aborts the dispatch loop instead of producing a
//! reply, so it surfaces here as an error for the loop runner.  Spawning a
//! monitor bridge is a side effect the loop runner performs, so the
//! handlers return the spawn request as data.

use vstd::prelude::*;
use vstd::slice::slice_to_vec;
use crate::codec::{
    decode_command, encode_cancel_response, encode_monitor_response, encode_start_response,
    spec_decode_command, spec_encode_cancel_response, spec_encode_monitor_response,
    spec_encode_start_response,
};
use crate::engine::{EngineJobV, FakeEngine, FileTransferV, zero_progress};
use crate::protocol::{
    CancelJobCommand, CancelJobSuccess, Command, CommandV, DecodingError, EngineError, Failure,
    JobId, JobState, MonitorConfig, MonitorJobCommand, MonitorJobSuccess, StartJobCommand,
    StartJobSuccess, MAX_RESPONSE,
};

verus! {

/// A handler asks the loop runner to spawn one monitor bridge for a job.
#[derive(Clone, Debug)]
pub struct BridgeSpawn {
    pub job_id: JobId,
    pub monitor: MonitorConfig,
}

/// The job a fresh `StartJob` leaves in the engine: one file transfer,
/// named after its source, already resumed.
pub open spec fn started_job(id: JobId, url: Seq<u8>, save_path: Seq<u8>) -> EngineJobV {
    EngineJobV {
        id,
        display_name: url,
        description: Seq::empty(),
        files: seq![FileTransferV { url, save_path }],
        priority: 0,
        state: JobState::Connecting,
        progress: zero_progress(),
        error_count: 0,
        last_error: None,
        notify_transferred: false,
        notify_error: false,
        notify_modification: false,
        polls_until_transferred: None,
    }
}

/// How `StartJob` changes the engine: one new started job under the fresh
/// identifier, everything else untouched.
pub open spec fn start_applied(
    pre: FakeEngine,
    post: FakeEngine,
    url: Seq<u8>,
    save_path: Seq<u8>,
) -> bool {
    &&& post.wf()
    &&& post.next_ordinal == pre.next_ordinal + 1
    &&& post.has_job(pre.fresh_id())
    &&& post.job_at(pre.fresh_id())@ == started_job(pre.fresh_id(), url, save_path)
    &&& forall|jid: JobId|
        jid != pre.fresh_id() ==> post.has_job(jid) == pre.has_job(jid)
    &&& forall|jid: JobId|
        jid != pre.fresh_id() && pre.has_job(jid) ==> post.job_at(jid) == pre.job_at(jid)
}

/// How `CancelJob` changes the engine: the named job, if any, is cancelled,
/// everything else untouched.
pub open spec fn cancel_applied(pre: FakeEngine, post: FakeEngine, id: JobId) -> bool {
    if pre.has_job(id) {
        &&& post.wf()
        &&& post.next_ordinal == pre.next_ordinal
        &&& forall|jid: JobId| post.has_job(jid) == pre.has_job(jid)
        &&& forall|jid: JobId|
            jid != id && pre.has_job(jid) ==> post.job_at(jid) == pre.job_at(jid)
        &&& post.job_at(id)@ == (EngineJobV { state: JobState::Cancelled, ..pre.job_at(id)@ })
    } else {
        post == pre
    }
}

/// Handle `StartJob`: create the job, add its one file transfer, resume it,
/// and, when monitoring was asked for, request one bridge for the new job.
/// Against this engine the command always succeeds.
pub fn run_start(engine: &mut FakeEngine, cmd: StartJobCommand) -> (r: (
    Result<StartJobSuccess, Failure>,
    Option<BridgeSpawn>,
))
    requires
        old(engine).wf(),
        old(engine).next_ordinal < u64::MAX,
    ensures
        r.0 == Ok::<_, Failure>(StartJobSuccess { job_id: old(engine).fresh_id() }),
        start_applied(*old(engine), *final(engine), cmd.url@, cmd.save_path@),
        r.1 is Some <==> cmd.monitor is Some,
        cmd.monitor matches Some(m) ==> r.1 matches Some(b) && b.job_id == old(engine).fresh_id()
            && b.monitor@ == m@,
{
    let StartJobCommand { url, save_path, monitor } = cmd;
    let display_name = slice_to_vec(url.as_slice());
    let id = engine.create_job(display_name);
    match engine.add_file(&id, url, save_path) {
        Ok(()) => {},
        Err(_) => {
            proof {
                assert(false);
            }
        },
    }
    match engine.resume(&id) {
        Ok(()) => {},
        Err(_) => {
            proof {
                assert(false);
            }
        },
    }
    proof {
        assert(engine.job_at(id)@ =~= started_job(id, cmd.url@, cmd.save_path@));
    }
    let spawn = match monitor {
        Some(m) => Some(BridgeSpawn { job_id: id, monitor: m }),
        None => None,
    };
    (Ok(StartJobSuccess { job_id: id }), spawn)
}

/// Handle `MonitorJob`: re-acquire the job by identifier and, when
/// monitoring was asked for, request one bridge for it.  Fails exactly when
/// no such job exists.
pub fn run_monitor(engine: &FakeEngine, cmd: MonitorJobCommand) -> (r: (
    Result<MonitorJobSuccess, Failure>,
    Option<BridgeSpawn>,
))
    requires
        engine.wf(),
    ensures
        engine.has_job(cmd.job_id) ==> r.0 == Ok::<_, Failure>(MonitorJobSuccess) && (r.1 is Some
            <==> cmd.monitor is Some) && (cmd.monitor matches Some(m) ==> r.1 matches Some(b)
            && b.job_id == cmd.job_id && b.monitor@ == m@),
        !engine.has_job(cmd.job_id) ==> r.0 == Err::<MonitorJobSuccess, _>(
            Failure::EngineError(EngineError::NotFound),
        ) && r.1 is None,
{
    let MonitorJobCommand { job_id, monitor } = cmd;
    if !engine.contains_job(&job_id) {
        return (Err(Failure::EngineError(EngineError::NotFound)), None);
    }
    let spawn = match monitor {
        Some(m) => Some(BridgeSpawn { job_id, monitor: m }),
        None => None,
    };
    (Ok(MonitorJobSuccess), spawn)
}

/// Handle `CancelJob`: cancel the named job.  Fails exactly when no such
/// job exists; afterwards the job's state is out of the active set.
pub fn run_cancel(engine: &mut FakeEngine, cmd: CancelJobCommand) -> (r: Result<
    CancelJobSuccess,
    Failure,
>)
    requires
        old(engine).wf(),
    ensures
        final(engine).wf(),
        cancel_applied(*old(engine), *final(engine), cmd.job_id),
        r is Ok <==> old(engine).has_job(cmd.job_id),
        r is Ok ==> r == Ok::<_, Failure>(CancelJobSuccess) && final(engine).job_at(
            cmd.job_id,
        )@.state == JobState::Cancelled,
        !old(engine).has_job(cmd.job_id) ==> r == Err::<CancelJobSuccess, _>(
            Failure::EngineError(EngineError::NotFound),
        ),
{
    match engine.cancel(&cmd.job_id) {
        Ok(()) => Ok(CancelJobSuccess),
        Err(e) => Err(Failure::EngineError(e)),
    }
}

/// One turn of the dispatcher: decode the request, run the handler its tag
/// selects, and encode the reply of that command's response pair.  A decode
/// failure is handed back instead, and the engine is then untouched: the
/// dispatch loop aborts rather than answer garbage.
pub fn handle_request(engine: &mut FakeEngine, request: &[u8]) -> (r: Result<
    (Vec<u8>, Option<BridgeSpawn>),
    DecodingError,
>)
    requires
        old(engine).wf(),
        old(engine).next_ordinal < u64::MAX,
    ensures
        final(engine).wf(),
        r matches Ok(p) ==> p.0@.len() <= MAX_RESPONSE,
        match spec_decode_command(request@) {
            Err(e) => r == Err::<(Vec<u8>, Option<BridgeSpawn>), _>(e) && *final(engine) == *old(
                engine,
            ),
            Ok(c) => match c {
                CommandV::StartJob { url, save_path, monitor } => {
                    &&& r matches Ok(p)
                    &&& p.0@ == spec_encode_start_response(
                        Ok(StartJobSuccess { job_id: old(engine).fresh_id() }),
                    )
                    &&& start_applied(*old(engine), *final(engine), url, save_path)
                    &&& (p.1 is Some <==> monitor is Some)
                    &&& (monitor matches Some(m) ==> p.1 matches Some(b) && b.job_id == old(
                        engine,
                    ).fresh_id() && b.monitor@ == m)
                },
                CommandV::MonitorJob { job_id, monitor } => {
                    &&& r matches Ok(p)
                    &&& *final(engine) == *old(engine)
                    &&& (old(engine).has_job(job_id) ==> p.0@ == spec_encode_monitor_response(
                        Ok(MonitorJobSuccess),
                    ) && (p.1 is Some <==> monitor is Some) && (monitor matches Some(m)
                        ==> p.1 matches Some(b) && b.job_id == job_id && b.monitor@ == m))
                    &&& (!old(engine).has_job(job_id) ==> p.0@ == spec_encode_monitor_response(
                        Err(Failure::EngineError(EngineError::NotFound)),
                    ) && p.1 is None)
                },
                CommandV::CancelJob { job_id } => {
                    &&& r matches Ok(p)
                    &&& cancel_applied(*old(engine), *final(engine), job_id)
                    &&& p.1 is None
                    &&& (old(engine).has_job(job_id) ==> p.0@ == spec_encode_cancel_response(
                        Ok(CancelJobSuccess),
                    ))
                    &&& (!old(engine).has_job(job_id) ==> p.0@ == spec_encode_cancel_response(
                        Err(Failure::EngineError(EngineError::NotFound)),
                    ))
                },
            },
        },
{
    match decode_command(request) {
        Err(e) => Err(e),
        Ok(Command::StartJob(cmd)) => {
            let (resp, spawn) = run_start(engine, cmd);
            let reply = encode_start_response(&resp);
            Ok((reply, spawn))
        },
        Ok(Command::MonitorJob(cmd)) => {
            let (resp, spawn) = run_monitor(engine, cmd);
            let reply = encode_monitor_response(&resp);
            Ok((reply, spawn))
        },
        Ok(Command::CancelJob(cmd)) => {
            let resp = run_cancel(engine, cmd);
            let reply = encode_cancel_response(&resp);
            Ok((reply, None))
        },
    }
}

} // verus!

//! Monitor bridge.
//!
//! One bridge runs per monitored job.  It registers for the engine's
//! "transferred" event, then loops: read the job's status, push its
//! encoding over the monitor channel, and wait for the poll interval or
//! the event, whichever comes first.  Once the observed state leaves the
//! active set it pushes that final status and exits.
//!
//! Here the loop is verified against the in-memory engine.  Real time does
//! not exist in the model, so the wait is folded into the engine's script:
//! a job scheduled to become transferred after `k` polls stands for the
//! callback firing during the `k`-th wait.  The responsiveness law at the
//! bottom says the bridge then pushes the terminal status on its very next
//! read — within one poll cycle, never after an extra idle interval.

use vstd::prelude::*;
use crate::codec::{decode_status, encode_status, spec_decode_status, spec_encode_status};
use crate::engine::{
    spec_poll_job, spec_status_of, EngineJobV, FakeEngine,
};
use crate::protocol::{
    is_active, state_is_active, DecodingError, EngineError, Failure, JobId, JobProgress, JobState,
    JobStatus,
};

verus! {

/// The job as the bridge first sees it: the one in the engine, with the
/// transferred callback freshly registered.
pub open spec fn bridge_job0(pre: FakeEngine, id: JobId) -> EngineJobV {
    EngineJobV {
        notify_transferred: true,
        notify_error: false,
        notify_modification: false,
        ..pre.job_at(id)@
    }
}

/// The job after `n` status polls.
pub open spec fn spec_poll_job_n(j: EngineJobV, n: nat) -> EngineJobV
    decreases n,
{
    if n == 0 {
        j
    } else {
        spec_poll_job(spec_poll_job_n(j, (n - 1) as nat))
    }
}

/// Shape of a finished or abandoned bridge run that made `n` pushes: every
/// status before the last was active; a finished run ends on the first
/// inactive status, an abandoned one ran out of polls with the job still
/// active.
pub open spec fn bridge_outcome(j0: EngineJobV, n: int, finished: bool, max_polls: u32) -> bool {
    &&& 0 <= n <= max_polls
    &&& (finished ==> n >= 1 && !is_active(spec_poll_job_n(j0, n as nat).state) && forall|m: int|
        1 <= m < n ==> is_active((#[trigger] spec_poll_job_n(j0, m as nat)).state))
    &&& (!finished ==> n == max_polls && forall|m: int|
        1 <= m <= n ==> is_active((#[trigger] spec_poll_job_n(j0, m as nat)).state))
}

/// What the transferred callback does when the engine fires it on its own
/// thread: complete the job, so the next poll observes a terminal state.
/// The signal to the waiting bridge is the poll that follows.
pub fn on_transferred(engine: &mut FakeEngine, job_id: &JobId) -> (r: Result<(), EngineError>)
    requires
        old(engine).wf(),
    ensures
        final(engine).wf(),
        final(engine).next_ordinal == old(engine).next_ordinal,
        forall|jid: JobId| final(engine).has_job(jid) == old(engine).has_job(jid),
        forall|jid: JobId|
            jid != *job_id && old(engine).has_job(jid) ==> final(engine).job_at(jid) == old(
                engine,
            ).job_at(jid),
        old(engine).has_job(*job_id) ==> r is Ok && final(engine).job_at(*job_id)@ == (EngineJobV {
            state: JobState::Acknowledged,
            ..old(engine).job_at(*job_id)@
        }) && !is_active(final(engine).job_at(*job_id)@.state),
        !old(engine).has_job(*job_id) ==> r == Err::<(), _>(EngineError::NotFound)
            && *final(engine) == *old(engine),
{
    engine.complete(job_id)
}

/// One step of the requester's monitor loop: decode a pushed message and
/// decide whether to keep reading.  Reading continues exactly while the
/// decoded state is active.
pub fn monitor_step(message: &[u8]) -> (r: Result<(JobStatus, bool), DecodingError>)
    ensures
        match r {
            Ok(p) => spec_decode_status(message@) == Ok::<_, DecodingError>(p.0) && p.1
                == is_active(p.0.state),
            Err(e) => spec_decode_status(message@) == Err::<JobStatus, _>(e),
        },
{
    match decode_status(message) {
        Ok(st) => {
            let keep_reading = state_is_active(st.state);
            Ok((st, keep_reading))
        },
        Err(e) => Err(e),
    }
}

/// Run one bridge to completion against the in-memory engine, pushing at
/// most `max_polls` status messages onto the monitor channel.  Returns
/// whether a terminal status was pushed, or the engine failure when the job
/// does not exist.  Every pushed message is exactly the encoding of the
/// job's status at that poll.
pub fn run_bridge(
    engine: &mut FakeEngine,
    job_id: &JobId,
    channel: &mut Vec<Vec<u8>>,
    max_polls: u32,
) -> (r: Result<bool, Failure>)
    requires
        old(engine).wf(),
    ensures
        final(engine).wf(),
        final(engine).next_ordinal == old(engine).next_ordinal,
        forall|jid: JobId| final(engine).has_job(jid) == old(engine).has_job(jid),
        forall|jid: JobId|
            jid != *job_id && old(engine).has_job(jid) ==> final(engine).job_at(jid) == old(
                engine,
            ).job_at(jid),
        r is Err <==> !old(engine).has_job(*job_id),
        r is Err ==> r == Err::<bool, _>(Failure::EngineError(EngineError::NotFound))
            && *final(engine) == *old(engine) && *final(channel) == *old(channel),
        r matches Ok(finished) ==> ({
            let j0 = bridge_job0(*old(engine), *job_id);
            let base = old(channel)@.len() as int;
            let n = final(channel)@.len() - base;
            &&& bridge_outcome(j0, n, finished, max_polls)
            &&& final(channel)@.take(base) == old(channel)@
            &&& forall|i: int|
                0 <= i < n ==> (#[trigger] final(channel)@[base + i])@ == spec_encode_status(
                    spec_status_of(spec_poll_job_n(j0, (i + 1) as nat)),
                )
            &&& final(engine).job_at(*job_id)@ == spec_poll_job_n(j0, n as nat)
        }),
{
    match engine.register_callbacks(job_id, true, false, false) {
        Err(e) => {
            return Err(Failure::EngineError(e));
        },
        Ok(()) => {},
    }
    let ghost e0 = *engine;
    let ghost j0 = e0.job_at(*job_id)@;
    let ghost c0 = channel@;
    let mut polls: u32 = 0;
    let mut finished: bool = false;
    while polls < max_polls && !finished
        invariant
            engine.wf(),
            e0.wf(),
            e0.has_job(*job_id),
            engine.next_ordinal == e0.next_ordinal,
            forall|jid: JobId| engine.has_job(jid) == e0.has_job(jid),
            forall|jid: JobId|
                jid != *job_id && e0.has_job(jid) ==> engine.job_at(jid) == e0.job_at(jid),
            engine.job_at(*job_id)@ == spec_poll_job_n(j0, polls as nat),
            polls <= max_polls,
            channel@.len() == c0.len() + polls,
            channel@.take(c0.len() as int) == c0,
            forall|i: int|
                0 <= i < polls ==> (#[trigger] channel@[c0.len() + i])@ == spec_encode_status(
                    spec_status_of(spec_poll_job_n(j0, (i + 1) as nat)),
                ),
            finished ==> polls >= 1 && !is_active(spec_poll_job_n(j0, polls as nat).state),
            forall|m: int|
                1 <= m < polls ==> is_active((#[trigger] spec_poll_job_n(j0, m as nat)).state),
            !finished && polls >= 1 ==> is_active(spec_poll_job_n(j0, polls as nat).state),
        decreases max_polls - polls,
    {
        let st = match engine.get_status(job_id) {
            Ok(st) => st,
            Err(_) => {
                proof {
                    assert(false);
                }
                JobStatus {
                    state: JobState::Queued,
                    progress: JobProgress {
                        bytes_total: 0,
                        bytes_transferred: 0,
                        files_total: 0,
                        files_transferred: 0,
                    },
                    error_count: 0,
                    error: None,
                }
            },
        };
        let msg = encode_status(&st);
        channel.push(msg);
        proof {
            assert(spec_poll_job_n(j0, (polls + 1) as nat) == spec_poll_job(
                spec_poll_job_n(j0, polls as nat),
            ));
            assert(channel@.take(c0.len() as int) =~= c0);
        }
        polls = polls + 1;
        if !state_is_active(st.state) {
            finished = true;
        }
    }
    Ok(finished)
}

/// Responsiveness of the bridge: when the transferred event is scripted to
/// fire after `k` polls on a job that starts active, a bridge allowed at
/// least `k + 1` polls finishes with exactly `k + 1` pushes.  The terminal
/// status goes out on the poll right after the event — within one poll
/// cycle of the callback, never after a full extra idle interval.
pub proof fn lemma_bridge_responsiveness(
    j0: EngineJobV,
    k: u32,
    n: int,
    finished: bool,
    max_polls: u32,
)
    requires
        j0.polls_until_transferred == Some(k),
        is_active(j0.state),
        (k as int) < max_polls,
        bridge_outcome(j0, n, finished, max_polls),
    ensures
        finished,
        n == k + 1,
        !is_active(spec_poll_job_n(j0, n as nat).state),
        spec_poll_job_n(j0, n as nat).state == JobState::Transferred,
{
    lemma_poll_script(j0, k, (k + 1) as nat);
    assert(spec_poll_job_n(j0, (k + 1) as nat).state == JobState::Transferred);
    if !finished {
        assert(is_active(spec_poll_job_n(j0, (k + 1) as nat).state));
        assert(false);
    }
    if n <= k {
        lemma_poll_script(j0, k, n as nat);
        assert(is_active(spec_poll_job_n(j0, n as nat).state));
        assert(false);
    }
    if n > k + 1 {
        assert(is_active(spec_poll_job_n(j0, (k + 1) as nat).state));
        assert(false);
    }
}

/// What the script does to a job, poll by poll: it counts down for `k`
/// polls and makes the job transferred on the next one.
pub proof fn lemma_poll_script(j: EngineJobV, k: u32, m: nat)
    requires
        j.polls_until_transferred == Some(k),
        m <= k + 1,
    ensures
        m <= k ==> spec_poll_job_n(j, m) == (EngineJobV {
            polls_until_transferred: Some((k - m) as u32),
            ..j
        }),
        m == k + 1 ==> spec_poll_job_n(j, m) == (EngineJobV {
            state: JobState::Transferred,
            polls_until_transferred: None,
            ..j
        }),
    decreases m,
{
    if m == 0 {
        assert(spec_poll_job_n(j, 0) == j);
        assert(j == (EngineJobV { polls_until_transferred: Some((k - 0) as u32), ..j }));
    } else {
        lemma_poll_script(j, k, (m - 1) as nat);
        assert(spec_poll_job_n(j, m) == spec_poll_job(spec_poll_job_n(j, (m - 1) as nat)));
    }
}

} // verus!

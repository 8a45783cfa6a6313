//! Deterministic, bounded, typed codec for the protocol envelopes.
//!
//! Every envelope is a tag byte followed by fixed-width little-endian
//! numeric fields and length-prefixed byte strings.  Each command type
//! statically determines the success/failure pair its reply decodes as, so
//! the three response kinds have three separate codecs rather than one
//! generic envelope.

use vstd::prelude::*;
use vstd::bytes::{
    lemma_auto_spec_u32_to_from_le_bytes, lemma_auto_spec_u64_to_from_le_bytes,
    spec_u32_from_le_bytes, spec_u32_to_le_bytes, spec_u64_from_le_bytes, spec_u64_to_le_bytes,
    u32_from_le_bytes, u32_to_le_bytes, u64_from_le_bytes, u64_to_le_bytes,
};
use vstd::slice::{slice_index_get, slice_subrange, slice_to_vec};
use crate::protocol::{
    Command, CommandV, CancelJobCommand, CancelJobSuccess, DecodingError, EncodingError,
    EngineError, Failure, JobError, JobId, JobProgress, JobState, JobStatus, MonitorConfig,
    MonitorConfigV, MonitorJobCommand, MonitorJobSuccess, StartJobCommand, StartJobSuccess,
    opt_monitor_view, MAX_COMMAND, MAX_RESPONSE,
};

verus! {

/// Tag of an encoded `StartJob` command.
pub const TAG_START_JOB: u8 = 1;

/// Tag of an encoded `MonitorJob` command.
pub const TAG_MONITOR_JOB: u8 = 2;

/// Tag of an encoded `CancelJob` command.
pub const TAG_CANCEL_JOB: u8 = 3;

// ---------------------------------------------------------------------------
// Spec-level encoding
// ---------------------------------------------------------------------------

/// A byte string on the wire: little-endian length, then the bytes.
pub open spec fn enc_bytes(s: Seq<u8>) -> Seq<u8> {
    spec_u32_to_le_bytes(s.len() as u32) + s
}

/// A job identifier on the wire: sixteen bytes, high half first.
pub open spec fn enc_job_id(id: JobId) -> Seq<u8> {
    spec_u64_to_le_bytes(id.hi) + spec_u64_to_le_bytes(id.lo)
}

/// A monitor configuration on the wire.
pub open spec fn enc_monitor(m: MonitorConfigV) -> Seq<u8> {
    enc_bytes(m.channel_name) + spec_u32_to_le_bytes(m.interval_ms)
}

/// An optional monitor configuration: a presence byte, then the value.
pub open spec fn enc_opt_monitor(m: Option<MonitorConfigV>) -> Seq<u8> {
    match m {
        None => seq![0u8],
        Some(c) => seq![1u8] + enc_monitor(c),
    }
}

/// The encoding of a command.
pub open spec fn spec_encode_command(c: CommandV) -> Seq<u8> {
    match c {
        CommandV::StartJob { url, save_path, monitor } => seq![TAG_START_JOB] + enc_bytes(url)
            + enc_bytes(save_path) + enc_opt_monitor(monitor),
        CommandV::MonitorJob { job_id, monitor } => seq![TAG_MONITOR_JOB] + enc_job_id(job_id)
            + enc_opt_monitor(monitor),
        CommandV::CancelJob { job_id } => seq![TAG_CANCEL_JOB] + enc_job_id(job_id),
    }
}

/// Length of the encoding of a command, as a plain formula.
pub open spec fn encoded_command_len(c: CommandV) -> int {
    match c {
        CommandV::StartJob { url, save_path, monitor } => 1 + (4 + url.len()) + (4
            + save_path.len()) + encoded_opt_monitor_len(monitor),
        CommandV::MonitorJob { job_id: _, monitor } => 1 + 16 + encoded_opt_monitor_len(monitor),
        CommandV::CancelJob { job_id: _ } => 17int,
    }
}

/// Length of the encoding of an optional monitor configuration.
pub open spec fn encoded_opt_monitor_len(m: Option<MonitorConfigV>) -> int {
    match m {
        None => 1int,
        Some(c) => 1int + (4 + c.channel_name.len()) + 4,
    }
}

/// The length formula agrees with the encoding.
pub proof fn lemma_encoded_command_len(c: CommandV)
    ensures
        spec_encode_command(c).len() == encoded_command_len(c),
{
    lemma_auto_spec_u32_to_from_le_bytes();
    lemma_auto_spec_u64_to_from_le_bytes();
}

// ---------------------------------------------------------------------------
// Spec-level parsing
// ---------------------------------------------------------------------------

/// Read a little-endian `u32` off the front of the input.
pub open spec fn parse_u32(b: Seq<u8>) -> Result<(u32, Seq<u8>), DecodingError> {
    if b.len() >= 4 {
        Ok((spec_u32_from_le_bytes(b.take(4)), b.skip(4)))
    } else {
        Err(DecodingError::Truncated)
    }
}

/// Read a little-endian `u64` off the front of the input.
pub open spec fn parse_u64(b: Seq<u8>) -> Result<(u64, Seq<u8>), DecodingError> {
    if b.len() >= 8 {
        Ok((spec_u64_from_le_bytes(b.take(8)), b.skip(8)))
    } else {
        Err(DecodingError::Truncated)
    }
}

/// Read a length-prefixed byte string off the front of the input.
pub open spec fn parse_bytes(b: Seq<u8>) -> Result<(Seq<u8>, Seq<u8>), DecodingError> {
    match parse_u32(b) {
        Ok((n, rest)) => if n <= rest.len() {
            Ok((rest.take(n as int), rest.skip(n as int)))
        } else {
            Err(DecodingError::Truncated)
        },
        Err(e) => Err(e),
    }
}

/// Read a job identifier off the front of the input.
pub open spec fn parse_job_id(b: Seq<u8>) -> Result<(JobId, Seq<u8>), DecodingError> {
    match parse_u64(b) {
        Ok((hi, rest)) => match parse_u64(rest) {
            Ok((lo, rest2)) => Ok((JobId { hi, lo }, rest2)),
            Err(e) => Err(e),
        },
        Err(e) => Err(e),
    }
}

/// Read a monitor configuration off the front of the input.
pub open spec fn parse_monitor(b: Seq<u8>) -> Result<(MonitorConfigV, Seq<u8>), DecodingError> {
    match parse_bytes(b) {
        Ok((name, rest)) => match parse_u32(rest) {
            Ok((interval, rest2)) => Ok(
                (MonitorConfigV { channel_name: name, interval_ms: interval }, rest2),
            ),
            Err(e) => Err(e),
        },
        Err(e) => Err(e),
    }
}

/// Read an optional monitor configuration off the front of the input.
pub open spec fn parse_opt_monitor(b: Seq<u8>) -> Result<
    (Option<MonitorConfigV>, Seq<u8>),
    DecodingError,
> {
    if b.len() < 1 {
        Err(DecodingError::Truncated)
    } else if b[0] == 0 {
        Ok((None, b.skip(1)))
    } else if b[0] == 1 {
        match parse_monitor(b.skip(1)) {
            Ok((m, rest)) => Ok((Some(m), rest)),
            Err(e) => Err(e),
        }
    } else {
        Err(DecodingError::Malformed)
    }
}

/// The decoding of a command: exactly the inverse of `spec_encode_command`
/// on complete, well-formed input, and an error naming what is wrong with
/// any other input.
pub open spec fn spec_decode_command(b: Seq<u8>) -> Result<CommandV, DecodingError> {
    if b.len() < 1 {
        Err(DecodingError::Truncated)
    } else if b[0] == TAG_START_JOB {
        match parse_bytes(b.skip(1)) {
            Ok((url, r1)) => match parse_bytes(r1) {
                Ok((save_path, r2)) => match parse_opt_monitor(r2) {
                    Ok((monitor, r3)) => if r3.len() == 0 {
                        Ok(CommandV::StartJob { url, save_path, monitor })
                    } else {
                        Err(DecodingError::TrailingData)
                    },
                    Err(e) => Err(e),
                },
                Err(e) => Err(e),
            },
            Err(e) => Err(e),
        }
    } else if b[0] == TAG_MONITOR_JOB {
        match parse_job_id(b.skip(1)) {
            Ok((job_id, r1)) => match parse_opt_monitor(r1) {
                Ok((monitor, r2)) => if r2.len() == 0 {
                    Ok(CommandV::MonitorJob { job_id, monitor })
                } else {
                    Err(DecodingError::TrailingData)
                },
                Err(e) => Err(e),
            },
            Err(e) => Err(e),
        }
    } else if b[0] == TAG_CANCEL_JOB {
        match parse_job_id(b.skip(1)) {
            Ok((job_id, r1)) => if r1.len() == 0 {
                Ok(CommandV::CancelJob { job_id })
            } else {
                Err(DecodingError::TrailingData)
            },
            Err(e) => Err(e),
        }
    } else {
        Err(DecodingError::UnknownTag)
    }
}

// ---------------------------------------------------------------------------
// Round trip
// ---------------------------------------------------------------------------

/// A command that the wire format can carry: each byte-string field fits its
/// four-byte length prefix.
pub open spec fn wf_command(c: CommandV) -> bool {
    match c {
        CommandV::StartJob { url, save_path, monitor } => url.len() < 0x1_0000_0000
            && save_path.len() < 0x1_0000_0000 && wf_opt_monitor(monitor),
        CommandV::MonitorJob { job_id: _, monitor } => wf_opt_monitor(monitor),
        CommandV::CancelJob { job_id: _ } => true,
    }
}

/// Well-formedness of an optional monitor configuration.
pub open spec fn wf_opt_monitor(m: Option<MonitorConfigV>) -> bool {
    match m {
        None => true,
        Some(c) => c.channel_name.len() < 0x1_0000_0000,
    }
}

proof fn lemma_parse_u32_of_enc(v: u32, rest: Seq<u8>)
    ensures
        parse_u32(spec_u32_to_le_bytes(v) + rest) == Ok::<_, DecodingError>((v, rest)),
{
    lemma_auto_spec_u32_to_from_le_bytes();
    let b = spec_u32_to_le_bytes(v) + rest;
    assert(b.take(4) =~= spec_u32_to_le_bytes(v));
    assert(b.skip(4) =~= rest);
}

proof fn lemma_parse_u64_of_enc(v: u64, rest: Seq<u8>)
    ensures
        parse_u64(spec_u64_to_le_bytes(v) + rest) == Ok::<_, DecodingError>((v, rest)),
{
    lemma_auto_spec_u64_to_from_le_bytes();
    let b = spec_u64_to_le_bytes(v) + rest;
    assert(b.take(8) =~= spec_u64_to_le_bytes(v));
    assert(b.skip(8) =~= rest);
}

proof fn lemma_parse_bytes_of_enc(s: Seq<u8>, rest: Seq<u8>)
    requires
        s.len() < 0x1_0000_0000,
    ensures
        parse_bytes(enc_bytes(s) + rest) == Ok::<_, DecodingError>((s, rest)),
{
    let n = s.len() as u32;
    assert(enc_bytes(s) + rest =~= spec_u32_to_le_bytes(n) + (s + rest));
    lemma_parse_u32_of_enc(n, s + rest);
    assert((s + rest).take(n as int) =~= s);
    assert((s + rest).skip(n as int) =~= rest);
}

proof fn lemma_parse_job_id_of_enc(id: JobId, rest: Seq<u8>)
    ensures
        parse_job_id(enc_job_id(id) + rest) == Ok::<_, DecodingError>((id, rest)),
{
    assert(enc_job_id(id) + rest =~= spec_u64_to_le_bytes(id.hi) + (spec_u64_to_le_bytes(id.lo)
        + rest));
    lemma_parse_u64_of_enc(id.hi, spec_u64_to_le_bytes(id.lo) + rest);
    lemma_parse_u64_of_enc(id.lo, rest);
}

proof fn lemma_parse_opt_monitor_of_enc(m: Option<MonitorConfigV>, rest: Seq<u8>)
    requires
        wf_opt_monitor(m),
    ensures
        parse_opt_monitor(enc_opt_monitor(m) + rest) == Ok::<_, DecodingError>((m, rest)),
{
    match m {
        None => {
            let b = enc_opt_monitor(m) + rest;
            assert(b[0] == 0);
            assert(b.skip(1) =~= rest);
        },
        Some(c) => {
            let b = enc_opt_monitor(m) + rest;
            assert(b[0] == 1);
            assert(b.skip(1) =~= enc_bytes(c.channel_name) + (spec_u32_to_le_bytes(c.interval_ms)
                + rest));
            lemma_parse_bytes_of_enc(c.channel_name, spec_u32_to_le_bytes(c.interval_ms) + rest);
            lemma_parse_u32_of_enc(c.interval_ms, rest);
        },
    }
}

/// Round trip: decoding the encoding of any well-formed command gives the
/// command back, so the wire format loses nothing.
pub proof fn lemma_command_round_trip(c: CommandV)
    requires
        wf_command(c),
    ensures
        spec_decode_command(spec_encode_command(c)) == Ok::<_, DecodingError>(c),
{
    let b = spec_encode_command(c);
    match c {
        CommandV::StartJob { url, save_path, monitor } => {
            assert(b[0] == TAG_START_JOB);
            assert(b.skip(1) =~= enc_bytes(url) + (enc_bytes(save_path) + enc_opt_monitor(
                monitor,
            )));
            lemma_parse_bytes_of_enc(url, enc_bytes(save_path) + enc_opt_monitor(monitor));
            lemma_parse_bytes_of_enc(save_path, enc_opt_monitor(monitor));
            lemma_parse_opt_monitor_of_enc(monitor, Seq::empty());
            assert(enc_opt_monitor(monitor) + Seq::<u8>::empty() =~= enc_opt_monitor(monitor));
        },
        CommandV::MonitorJob { job_id, monitor } => {
            assert(b[0] == TAG_MONITOR_JOB);
            assert(b.skip(1) =~= enc_job_id(job_id) + enc_opt_monitor(monitor));
            lemma_parse_job_id_of_enc(job_id, enc_opt_monitor(monitor));
            lemma_parse_opt_monitor_of_enc(monitor, Seq::empty());
            assert(enc_opt_monitor(monitor) + Seq::<u8>::empty() =~= enc_opt_monitor(monitor));
        },
        CommandV::CancelJob { job_id } => {
            assert(b[0] == TAG_CANCEL_JOB);
            assert(b.skip(1) =~= enc_job_id(job_id) + Seq::<u8>::empty());
            lemma_parse_job_id_of_enc(job_id, Seq::empty());
        },
    }
}

proof fn lemma_parse_u32_inverse(b: Seq<u8>, v: u32, r: Seq<u8>)
    requires
        parse_u32(b) == Ok::<_, DecodingError>((v, r)),
    ensures
        b == spec_u32_to_le_bytes(v) + r,
{
    lemma_auto_spec_u32_to_from_le_bytes();
    assert(spec_u32_to_le_bytes(v) == b.take(4));
    assert(b =~= b.take(4) + b.skip(4));
}

proof fn lemma_parse_u64_inverse(b: Seq<u8>, v: u64, r: Seq<u8>)
    requires
        parse_u64(b) == Ok::<_, DecodingError>((v, r)),
    ensures
        b == spec_u64_to_le_bytes(v) + r,
{
    lemma_auto_spec_u64_to_from_le_bytes();
    assert(spec_u64_to_le_bytes(v) == b.take(8));
    assert(b =~= b.take(8) + b.skip(8));
}

proof fn lemma_parse_bytes_inverse(b: Seq<u8>, s: Seq<u8>, r: Seq<u8>)
    requires
        parse_bytes(b) == Ok::<_, DecodingError>((s, r)),
    ensures
        b == enc_bytes(s) + r,
        s.len() < 0x1_0000_0000,
{
    let (n, rest) = parse_u32(b)->Ok_0;
    lemma_parse_u32_inverse(b, n, rest);
    assert(s.len() == n as int);
    assert(rest =~= s + r);
    assert(b =~= enc_bytes(s) + r);
}

proof fn lemma_parse_job_id_inverse(b: Seq<u8>, id: JobId, r: Seq<u8>)
    requires
        parse_job_id(b) == Ok::<_, DecodingError>((id, r)),
    ensures
        b == enc_job_id(id) + r,
{
    let (hi, rest) = parse_u64(b)->Ok_0;
    let (lo, rest2) = parse_u64(rest)->Ok_0;
    lemma_parse_u64_inverse(b, hi, rest);
    lemma_parse_u64_inverse(rest, lo, rest2);
    assert(b =~= enc_job_id(id) + r);
}

proof fn lemma_parse_opt_monitor_inverse(b: Seq<u8>, m: Option<MonitorConfigV>, r: Seq<u8>)
    requires
        parse_opt_monitor(b) == Ok::<_, DecodingError>((m, r)),
    ensures
        b == enc_opt_monitor(m) + r,
        wf_opt_monitor(m),
{
    if b[0] == 0 {
        assert(b =~= seq![0u8] + b.skip(1));
    } else {
        let rest = b.skip(1);
        let (mc, r2) = parse_monitor(rest)->Ok_0;
        let (name, rest2) = parse_bytes(rest)->Ok_0;
        let (interval, rest3) = parse_u32(rest2)->Ok_0;
        lemma_parse_bytes_inverse(rest, name, rest2);
        lemma_parse_u32_inverse(rest2, interval, rest3);
        assert(rest =~= enc_monitor(mc) + r);
        assert(b =~= seq![1u8] + rest);
        assert(b =~= enc_opt_monitor(m) + r);
    }
}

/// The wire format is canonical: decoding accepts exactly the encodings,
/// so any byte string the decoder takes is the encoding of the command it
/// returns, and that command fits the format's bounds.
pub proof fn lemma_decode_canonical(b: Seq<u8>)
    ensures
        spec_decode_command(b) matches Ok(c) ==> b == spec_encode_command(c) && wf_command(c),
{
    if spec_decode_command(b) is Ok {
        let c = spec_decode_command(b)->Ok_0;
        if b[0] == TAG_START_JOB {
            let rest = b.skip(1);
            let (url, r1) = parse_bytes(rest)->Ok_0;
            let (save_path, r2) = parse_bytes(r1)->Ok_0;
            let (monitor, r3) = parse_opt_monitor(r2)->Ok_0;
            lemma_parse_bytes_inverse(rest, url, r1);
            lemma_parse_bytes_inverse(r1, save_path, r2);
            lemma_parse_opt_monitor_inverse(r2, monitor, r3);
            assert(r3 =~= Seq::<u8>::empty());
            assert(r2 =~= enc_opt_monitor(monitor));
            assert(b =~= seq![TAG_START_JOB] + rest);
            assert(b =~= spec_encode_command(c));
        } else if b[0] == TAG_MONITOR_JOB {
            let rest = b.skip(1);
            let (job_id, r1) = parse_job_id(rest)->Ok_0;
            let (monitor, r2) = parse_opt_monitor(r1)->Ok_0;
            lemma_parse_job_id_inverse(rest, job_id, r1);
            lemma_parse_opt_monitor_inverse(r1, monitor, r2);
            assert(r2 =~= Seq::<u8>::empty());
            assert(r1 =~= enc_opt_monitor(monitor));
            assert(b =~= seq![TAG_MONITOR_JOB] + rest);
            assert(b =~= spec_encode_command(c));
        } else {
            let rest = b.skip(1);
            let (job_id, r1) = parse_job_id(rest)->Ok_0;
            lemma_parse_job_id_inverse(rest, job_id, r1);
            assert(r1 =~= Seq::<u8>::empty());
            assert(rest =~= enc_job_id(job_id));
            assert(b =~= seq![TAG_CANCEL_JOB] + rest);
            assert(b =~= spec_encode_command(c));
        }
    }
}

// ---------------------------------------------------------------------------
// Executable codec
// ---------------------------------------------------------------------------

fn read_u32(b: &[u8]) -> (r: Result<(u32, &[u8]), DecodingError>)
    ensures
        match r {
            Ok(p) => parse_u32(b@) == Ok::<_, DecodingError>((p.0, p.1@)),
            Err(e) => parse_u32(b@) == Err::<(u32, Seq<u8>), _>(e),
        },
{
    if b.len() >= 4 {
        let head = slice_subrange(b, 0, 4);
        let v = u32_from_le_bytes(head);
        let rest = slice_subrange(b, 4, b.len());
        proof {
            assert(head@ =~= b@.take(4));
            assert(rest@ =~= b@.skip(4));
        }
        Ok((v, rest))
    } else {
        Err(DecodingError::Truncated)
    }
}

fn read_u64(b: &[u8]) -> (r: Result<(u64, &[u8]), DecodingError>)
    ensures
        match r {
            Ok(p) => parse_u64(b@) == Ok::<_, DecodingError>((p.0, p.1@)),
            Err(e) => parse_u64(b@) == Err::<(u64, Seq<u8>), _>(e),
        },
{
    if b.len() >= 8 {
        let head = slice_subrange(b, 0, 8);
        let v = u64_from_le_bytes(head);
        let rest = slice_subrange(b, 8, b.len());
        proof {
            assert(head@ =~= b@.take(8));
            assert(rest@ =~= b@.skip(8));
        }
        Ok((v, rest))
    } else {
        Err(DecodingError::Truncated)
    }
}

fn read_bytes(b: &[u8]) -> (r: Result<(&[u8], &[u8]), DecodingError>)
    ensures
        match r {
            Ok(p) => parse_bytes(b@) == Ok::<_, DecodingError>((p.0@, p.1@)),
            Err(e) => parse_bytes(b@) == Err::<(Seq<u8>, Seq<u8>), _>(e),
        },
{
    match read_u32(b) {
        Ok((n, rest)) => {
            let n = n as usize;
            if n <= rest.len() {
                let s = slice_subrange(rest, 0, n);
                let rest2 = slice_subrange(rest, n, rest.len());
                proof {
                    assert(s@ =~= rest@.take(n as int));
                    assert(rest2@ =~= rest@.skip(n as int));
                }
                Ok((s, rest2))
            } else {
                Err(DecodingError::Truncated)
            }
        },
        Err(e) => Err(e),
    }
}

fn read_job_id(b: &[u8]) -> (r: Result<(JobId, &[u8]), DecodingError>)
    ensures
        match r {
            Ok(p) => parse_job_id(b@) == Ok::<_, DecodingError>((p.0, p.1@)),
            Err(e) => parse_job_id(b@) == Err::<(JobId, Seq<u8>), _>(e),
        },
{
    match read_u64(b) {
        Ok((hi, rest)) => match read_u64(rest) {
            Ok((lo, rest2)) => Ok((JobId { hi, lo }, rest2)),
            Err(e) => Err(e),
        },
        Err(e) => Err(e),
    }
}

fn read_opt_monitor(b: &[u8]) -> (r: Result<(Option<MonitorConfig>, &[u8]), DecodingError>)
    ensures
        match r {
            Ok(p) => parse_opt_monitor(b@) == Ok::<_, DecodingError>(
                (opt_monitor_view(p.0), p.1@),
            ),
            Err(e) => parse_opt_monitor(b@) == Err::<(Option<MonitorConfigV>, Seq<u8>), _>(e),
        },
{
    if b.len() < 1 {
        return Err(DecodingError::Truncated);
    }
    let tag = *slice_index_get(b, 0);
    let rest = slice_subrange(b, 1, b.len());
    proof {
        assert(rest@ =~= b@.skip(1));
    }
    if tag == 0 {
        Ok((None, rest))
    } else if tag == 1 {
        match read_bytes(rest) {
            Ok((name, r1)) => match read_u32(r1) {
                Ok((interval, r2)) => {
                    let m = MonitorConfig { channel_name: slice_to_vec(name), interval_ms: interval };
                    Ok((Some(m), r2))
                },
                Err(e) => Err(e),
            },
            Err(e) => Err(e),
        }
    } else {
        Err(DecodingError::Malformed)
    }
}

/// Decode one command envelope.  The result is exactly what
/// `spec_decode_command` says of the input bytes.
pub fn decode_command(b: &[u8]) -> (r: Result<Command, DecodingError>)
    ensures
        match r {
            Ok(c) => spec_decode_command(b@) == Ok::<_, DecodingError>(c@),
            Err(e) => spec_decode_command(b@) == Err::<CommandV, _>(e),
        },
{
    if b.len() < 1 {
        return Err(DecodingError::Truncated);
    }
    let tag = *slice_index_get(b, 0);
    let rest = slice_subrange(b, 1, b.len());
    proof {
        assert(rest@ =~= b@.skip(1));
    }
    if tag == TAG_START_JOB {
        match read_bytes(rest) {
            Ok((url, r1)) => match read_bytes(r1) {
                Ok((save_path, r2)) => match read_opt_monitor(r2) {
                    Ok((monitor, r3)) => if r3.len() == 0 {
                        let c = Command::StartJob(
                            StartJobCommand {
                                url: slice_to_vec(url),
                                save_path: slice_to_vec(save_path),
                                monitor,
                            },
                        );
                        proof {
                            assert(r3@ =~= Seq::<u8>::empty());
                        }
                        Ok(c)
                    } else {
                        Err(DecodingError::TrailingData)
                    },
                    Err(e) => Err(e),
                },
                Err(e) => Err(e),
            },
            Err(e) => Err(e),
        }
    } else if tag == TAG_MONITOR_JOB {
        match read_job_id(rest) {
            Ok((job_id, r1)) => match read_opt_monitor(r1) {
                Ok((monitor, r2)) => if r2.len() == 0 {
                    Ok(Command::MonitorJob(MonitorJobCommand { job_id, monitor }))
                } else {
                    Err(DecodingError::TrailingData)
                },
                Err(e) => Err(e),
            },
            Err(e) => Err(e),
        }
    } else if tag == TAG_CANCEL_JOB {
        match read_job_id(rest) {
            Ok((job_id, r1)) => if r1.len() == 0 {
                Ok(Command::CancelJob(CancelJobCommand { job_id }))
            } else {
                Err(DecodingError::TrailingData)
            },
            Err(e) => Err(e),
        }
    } else {
        Err(DecodingError::UnknownTag)
    }
}

/// Append a length-prefixed byte string to the output.
fn push_bytes_field(out: &mut Vec<u8>, s: &Vec<u8>)
    requires
        s@.len() < 0x1_0000_0000,
    ensures
        final(out)@ == old(out)@ + enc_bytes(s@),
{
    let mut prefix = u32_to_le_bytes(s.len() as u32);
    out.append(&mut prefix);
    out.extend_from_slice(s.as_slice());
    proof {
        assert(final(out)@ =~= old(out)@ + enc_bytes(s@));
    }
}

/// Append an optional monitor configuration to the output.
fn push_opt_monitor(out: &mut Vec<u8>, m: &Option<MonitorConfig>)
    requires
        wf_opt_monitor(opt_monitor_view(*m)),
    ensures
        final(out)@ == old(out)@ + enc_opt_monitor(opt_monitor_view(*m)),
{
    match m {
        None => {
            out.push(0u8);
            proof {
                assert(final(out)@ =~= old(out)@ + enc_opt_monitor(opt_monitor_view(*m)));
            }
        },
        Some(c) => {
            out.push(1u8);
            push_bytes_field(out, &c.channel_name);
            let mut interval = u32_to_le_bytes(c.interval_ms);
            out.append(&mut interval);
            proof {
                assert(final(out)@ =~= old(out)@ + enc_opt_monitor(opt_monitor_view(*m)));
            }
        },
    }
}

/// Append a job identifier to the output.
fn push_job_id(out: &mut Vec<u8>, id: &JobId)
    ensures
        final(out)@ == old(out)@ + enc_job_id(*id),
{
    let mut hi = u64_to_le_bytes(id.hi);
    out.append(&mut hi);
    let mut lo = u64_to_le_bytes(id.lo);
    out.append(&mut lo);
    proof {
        assert(final(out)@ =~= old(out)@ + enc_job_id(*id));
    }
}

/// Encode one command envelope.  Succeeds exactly when the encoding fits
/// `MAX_COMMAND`; the bytes returned are exactly `spec_encode_command`.
pub fn encode_command(c: &Command) -> (r: Result<Vec<u8>, EncodingError>)
    ensures
        r matches Ok(v) ==> v@ == spec_encode_command(c@) && v@.len() <= MAX_COMMAND,
        r is Ok <==> spec_encode_command(c@).len() <= MAX_COMMAND,
        r is Err ==> r == Err::<Vec<u8>, _>(EncodingError::TooLong),
{
    proof {
        lemma_encoded_command_len(c@);
    }
    match c {
        Command::StartJob(sc) => {
            if sc.url.len() > MAX_COMMAND || sc.save_path.len() > MAX_COMMAND {
                return Err(EncodingError::TooLong);
            }
            let mon_len: usize = match &sc.monitor {
                None => 1,
                Some(m) => {
                    if m.channel_name.len() > MAX_COMMAND {
                        return Err(EncodingError::TooLong);
                    }
                    1 + 4 + m.channel_name.len() + 4
                },
            };
            let total: usize = 1 + 4 + sc.url.len() + 4 + sc.save_path.len() + mon_len;
            if total > MAX_COMMAND {
                return Err(EncodingError::TooLong);
            }
            let mut out: Vec<u8> = Vec::new();
            out.push(TAG_START_JOB);
            push_bytes_field(&mut out, &sc.url);
            push_bytes_field(&mut out, &sc.save_path);
            push_opt_monitor(&mut out, &sc.monitor);
            proof {
                assert(out@ =~= spec_encode_command(c@));
            }
            Ok(out)
        },
        Command::MonitorJob(mc) => {
            let mon_len: usize = match &mc.monitor {
                None => 1,
                Some(m) => {
                    if m.channel_name.len() > MAX_COMMAND {
                        return Err(EncodingError::TooLong);
                    }
                    1 + 4 + m.channel_name.len() + 4
                },
            };
            let total: usize = 1 + 16 + mon_len;
            if total > MAX_COMMAND {
                return Err(EncodingError::TooLong);
            }
            let mut out: Vec<u8> = Vec::new();
            out.push(TAG_MONITOR_JOB);
            push_job_id(&mut out, &mc.job_id);
            push_opt_monitor(&mut out, &mc.monitor);
            proof {
                assert(out@ =~= spec_encode_command(c@));
            }
            Ok(out)
        },
        Command::CancelJob(cc) => {
            let mut out: Vec<u8> = Vec::new();
            out.push(TAG_CANCEL_JOB);
            push_job_id(&mut out, &cc.job_id);
            proof {
                assert(out@ =~= spec_encode_command(c@));
            }
            Ok(out)
        },
    }
}

// ---------------------------------------------------------------------------
// Response codecs
// ---------------------------------------------------------------------------

/// An engine error on the wire.
pub open spec fn enc_engine_error(e: EngineError) -> Seq<u8> {
    match e {
        EngineError::NotFound => seq![0u8],
        EngineError::Status { context, code } => seq![1u8] + spec_u32_to_le_bytes(context)
            + spec_u32_to_le_bytes(code),
    }
}

/// A failure on the wire.
pub open spec fn enc_failure(f: Failure) -> Seq<u8> {
    match f {
        Failure::EngineError(e) => enc_engine_error(e),
    }
}

/// The reply to `StartJob` on the wire: a result byte, then either the new
/// job identifier or the failure.
pub open spec fn spec_encode_start_response(r: Result<StartJobSuccess, Failure>) -> Seq<u8> {
    match r {
        Ok(s) => seq![0u8] + enc_job_id(s.job_id),
        Err(f) => seq![1u8] + enc_failure(f),
    }
}

/// The reply to `MonitorJob` on the wire.
pub open spec fn spec_encode_monitor_response(r: Result<MonitorJobSuccess, Failure>) -> Seq<u8> {
    match r {
        Ok(_) => seq![0u8],
        Err(f) => seq![1u8] + enc_failure(f),
    }
}

/// The reply to `CancelJob` on the wire.
pub open spec fn spec_encode_cancel_response(r: Result<CancelJobSuccess, Failure>) -> Seq<u8> {
    match r {
        Ok(_) => seq![0u8],
        Err(f) => seq![1u8] + enc_failure(f),
    }
}

/// Read an engine error off the front of the input.
pub open spec fn parse_engine_error(b: Seq<u8>) -> Result<(EngineError, Seq<u8>), DecodingError> {
    if b.len() < 1 {
        Err(DecodingError::Truncated)
    } else if b[0] == 0 {
        Ok((EngineError::NotFound, b.skip(1)))
    } else if b[0] == 1 {
        match parse_u32(b.skip(1)) {
            Ok((context, r1)) => match parse_u32(r1) {
                Ok((code, r2)) => Ok((EngineError::Status { context, code }, r2)),
                Err(e) => Err(e),
            },
            Err(e) => Err(e),
        }
    } else {
        Err(DecodingError::Malformed)
    }
}

/// Read a failure off the front of the input.
pub open spec fn parse_failure(b: Seq<u8>) -> Result<(Failure, Seq<u8>), DecodingError> {
    match parse_engine_error(b) {
        Ok((e, rest)) => Ok((Failure::EngineError(e), rest)),
        Err(e) => Err(e),
    }
}

/// The decoding of a `StartJob` reply.
pub open spec fn spec_decode_start_response(b: Seq<u8>) -> Result<
    Result<StartJobSuccess, Failure>,
    DecodingError,
> {
    if b.len() < 1 {
        Err(DecodingError::Truncated)
    } else if b[0] == 0 {
        match parse_job_id(b.skip(1)) {
            Ok((job_id, r1)) => if r1.len() == 0 {
                Ok(Ok(StartJobSuccess { job_id }))
            } else {
                Err(DecodingError::TrailingData)
            },
            Err(e) => Err(e),
        }
    } else if b[0] == 1 {
        match parse_failure(b.skip(1)) {
            Ok((f, r1)) => if r1.len() == 0 {
                Ok(Err(f))
            } else {
                Err(DecodingError::TrailingData)
            },
            Err(e) => Err(e),
        }
    } else {
        Err(DecodingError::Malformed)
    }
}

/// The decoding of a `MonitorJob` reply.
pub open spec fn spec_decode_monitor_response(b: Seq<u8>) -> Result<
    Result<MonitorJobSuccess, Failure>,
    DecodingError,
> {
    if b.len() < 1 {
        Err(DecodingError::Truncated)
    } else if b[0] == 0 {
        if b.len() == 1 {
            Ok(Ok(MonitorJobSuccess))
        } else {
            Err(DecodingError::TrailingData)
        }
    } else if b[0] == 1 {
        match parse_failure(b.skip(1)) {
            Ok((f, r1)) => if r1.len() == 0 {
                Ok(Err(f))
            } else {
                Err(DecodingError::TrailingData)
            },
            Err(e) => Err(e),
        }
    } else {
        Err(DecodingError::Malformed)
    }
}

/// The decoding of a `CancelJob` reply.
pub open spec fn spec_decode_cancel_response(b: Seq<u8>) -> Result<
    Result<CancelJobSuccess, Failure>,
    DecodingError,
> {
    if b.len() < 1 {
        Err(DecodingError::Truncated)
    } else if b[0] == 0 {
        if b.len() == 1 {
            Ok(Ok(CancelJobSuccess))
        } else {
            Err(DecodingError::TrailingData)
        }
    } else if b[0] == 1 {
        match parse_failure(b.skip(1)) {
            Ok((f, r1)) => if r1.len() == 0 {
                Ok(Err(f))
            } else {
                Err(DecodingError::TrailingData)
            },
            Err(e) => Err(e),
        }
    } else {
        Err(DecodingError::Malformed)
    }
}

proof fn lemma_parse_engine_error_of_enc(e: EngineError, rest: Seq<u8>)
    ensures
        parse_engine_error(enc_engine_error(e) + rest) == Ok::<_, DecodingError>((e, rest)),
{
    let b = enc_engine_error(e) + rest;
    match e {
        EngineError::NotFound => {
            assert(b[0] == 0);
            assert(b.skip(1) =~= rest);
        },
        EngineError::Status { context, code } => {
            assert(b[0] == 1);
            assert(b.skip(1) =~= spec_u32_to_le_bytes(context) + (spec_u32_to_le_bytes(code)
                + rest));
            lemma_parse_u32_of_enc(context, spec_u32_to_le_bytes(code) + rest);
            lemma_parse_u32_of_enc(code, rest);
        },
    }
}

/// Round trip of the `StartJob` reply codec.
pub proof fn lemma_start_response_round_trip(r: Result<StartJobSuccess, Failure>)
    ensures
        spec_decode_start_response(spec_encode_start_response(r)) == Ok::<_, DecodingError>(r),
{
    let b = spec_encode_start_response(r);
    match r {
        Ok(s) => {
            assert(b[0] == 0);
            assert(b.skip(1) =~= enc_job_id(s.job_id) + Seq::<u8>::empty());
            lemma_parse_job_id_of_enc(s.job_id, Seq::empty());
        },
        Err(f) => {
            let Failure::EngineError(e) = f;
            assert(b[0] == 1);
            assert(b.skip(1) =~= enc_engine_error(e) + Seq::<u8>::empty());
            lemma_parse_engine_error_of_enc(e, Seq::empty());
        },
    }
}

/// Round trip of the `MonitorJob` reply codec.
pub proof fn lemma_monitor_response_round_trip(r: Result<MonitorJobSuccess, Failure>)
    ensures
        spec_decode_monitor_response(spec_encode_monitor_response(r)) == Ok::<_, DecodingError>(r),
{
    let b = spec_encode_monitor_response(r);
    match r {
        Ok(s) => {
            assert(b[0] == 0);
            assert(s == MonitorJobSuccess);
        },
        Err(f) => {
            let Failure::EngineError(e) = f;
            assert(b[0] == 1);
            assert(b.skip(1) =~= enc_engine_error(e) + Seq::<u8>::empty());
            lemma_parse_engine_error_of_enc(e, Seq::empty());
        },
    }
}

/// Round trip of the `CancelJob` reply codec.
pub proof fn lemma_cancel_response_round_trip(r: Result<CancelJobSuccess, Failure>)
    ensures
        spec_decode_cancel_response(spec_encode_cancel_response(r)) == Ok::<_, DecodingError>(r),
{
    let b = spec_encode_cancel_response(r);
    match r {
        Ok(s) => {
            assert(b[0] == 0);
            assert(s == CancelJobSuccess);
        },
        Err(f) => {
            let Failure::EngineError(e) = f;
            assert(b[0] == 1);
            assert(b.skip(1) =~= enc_engine_error(e) + Seq::<u8>::empty());
            lemma_parse_engine_error_of_enc(e, Seq::empty());
        },
    }
}

/// Every reply stays within the response cap; in particular every failure
/// built from an engine error does, whatever the engine reported.
pub proof fn lemma_response_bounded(
    rs: Result<StartJobSuccess, Failure>,
    rm: Result<MonitorJobSuccess, Failure>,
    rc: Result<CancelJobSuccess, Failure>,
)
    ensures
        spec_encode_start_response(rs).len() <= MAX_RESPONSE,
        spec_encode_monitor_response(rm).len() <= MAX_RESPONSE,
        spec_encode_cancel_response(rc).len() <= MAX_RESPONSE,
{
    lemma_auto_spec_u32_to_from_le_bytes();
    lemma_auto_spec_u64_to_from_le_bytes();
}

fn push_failure(out: &mut Vec<u8>, f: &Failure)
    ensures
        final(out)@ == old(out)@ + enc_failure(*f),
{
    match f {
        Failure::EngineError(e) => match e {
            EngineError::NotFound => {
                out.push(0u8);
                proof {
                    assert(final(out)@ =~= old(out)@ + enc_failure(*f));
                }
            },
            EngineError::Status { context, code } => {
                out.push(1u8);
                let mut ctx = u32_to_le_bytes(*context);
                out.append(&mut ctx);
                let mut cd = u32_to_le_bytes(*code);
                out.append(&mut cd);
                proof {
                    assert(final(out)@ =~= old(out)@ + enc_failure(*f));
                }
            },
        },
    }
}

/// Encode a `StartJob` reply.  Always fits the response cap.
pub fn encode_start_response(r: &Result<StartJobSuccess, Failure>) -> (v: Vec<u8>)
    ensures
        v@ == spec_encode_start_response(*r),
        v@.len() <= MAX_RESPONSE,
{
    proof {
        lemma_auto_spec_u32_to_from_le_bytes();
        lemma_auto_spec_u64_to_from_le_bytes();
    }
    let mut out: Vec<u8> = Vec::new();
    match r {
        Ok(s) => {
            out.push(0u8);
            push_job_id(&mut out, &s.job_id);
        },
        Err(f) => {
            out.push(1u8);
            push_failure(&mut out, f);
        },
    }
    proof {
        assert(out@ =~= spec_encode_start_response(*r));
    }
    out
}

/// Encode a `MonitorJob` reply.  Always fits the response cap.
pub fn encode_monitor_response(r: &Result<MonitorJobSuccess, Failure>) -> (v: Vec<u8>)
    ensures
        v@ == spec_encode_monitor_response(*r),
        v@.len() <= MAX_RESPONSE,
{
    proof {
        lemma_auto_spec_u32_to_from_le_bytes();
    }
    let mut out: Vec<u8> = Vec::new();
    match r {
        Ok(_) => {
            out.push(0u8);
        },
        Err(f) => {
            out.push(1u8);
            push_failure(&mut out, f);
        },
    }
    proof {
        assert(out@ =~= spec_encode_monitor_response(*r));
    }
    out
}

/// Encode a `CancelJob` reply.  Always fits the response cap.
pub fn encode_cancel_response(r: &Result<CancelJobSuccess, Failure>) -> (v: Vec<u8>)
    ensures
        v@ == spec_encode_cancel_response(*r),
        v@.len() <= MAX_RESPONSE,
{
    proof {
        lemma_auto_spec_u32_to_from_le_bytes();
    }
    let mut out: Vec<u8> = Vec::new();
    match r {
        Ok(_) => {
            out.push(0u8);
        },
        Err(f) => {
            out.push(1u8);
            push_failure(&mut out, f);
        },
    }
    proof {
        assert(out@ =~= spec_encode_cancel_response(*r));
    }
    out
}

fn read_failure(b: &[u8]) -> (r: Result<(Failure, &[u8]), DecodingError>)
    ensures
        match r {
            Ok(p) => parse_failure(b@) == Ok::<_, DecodingError>((p.0, p.1@)),
            Err(e) => parse_failure(b@) == Err::<(Failure, Seq<u8>), _>(e),
        },
{
    if b.len() < 1 {
        return Err(DecodingError::Truncated);
    }
    let tag = *slice_index_get(b, 0);
    let rest = slice_subrange(b, 1, b.len());
    proof {
        assert(rest@ =~= b@.skip(1));
    }
    if tag == 0 {
        Ok((Failure::EngineError(EngineError::NotFound), rest))
    } else if tag == 1 {
        match read_u32(rest) {
            Ok((context, r1)) => match read_u32(r1) {
                Ok((code, r2)) => Ok(
                    (Failure::EngineError(EngineError::Status { context, code }), r2),
                ),
                Err(e) => Err(e),
            },
            Err(e) => Err(e),
        }
    } else {
        Err(DecodingError::Malformed)
    }
}

/// Decode a `StartJob` reply.
pub fn decode_start_response(b: &[u8]) -> (r: Result<
    Result<StartJobSuccess, Failure>,
    DecodingError,
>)
    ensures
        match r {
            Ok(resp) => spec_decode_start_response(b@) == Ok::<_, DecodingError>(resp),
            Err(e) => spec_decode_start_response(b@) == Err::<
                Result<StartJobSuccess, Failure>,
                _,
            >(e),
        },
{
    if b.len() < 1 {
        return Err(DecodingError::Truncated);
    }
    let tag = *slice_index_get(b, 0);
    let rest = slice_subrange(b, 1, b.len());
    proof {
        assert(rest@ =~= b@.skip(1));
    }
    if tag == 0 {
        match read_job_id(rest) {
            Ok((job_id, r1)) => if r1.len() == 0 {
                Ok(Ok(StartJobSuccess { job_id }))
            } else {
                Err(DecodingError::TrailingData)
            },
            Err(e) => Err(e),
        }
    } else if tag == 1 {
        match read_failure(rest) {
            Ok((f, r1)) => if r1.len() == 0 {
                Ok(Err(f))
            } else {
                Err(DecodingError::TrailingData)
            },
            Err(e) => Err(e),
        }
    } else {
        Err(DecodingError::Malformed)
    }
}

/// Decode a `MonitorJob` reply.
pub fn decode_monitor_response(b: &[u8]) -> (r: Result<
    Result<MonitorJobSuccess, Failure>,
    DecodingError,
>)
    ensures
        match r {
            Ok(resp) => spec_decode_monitor_response(b@) == Ok::<_, DecodingError>(resp),
            Err(e) => spec_decode_monitor_response(b@) == Err::<
                Result<MonitorJobSuccess, Failure>,
                _,
            >(e),
        },
{
    if b.len() < 1 {
        return Err(DecodingError::Truncated);
    }
    let tag = *slice_index_get(b, 0);
    let rest = slice_subrange(b, 1, b.len());
    proof {
        assert(rest@ =~= b@.skip(1));
    }
    if tag == 0 {
        if b.len() == 1 {
            Ok(Ok(MonitorJobSuccess))
        } else {
            Err(DecodingError::TrailingData)
        }
    } else if tag == 1 {
        match read_failure(rest) {
            Ok((f, r1)) => if r1.len() == 0 {
                Ok(Err(f))
            } else {
                Err(DecodingError::TrailingData)
            },
            Err(e) => Err(e),
        }
    } else {
        Err(DecodingError::Malformed)
    }
}

/// Decode a `CancelJob` reply.
pub fn decode_cancel_response(b: &[u8]) -> (r: Result<
    Result<CancelJobSuccess, Failure>,
    DecodingError,
>)
    ensures
        match r {
            Ok(resp) => spec_decode_cancel_response(b@) == Ok::<_, DecodingError>(resp),
            Err(e) => spec_decode_cancel_response(b@) == Err::<
                Result<CancelJobSuccess, Failure>,
                _,
            >(e),
        },
{
    if b.len() < 1 {
        return Err(DecodingError::Truncated);
    }
    let tag = *slice_index_get(b, 0);
    let rest = slice_subrange(b, 1, b.len());
    proof {
        assert(rest@ =~= b@.skip(1));
    }
    if tag == 0 {
        if b.len() == 1 {
            Ok(Ok(CancelJobSuccess))
        } else {
            Err(DecodingError::TrailingData)
        }
    } else if tag == 1 {
        match read_failure(rest) {
            Ok((f, r1)) => if r1.len() == 0 {
                Ok(Err(f))
            } else {
                Err(DecodingError::TrailingData)
            },
            Err(e) => Err(e),
        }
    } else {
        Err(DecodingError::Malformed)
    }
}

// ---------------------------------------------------------------------------
// Status codec (monitor channel)
// ---------------------------------------------------------------------------

/// Wire tag of a job state.
pub open spec fn state_tag(s: JobState) -> u8 {
    match s {
        JobState::Queued => 0,
        JobState::Connecting => 1,
        JobState::Transferring => 2,
        JobState::Suspended => 3,
        JobState::Error => 4,
        JobState::TransientError => 5,
        JobState::Transferred => 6,
        JobState::Acknowledged => 7,
        JobState::Cancelled => 8,
    }
}

/// Job state of a wire tag, if the tag names one.
pub open spec fn state_of_tag(t: u8) -> Option<JobState> {
    if t == 0 {
        Some(JobState::Queued)
    } else if t == 1 {
        Some(JobState::Connecting)
    } else if t == 2 {
        Some(JobState::Transferring)
    } else if t == 3 {
        Some(JobState::Suspended)
    } else if t == 4 {
        Some(JobState::Error)
    } else if t == 5 {
        Some(JobState::TransientError)
    } else if t == 6 {
        Some(JobState::Transferred)
    } else if t == 7 {
        Some(JobState::Acknowledged)
    } else if t == 8 {
        Some(JobState::Cancelled)
    } else {
        None
    }
}

/// The last error of a status on the wire: a presence byte, then the value.
pub open spec fn enc_opt_error(e: Option<JobError>) -> Seq<u8> {
    match e {
        None => seq![0u8],
        Some(je) => seq![1u8] + spec_u32_to_le_bytes(je.context) + spec_u32_to_le_bytes(je.code),
    }
}

/// A status snapshot on the wire.
pub open spec fn spec_encode_status(st: JobStatus) -> Seq<u8> {
    seq![state_tag(st.state)] + spec_u64_to_le_bytes(st.progress.bytes_total)
        + spec_u64_to_le_bytes(st.progress.bytes_transferred) + spec_u32_to_le_bytes(
        st.progress.files_total,
    ) + spec_u32_to_le_bytes(st.progress.files_transferred) + spec_u32_to_le_bytes(st.error_count)
        + enc_opt_error(st.error)
}

/// Read an optional job error off the front of the input.
pub open spec fn parse_opt_error(b: Seq<u8>) -> Result<(Option<JobError>, Seq<u8>), DecodingError> {
    if b.len() < 1 {
        Err(DecodingError::Truncated)
    } else if b[0] == 0 {
        Ok((None, b.skip(1)))
    } else if b[0] == 1 {
        match parse_u32(b.skip(1)) {
            Ok((context, r1)) => match parse_u32(r1) {
                Ok((code, r2)) => Ok((Some(JobError { context, code }), r2)),
                Err(e) => Err(e),
            },
            Err(e) => Err(e),
        }
    } else {
        Err(DecodingError::Malformed)
    }
}

/// The decoding of a status snapshot.
pub open spec fn spec_decode_status(b: Seq<u8>) -> Result<JobStatus, DecodingError> {
    if b.len() < 1 {
        Err(DecodingError::Truncated)
    } else {
        match state_of_tag(b[0]) {
            None => Err(DecodingError::UnknownTag),
            Some(state) => match parse_u64(b.skip(1)) {
                Ok((bytes_total, r1)) => match parse_u64(r1) {
                    Ok((bytes_transferred, r2)) => match parse_u32(r2) {
                        Ok((files_total, r3)) => match parse_u32(r3) {
                            Ok((files_transferred, r4)) => match parse_u32(r4) {
                                Ok((error_count, r5)) => match parse_opt_error(r5) {
                                    Ok((error, r6)) => if r6.len() == 0 {
                                        Ok(
                                            JobStatus {
                                                state,
                                                progress: JobProgress {
                                                    bytes_total,
                                                    bytes_transferred,
                                                    files_total,
                                                    files_transferred,
                                                },
                                                error_count,
                                                error,
                                            },
                                        )
                                    } else {
                                        Err(DecodingError::TrailingData)
                                    },
                                    Err(e) => Err(e),
                                },
                                Err(e) => Err(e),
                            },
                            Err(e) => Err(e),
                        },
                        Err(e) => Err(e),
                    },
                    Err(e) => Err(e),
                },
                Err(e) => Err(e),
            },
        }
    }
}

/// Round trip of the status codec.
#[verifier::spinoff_prover]
#[verifier::rlimit(100)]
pub proof fn lemma_status_round_trip(st: JobStatus)
    ensures
        spec_decode_status(spec_encode_status(st)) == Ok::<_, DecodingError>(st),
{
    let b = spec_encode_status(st);
    assert(b[0] == state_tag(st.state));
    assert(state_of_tag(state_tag(st.state)) == Some(st.state));
    let t1 = spec_u64_to_le_bytes(st.progress.bytes_transferred);
    let t2 = spec_u32_to_le_bytes(st.progress.files_total);
    let t3 = spec_u32_to_le_bytes(st.progress.files_transferred);
    let t4 = spec_u32_to_le_bytes(st.error_count);
    let t5 = enc_opt_error(st.error);
    assert(b.skip(1) =~= spec_u64_to_le_bytes(st.progress.bytes_total) + (t1 + (t2 + (t3 + (t4
        + t5)))));
    lemma_parse_u64_of_enc(st.progress.bytes_total, t1 + (t2 + (t3 + (t4 + t5))));
    lemma_parse_u64_of_enc(st.progress.bytes_transferred, t2 + (t3 + (t4 + t5)));
    lemma_parse_u32_of_enc(st.progress.files_total, t3 + (t4 + t5));
    lemma_parse_u32_of_enc(st.progress.files_transferred, t4 + t5);
    lemma_parse_u32_of_enc(st.error_count, t5);
    match st.error {
        None => {
            assert(t5[0] == 0);
            assert(t5.skip(1) =~= Seq::<u8>::empty());
        },
        Some(je) => {
            assert(t5[0] == 1);
            assert(t5.skip(1) =~= spec_u32_to_le_bytes(je.context) + (spec_u32_to_le_bytes(je.code)
                + Seq::<u8>::empty()));
            lemma_parse_u32_of_enc(je.context, spec_u32_to_le_bytes(je.code) + Seq::empty());
            lemma_parse_u32_of_enc(je.code, Seq::empty());
        },
    }
}

/// The encoding of a status is never longer than a reply: it fits the same
/// buffers.
pub proof fn lemma_status_bounded(st: JobStatus)
    ensures
        spec_encode_status(st).len() <= MAX_RESPONSE,
{
    lemma_auto_spec_u32_to_from_le_bytes();
    lemma_auto_spec_u64_to_from_le_bytes();
}

/// Wire tag of a job state.
pub fn state_tag_of(s: JobState) -> (t: u8)
    ensures
        t == state_tag(s),
{
    match s {
        JobState::Queued => 0,
        JobState::Connecting => 1,
        JobState::Transferring => 2,
        JobState::Suspended => 3,
        JobState::Error => 4,
        JobState::TransientError => 5,
        JobState::Transferred => 6,
        JobState::Acknowledged => 7,
        JobState::Cancelled => 8,
    }
}

/// Encode a status snapshot.  Always fits the response cap.
pub fn encode_status(st: &JobStatus) -> (v: Vec<u8>)
    ensures
        v@ == spec_encode_status(*st),
        v@.len() <= MAX_RESPONSE,
{
    proof {
        lemma_status_bounded(*st);
    }
    let mut out: Vec<u8> = Vec::new();
    out.push(state_tag_of(st.state));
    let mut b = u64_to_le_bytes(st.progress.bytes_total);
    out.append(&mut b);
    let mut b = u64_to_le_bytes(st.progress.bytes_transferred);
    out.append(&mut b);
    let mut b = u32_to_le_bytes(st.progress.files_total);
    out.append(&mut b);
    let mut b = u32_to_le_bytes(st.progress.files_transferred);
    out.append(&mut b);
    let mut b = u32_to_le_bytes(st.error_count);
    out.append(&mut b);
    match &st.error {
        None => {
            out.push(0u8);
        },
        Some(je) => {
            out.push(1u8);
            let mut b = u32_to_le_bytes(je.context);
            out.append(&mut b);
            let mut b = u32_to_le_bytes(je.code);
            out.append(&mut b);
        },
    }
    proof {
        assert(out@ =~= spec_encode_status(*st));
    }
    out
}

fn read_opt_error(b: &[u8]) -> (r: Result<(Option<JobError>, &[u8]), DecodingError>)
    ensures
        match r {
            Ok(p) => parse_opt_error(b@) == Ok::<_, DecodingError>((p.0, p.1@)),
            Err(e) => parse_opt_error(b@) == Err::<(Option<JobError>, Seq<u8>), _>(e),
        },
{
    if b.len() < 1 {
        return Err(DecodingError::Truncated);
    }
    let tag = *slice_index_get(b, 0);
    let rest = slice_subrange(b, 1, b.len());
    proof {
        assert(rest@ =~= b@.skip(1));
    }
    if tag == 0 {
        Ok((None, rest))
    } else if tag == 1 {
        match read_u32(rest) {
            Ok((context, r1)) => match read_u32(r1) {
                Ok((code, r2)) => Ok((Some(JobError { context, code }), r2)),
                Err(e) => Err(e),
            },
            Err(e) => Err(e),
        }
    } else {
        Err(DecodingError::Malformed)
    }
}

/// Decode a status snapshot.
pub fn decode_status(b: &[u8]) -> (r: Result<JobStatus, DecodingError>)
    ensures
        match r {
            Ok(st) => spec_decode_status(b@) == Ok::<_, DecodingError>(st),
            Err(e) => spec_decode_status(b@) == Err::<JobStatus, _>(e),
        },
{
    if b.len() < 1 {
        return Err(DecodingError::Truncated);
    }
    let tag = *slice_index_get(b, 0);
    let rest = slice_subrange(b, 1, b.len());
    proof {
        assert(rest@ =~= b@.skip(1));
    }
    let state = if tag == 0 {
        JobState::Queued
    } else if tag == 1 {
        JobState::Connecting
    } else if tag == 2 {
        JobState::Transferring
    } else if tag == 3 {
        JobState::Suspended
    } else if tag == 4 {
        JobState::Error
    } else if tag == 5 {
        JobState::TransientError
    } else if tag == 6 {
        JobState::Transferred
    } else if tag == 7 {
        JobState::Acknowledged
    } else if tag == 8 {
        JobState::Cancelled
    } else {
        return Err(DecodingError::UnknownTag);
    };
    match read_u64(rest) {
        Ok((bytes_total, r1)) => match read_u64(r1) {
            Ok((bytes_transferred, r2)) => match read_u32(r2) {
                Ok((files_total, r3)) => match read_u32(r3) {
                    Ok((files_transferred, r4)) => match read_u32(r4) {
                        Ok((error_count, r5)) => match read_opt_error(r5) {
                            Ok((error, r6)) => if r6.len() == 0 {
                                Ok(
                                    JobStatus {
                                        state,
                                        progress: JobProgress {
                                            bytes_total,
                                            bytes_transferred,
                                            files_total,
                                            files_transferred,
                                        },
                                        error_count,
                                        error,
                                    },
                                )
                            } else {
                                Err(DecodingError::TrailingData)
                            },
                            Err(e) => Err(e),
                        },
                        Err(e) => Err(e),
                    },
                    Err(e) => Err(e),
                },
                Err(e) => Err(e),
            },
            Err(e) => Err(e),
        },
        Err(e) => Err(e),
    }
}

} // verus!

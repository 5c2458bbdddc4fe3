//! The wire codec for events: a compact, fixed-endian, tagged binary record.
//!
//! Each variant is written as a one-byte tag followed by its fields in
//! declaration order.  Integers are little-endian and fixed width; byte
//! strings carry a 64-bit length prefix; options carry a one-byte presence
//! marker.  Both sides of the fabric must use the same schema; there is no
//! negotiation, and a malformed record decodes to nothing.

use vstd::prelude::*;

use crate::events::{Event, EventConfig, EventView, ExitKind, LogSeverity, event_wf};

verus! {

// ---------------------------------------------------------------------------
// Specification-level encoders.
// ---------------------------------------------------------------------------

/// The eight little-endian bytes of a 64-bit integer.
pub open spec fn u64_le(x: u64) -> Seq<u8> {
    seq![
        (x & 0xff) as u8,
        ((x >> 8) & 0xff) as u8,
        ((x >> 16) & 0xff) as u8,
        ((x >> 24) & 0xff) as u8,
        ((x >> 32) & 0xff) as u8,
        ((x >> 40) & 0xff) as u8,
        ((x >> 48) & 0xff) as u8,
        ((x >> 56) & 0xff) as u8,
    ]
}

/// The four little-endian bytes of a 32-bit integer.
pub open spec fn u32_le(x: u32) -> Seq<u8> {
    seq![
        (x & 0xff) as u8,
        ((x >> 8) & 0xff) as u8,
        ((x >> 16) & 0xff) as u8,
        ((x >> 24) & 0xff) as u8,
    ]
}

/// A byte string: 64-bit length prefix, then the raw bytes.
pub open spec fn enc_bytes(b: Seq<u8>) -> Seq<u8> {
    u64_le(b.len() as u64) + b
}

/// An optional byte string: presence marker, then the byte string if present.
pub open spec fn enc_opt_bytes(o: Option<Seq<u8>>) -> Seq<u8> {
    match o {
        None => seq![0u8],
        Some(b) => seq![1u8] + enc_bytes(b),
    }
}

/// An optional 32-bit integer: presence marker, then the integer if present.
pub open spec fn enc_opt_u32(o: Option<u32>) -> Seq<u8> {
    match o {
        None => seq![0u8],
        Some(x) => seq![1u8] + u32_le(x),
    }
}

/// A client configuration.
pub open spec fn enc_config(c: EventConfig) -> Seq<u8> {
    match c {
        EventConfig::AlwaysUnique => seq![0u8],
        EventConfig::FromName { name_hash } => seq![1u8] + u64_le(name_hash),
    }
}

/// An exit kind, one byte.
pub open spec fn enc_exit_kind(k: ExitKind) -> Seq<u8> {
    match k {
        ExitKind::Okay => seq![0u8],
        ExitKind::Crash => seq![1u8],
        ExitKind::Oom => seq![2u8],
        ExitKind::Timeout => seq![3u8],
    }
}

/// A log severity, one byte.
pub open spec fn enc_severity(s: LogSeverity) -> Seq<u8> {
    match s {
        LogSeverity::Debug => seq![0u8],
        LogSeverity::Info => seq![1u8],
        LogSeverity::Warn => seq![2u8],
        LogSeverity::Error => seq![3u8],
    }
}

/// The full encoding of an event.
pub open spec fn spec_encode_event(e: EventView) -> Seq<u8> {
    match e {
        EventView::NewTestcase {
            input,
            client_config,
            exit_kind,
            corpus_size,
            observers_buf,
            time,
            executions,
            forward_id,
        } => seq![0u8] + enc_bytes(input) + enc_config(client_config) + enc_exit_kind(exit_kind)
            + u64_le(corpus_size) + enc_opt_bytes(observers_buf) + u64_le(time) + u64_le(executions)
            + enc_opt_u32(forward_id),
        EventView::UpdateExecStats { time, executions } => seq![1u8] + u64_le(time) + u64_le(
            executions,
        ),
        EventView::Objective { objective_size, time } => seq![2u8] + u64_le(objective_size)
            + u64_le(time),
        EventView::Log { severity_level, message } => seq![3u8] + enc_severity(severity_level)
            + enc_bytes(message),
        EventView::CustomBuf { tag, buf } => seq![4u8] + enc_bytes(tag) + enc_bytes(buf),
    }
}

// ---------------------------------------------------------------------------
// Specification-level decoders.  Each reads a prefix of the sequence and
// yields the value together with the remaining suffix, or nothing.
// ---------------------------------------------------------------------------

/// Read one byte.
pub open spec fn dec_u8(s: Seq<u8>) -> Option<(u8, Seq<u8>)> {
    if s.len() >= 1 {
        Some((s[0], s.skip(1)))
    } else {
        None
    }
}

/// The 64-bit integer held by eight little-endian bytes.
pub open spec fn from_le64(s: Seq<u8>) -> u64
    recommends
        s.len() == 8,
{
    ((s[0] as u64) | ((s[1] as u64) << 8) | ((s[2] as u64) << 16) | ((s[3] as u64) << 24) | (
    (s[4] as u64) << 32) | ((s[5] as u64) << 40) | ((s[6] as u64) << 48) | ((s[7] as u64) << 56))
}

/// The 32-bit integer held by four little-endian bytes.
pub open spec fn from_le32(s: Seq<u8>) -> u32
    recommends
        s.len() == 4,
{
    ((s[0] as u32) | ((s[1] as u32) << 8) | ((s[2] as u32) << 16) | ((s[3] as u32) << 24))
}

/// Read a 64-bit little-endian integer.
pub open spec fn dec_u64(s: Seq<u8>) -> Option<(u64, Seq<u8>)> {
    if s.len() >= 8 {
        Some((from_le64(s.take(8)), s.skip(8)))
    } else {
        None
    }
}

/// Read a 32-bit little-endian integer.
pub open spec fn dec_u32(s: Seq<u8>) -> Option<(u32, Seq<u8>)> {
    if s.len() >= 4 {
        Some((from_le32(s.take(4)), s.skip(4)))
    } else {
        None
    }
}

/// Read a length-prefixed byte string.
pub open spec fn dec_bytes(s: Seq<u8>) -> Option<(Seq<u8>, Seq<u8>)> {
    match dec_u64(s) {
        None => None,
        Some((n, r)) => if r.len() >= n {
            Some((r.take(n as int), r.skip(n as int)))
        } else {
            None
        },
    }
}

/// Read an optional byte string.
pub open spec fn dec_opt_bytes(s: Seq<u8>) -> Option<(Option<Seq<u8>>, Seq<u8>)> {
    match dec_u8(s) {
        None => None,
        Some((m, r)) => if m == 0 {
            Some((None, r))
        } else if m == 1 {
            match dec_bytes(r) {
                None => None,
                Some((b, r2)) => Some((Some(b), r2)),
            }
        } else {
            None
        },
    }
}

/// Read an optional 32-bit integer.
pub open spec fn dec_opt_u32(s: Seq<u8>) -> Option<(Option<u32>, Seq<u8>)> {
    match dec_u8(s) {
        None => None,
        Some((m, r)) => if m == 0 {
            Some((None, r))
        } else if m == 1 {
            match dec_u32(r) {
                None => None,
                Some((x, r2)) => Some((Some(x), r2)),
            }
        } else {
            None
        },
    }
}

/// Read a client configuration.
pub open spec fn dec_config(s: Seq<u8>) -> Option<(EventConfig, Seq<u8>)> {
    match dec_u8(s) {
        None => None,
        Some((m, r)) => if m == 0 {
            Some((EventConfig::AlwaysUnique, r))
        } else if m == 1 {
            match dec_u64(r) {
                None => None,
                Some((h, r2)) => Some((EventConfig::FromName { name_hash: h }, r2)),
            }
        } else {
            None
        },
    }
}

/// Read an exit kind.
pub open spec fn dec_exit_kind(s: Seq<u8>) -> Option<(ExitKind, Seq<u8>)> {
    match dec_u8(s) {
        None => None,
        Some((m, r)) => if m == 0 {
            Some((ExitKind::Okay, r))
        } else if m == 1 {
            Some((ExitKind::Crash, r))
        } else if m == 2 {
            Some((ExitKind::Oom, r))
        } else if m == 3 {
            Some((ExitKind::Timeout, r))
        } else {
            None
        },
    }
}

/// Read a log severity.
pub open spec fn dec_severity(s: Seq<u8>) -> Option<(LogSeverity, Seq<u8>)> {
    match dec_u8(s) {
        None => None,
        Some((m, r)) => if m == 0 {
            Some((LogSeverity::Debug, r))
        } else if m == 1 {
            Some((LogSeverity::Info, r))
        } else if m == 2 {
            Some((LogSeverity::Warn, r))
        } else if m == 3 {
            Some((LogSeverity::Error, r))
        } else {
            None
        },
    }
}

/// Decode the fields of a `NewTestcase` record after its tag byte.
pub open spec fn dec_new_testcase(s: Seq<u8>) -> Option<(EventView, Seq<u8>)> {
    match dec_bytes(s) {
        None => None,
        Some((input, r1)) => match dec_config(r1) {
            None => None,
            Some((client_config, r2)) => match dec_exit_kind(r2) {
                None => None,
                Some((exit_kind, r3)) => match dec_u64(r3) {
                    None => None,
                    Some((corpus_size, r4)) => match dec_opt_bytes(r4) {
                        None => None,
                        Some((observers_buf, r5)) => match dec_u64(r5) {
                            None => None,
                            Some((time, r6)) => match dec_u64(r6) {
                                None => None,
                                Some((executions, r7)) => match dec_opt_u32(r7) {
                                    None => None,
                                    Some((forward_id, r8)) => Some(
                                        (
                                            EventView::NewTestcase {
                                                input,
                                                client_config,
                                                exit_kind,
                                                corpus_size,
                                                observers_buf,
                                                time,
                                                executions,
                                                forward_id,
                                            },
                                            r8,
                                        ),
                                    ),
                                },
                            },
                        },
                    },
                },
            },
        },
    }
}

/// Decode a full event record; the record must consume the whole sequence.
pub open spec fn spec_decode_event(s: Seq<u8>) -> Option<EventView> {
    match dec_u8(s) {
        None => None,
        Some((t, r)) => {
            let parsed: Option<(EventView, Seq<u8>)> = if t == 0 {
                dec_new_testcase(r)
            } else if t == 1 {
                match dec_u64(r) {
                    None => None,
                    Some((time, r1)) => match dec_u64(r1) {
                        None => None,
                        Some((executions, r2)) => Some(
                            (EventView::UpdateExecStats { time, executions }, r2),
                        ),
                    },
                }
            } else if t == 2 {
                match dec_u64(r) {
                    None => None,
                    Some((objective_size, r1)) => match dec_u64(r1) {
                        None => None,
                        Some((time, r2)) => Some(
                            (EventView::Objective { objective_size, time }, r2),
                        ),
                    },
                }
            } else if t == 3 {
                match dec_severity(r) {
                    None => None,
                    Some((severity_level, r1)) => match dec_bytes(r1) {
                        None => None,
                        Some((message, r2)) => Some(
                            (EventView::Log { severity_level, message }, r2),
                        ),
                    },
                }
            } else if t == 4 {
                match dec_bytes(r) {
                    None => None,
                    Some((tag, r1)) => match dec_bytes(r1) {
                        None => None,
                        Some((buf, r2)) => Some((EventView::CustomBuf { tag, buf }, r2)),
                    },
                }
            } else {
                None
            };
            match parsed {
                None => None,
                Some((e, rest)) => if rest.len() == 0 {
                    Some(e)
                } else {
                    None
                },
            }
        },
    }
}

// ---------------------------------------------------------------------------
// Round-trip lemmas, one per primitive, composed for the whole record.
// ---------------------------------------------------------------------------

/// Reading one byte off `seq![t] + rest` yields `t` and `rest`.
pub proof fn lemma_dec_u8(t: u8, rest: Seq<u8>)
    ensures
        dec_u8(seq![t] + rest) == Some((t, rest)),
{
    let s = seq![t] + rest;
    assert(s[0] == t);
    assert(s.skip(1) =~= rest);
}

/// The little-endian bytes of an integer decode back to it.
pub proof fn lemma_from_le64(x: u64)
    ensures
        from_le64(u64_le(x)) == x,
{
    let s = u64_le(x);
    assert(from_le64(s) == (((x & 0xff) as u8 as u64) | (((x >> 8) & 0xff) as u8 as u64) << 8 | ((
    (x >> 16) & 0xff) as u8 as u64) << 16 | (((x >> 24) & 0xff) as u8 as u64) << 24 | (((x >> 32)
        & 0xff) as u8 as u64) << 32 | (((x >> 40) & 0xff) as u8 as u64) << 40 | (((x >> 48)
        & 0xff) as u8 as u64) << 48 | (((x >> 56) & 0xff) as u8 as u64) << 56));
    assert((((x & 0xff) as u8 as u64) | (((x >> 8) & 0xff) as u8 as u64) << 8 | (((x >> 16)
        & 0xff) as u8 as u64) << 16 | (((x >> 24) & 0xff) as u8 as u64) << 24 | (((x >> 32)
        & 0xff) as u8 as u64) << 32 | (((x >> 40) & 0xff) as u8 as u64) << 40 | (((x >> 48)
        & 0xff) as u8 as u64) << 48 | (((x >> 56) & 0xff) as u8 as u64) << 56) == x)
        by (bit_vector);
}

/// The little-endian bytes of an integer decode back to it.
pub proof fn lemma_from_le32(x: u32)
    ensures
        from_le32(u32_le(x)) == x,
{
    let s = u32_le(x);
    assert(from_le32(s) == (((x & 0xff) as u8 as u32) | (((x >> 8) & 0xff) as u8 as u32) << 8 | ((
    (x >> 16) & 0xff) as u8 as u32) << 16 | (((x >> 24) & 0xff) as u8 as u32) << 24));
    assert((((x & 0xff) as u8 as u32) | (((x >> 8) & 0xff) as u8 as u32) << 8 | (((x >> 16)
        & 0xff) as u8 as u32) << 16 | (((x >> 24) & 0xff) as u8 as u32) << 24) == x)
        by (bit_vector);
}

/// Reading a 64-bit integer off its encoding followed by `rest`.
pub proof fn lemma_dec_u64(x: u64, rest: Seq<u8>)
    ensures
        dec_u64(u64_le(x) + rest) == Some((x, rest)),
{
    let s = u64_le(x) + rest;
    assert(s.take(8) =~= u64_le(x));
    assert(s.skip(8) =~= rest);
    lemma_from_le64(x);
}

/// Reading a 32-bit integer off its encoding followed by `rest`.
pub proof fn lemma_dec_u32(x: u32, rest: Seq<u8>)
    ensures
        dec_u32(u32_le(x) + rest) == Some((x, rest)),
{
    let s = u32_le(x) + rest;
    assert(s.take(4) =~= u32_le(x));
    assert(s.skip(4) =~= rest);
    lemma_from_le32(x);
}

/// Reading a byte string off its encoding followed by `rest`.
pub proof fn lemma_dec_bytes(b: Seq<u8>, rest: Seq<u8>)
    requires
        b.len() <= u64::MAX,
    ensures
        dec_bytes(enc_bytes(b) + rest) == Some((b, rest)),
{
    let s = enc_bytes(b) + rest;
    assert(s =~= u64_le(b.len() as u64) + (b + rest));
    lemma_dec_u64(b.len() as u64, b + rest);
    let n = b.len() as u64;
    let r = b + rest;
    assert(r.take(n as int) =~= b);
    assert(r.skip(n as int) =~= rest);
}

/// Reading an optional byte string off its encoding followed by `rest`.
pub proof fn lemma_dec_opt_bytes(o: Option<Seq<u8>>, rest: Seq<u8>)
    requires
        match o {
            Some(b) => b.len() <= u64::MAX,
            None => true,
        },
    ensures
        dec_opt_bytes(enc_opt_bytes(o) + rest) == Some((o, rest)),
{
    match o {
        None => {
            lemma_dec_u8(0u8, rest);
            assert(enc_opt_bytes(o) + rest =~= seq![0u8] + rest);
        },
        Some(b) => {
            assert(enc_opt_bytes(o) + rest =~= seq![1u8] + (enc_bytes(b) + rest));
            lemma_dec_u8(1u8, enc_bytes(b) + rest);
            lemma_dec_bytes(b, rest);
        },
    }
}

/// Reading an optional 32-bit integer off its encoding followed by `rest`.
pub proof fn lemma_dec_opt_u32(o: Option<u32>, rest: Seq<u8>)
    ensures
        dec_opt_u32(enc_opt_u32(o) + rest) == Some((o, rest)),
{
    match o {
        None => {
            lemma_dec_u8(0u8, rest);
            assert(enc_opt_u32(o) + rest =~= seq![0u8] + rest);
        },
        Some(x) => {
            assert(enc_opt_u32(o) + rest =~= seq![1u8] + (u32_le(x) + rest));
            lemma_dec_u8(1u8, u32_le(x) + rest);
            lemma_dec_u32(x, rest);
        },
    }
}

/// Reading a client configuration off its encoding followed by `rest`.
pub proof fn lemma_dec_config(c: EventConfig, rest: Seq<u8>)
    ensures
        dec_config(enc_config(c) + rest) == Some((c, rest)),
{
    match c {
        EventConfig::AlwaysUnique => {
            lemma_dec_u8(0u8, rest);
            assert(enc_config(c) + rest =~= seq![0u8] + rest);
        },
        EventConfig::FromName { name_hash } => {
            assert(enc_config(c) + rest =~= seq![1u8] + (u64_le(name_hash) + rest));
            lemma_dec_u8(1u8, u64_le(name_hash) + rest);
            lemma_dec_u64(name_hash, rest);
        },
    }
}

/// Reading an exit kind off its encoding followed by `rest`.
pub proof fn lemma_dec_exit_kind(k: ExitKind, rest: Seq<u8>)
    ensures
        dec_exit_kind(enc_exit_kind(k) + rest) == Some((k, rest)),
{
    match k {
        ExitKind::Okay => lemma_dec_u8(0u8, rest),
        ExitKind::Crash => lemma_dec_u8(1u8, rest),
        ExitKind::Oom => lemma_dec_u8(2u8, rest),
        ExitKind::Timeout => lemma_dec_u8(3u8, rest),
    }
}

/// Reading a log severity off its encoding followed by `rest`.
pub proof fn lemma_dec_severity(s: LogSeverity, rest: Seq<u8>)
    ensures
        dec_severity(enc_severity(s) + rest) == Some((s, rest)),
{
    match s {
        LogSeverity::Debug => lemma_dec_u8(0u8, rest),
        LogSeverity::Info => lemma_dec_u8(1u8, rest),
        LogSeverity::Warn => lemma_dec_u8(2u8, rest),
        LogSeverity::Error => lemma_dec_u8(3u8, rest),
    }
}

/// Decoding is the inverse of encoding: every well-formed event survives a
/// round trip through the wire codec unchanged.
#[verifier::rlimit(100)]
proof fn lemma_round_trip_new_testcase(e: EventView)
    requires
        event_wf(e),
        e is NewTestcase,
    ensures
        spec_decode_event(spec_encode_event(e)) == Some(e),
{
    let empty = Seq::<u8>::empty();
    match e {
        EventView::NewTestcase {
            input,
            client_config,
            exit_kind,
            corpus_size,
            observers_buf,
            time,
            executions,
            forward_id,
        } => {
            let p8 = enc_opt_u32(forward_id) + empty;
            let p7 = u64_le(executions) + p8;
            let p6 = u64_le(time) + p7;
            let p5 = enc_opt_bytes(observers_buf) + p6;
            let p4 = u64_le(corpus_size) + p5;
            let p3 = enc_exit_kind(exit_kind) + p4;
            let p2 = enc_config(client_config) + p3;
            let p1 = enc_bytes(input) + p2;
            let s = spec_encode_event(e);
            assert(s =~= seq![0u8] + p1);
            lemma_dec_u8(0u8, p1);
            assert(dec_u8(s) == Some((0u8, p1)));
            lemma_dec_bytes(input, p2);
            assert(dec_bytes(p1) == Some((input, p2)));
            lemma_dec_config(client_config, p3);
            assert(dec_config(p2) == Some((client_config, p3)));
            lemma_dec_exit_kind(exit_kind, p4);
            assert(dec_exit_kind(p3) == Some((exit_kind, p4)));
            lemma_dec_u64(corpus_size, p5);
            assert(dec_u64(p4) == Some((corpus_size, p5)));
            lemma_dec_opt_bytes(observers_buf, p6);
            assert(dec_opt_bytes(p5) == Some((observers_buf, p6)));
            lemma_dec_u64(time, p7);
            assert(dec_u64(p6) == Some((time, p7)));
            lemma_dec_u64(executions, p8);
            assert(dec_u64(p7) == Some((executions, p8)));
            lemma_dec_opt_u32(forward_id, empty);
            assert(p8 =~= enc_opt_u32(forward_id) + empty);
            assert(dec_opt_u32(p8) == Some((forward_id, empty)));
            assert(dec_new_testcase(p1) == Some((e, empty)));
            assert(spec_decode_event(s) == Some(e));
        },
        _ => {},
    }
}

/// Decoding is the inverse of encoding: every well-formed event survives a
/// round trip through the wire codec unchanged.
#[verifier::rlimit(100)]
pub proof fn lemma_event_round_trip(e: EventView)
    requires
        event_wf(e),
    ensures
        spec_decode_event(spec_encode_event(e)) == Some(e),
{
    let empty = Seq::<u8>::empty();
    match e {
        EventView::NewTestcase { .. } => {
            lemma_round_trip_new_testcase(e);
        },
        EventView::UpdateExecStats { time, executions } => {
            let p2 = u64_le(executions) + empty;
            let p1 = u64_le(time) + p2;
            assert(spec_encode_event(e) =~= seq![1u8] + p1);
            lemma_dec_u8(1u8, p1);
            lemma_dec_u64(time, p2);
            lemma_dec_u64(executions, empty);
            assert(p2 =~= u64_le(executions));
        },
        EventView::Objective { objective_size, time } => {
            let p2 = u64_le(time) + empty;
            let p1 = u64_le(objective_size) + p2;
            assert(spec_encode_event(e) =~= seq![2u8] + p1);
            lemma_dec_u8(2u8, p1);
            lemma_dec_u64(objective_size, p2);
            lemma_dec_u64(time, empty);
            assert(p2 =~= u64_le(time));
        },
        EventView::Log { severity_level, message } => {
            let p2 = enc_bytes(message) + empty;
            let p1 = enc_severity(severity_level) + p2;
            assert(spec_encode_event(e) =~= seq![3u8] + p1);
            lemma_dec_u8(3u8, p1);
            lemma_dec_severity(severity_level, p2);
            lemma_dec_bytes(message, empty);
            assert(p2 =~= enc_bytes(message));
        },
        EventView::CustomBuf { tag, buf } => {
            let p2 = enc_bytes(buf) + empty;
            let p1 = enc_bytes(tag) + p2;
            assert(spec_encode_event(e) =~= seq![4u8] + p1);
            lemma_dec_u8(4u8, p1);
            lemma_dec_bytes(tag, p2);
            lemma_dec_bytes(buf, empty);
            assert(p2 =~= enc_bytes(buf));
        },
    }
}

// ---------------------------------------------------------------------------
// Executable encoder.
// ---------------------------------------------------------------------------

/// Append the little-endian bytes of a 64-bit integer.
fn put_u64(out: &mut Vec<u8>, x: u64)
    ensures
        final (out)@ == old(out)@ + u64_le(x),
{
    out.push((x & 0xff) as u8);
    out.push(((x >> 8) & 0xff) as u8);
    out.push(((x >> 16) & 0xff) as u8);
    out.push(((x >> 24) & 0xff) as u8);
    out.push(((x >> 32) & 0xff) as u8);
    out.push(((x >> 40) & 0xff) as u8);
    out.push(((x >> 48) & 0xff) as u8);
    out.push(((x >> 56) & 0xff) as u8);
    proof {
        assert(out@ =~= old(out)@ + u64_le(x));
    }
}

/// Append the little-endian bytes of a 32-bit integer.
fn put_u32(out: &mut Vec<u8>, x: u32)
    ensures
        final (out)@ == old(out)@ + u32_le(x),
{
    out.push((x & 0xff) as u8);
    out.push(((x >> 8) & 0xff) as u8);
    out.push(((x >> 16) & 0xff) as u8);
    out.push(((x >> 24) & 0xff) as u8);
    proof {
        assert(out@ =~= old(out)@ + u32_le(x));
    }
}

/// Append a length-prefixed byte string.
fn put_bytes(out: &mut Vec<u8>, b: &Vec<u8>)
    ensures
        final (out)@ == old(out)@ + enc_bytes(b@),
{
    put_u64(out, b.len() as u64);
    let mut i: usize = 0;
    while i < b.len()
        invariant
            i <= b@.len(),
            out@ =~= old(out)@ + u64_le(b@.len() as u64) + b@.take(i as int),
        decreases b@.len() - i,
    {
        out.push(b[i]);
        i = i + 1;
    }
    proof {
        assert(out@ =~= old(out)@ + enc_bytes(b@));
    }
}

/// Encode an event to its wire record.
#[verifier::rlimit(60)]
pub fn encode_event(e: &Event) -> (r: Vec<u8>)
    ensures
        r@ == spec_encode_event(e@),
{
    let mut out: Vec<u8> = Vec::new();
    match e {
        Event::NewTestcase {
            input,
            client_config,
            exit_kind,
            corpus_size,
            observers_buf,
            time,
            executions,
            forward_id,
        } => {
            out.push(0u8);
            put_bytes(&mut out, input);
            match client_config {
                EventConfig::AlwaysUnique => out.push(0u8),
                EventConfig::FromName { name_hash } => {
                    out.push(1u8);
                    put_u64(&mut out, *name_hash);
                },
            }
            match exit_kind {
                ExitKind::Okay => out.push(0u8),
                ExitKind::Crash => out.push(1u8),
                ExitKind::Oom => out.push(2u8),
                ExitKind::Timeout => out.push(3u8),
            }
            put_u64(&mut out, *corpus_size);
            match observers_buf {
                None => out.push(0u8),
                Some(ob) => {
                    out.push(1u8);
                    put_bytes(&mut out, ob);
                },
            }
            put_u64(&mut out, *time);
            put_u64(&mut out, *executions);
            match forward_id {
                None => out.push(0u8),
                Some(fid) => {
                    out.push(1u8);
                    put_u32(&mut out, *fid);
                },
            }
            proof {
                assert(out@ =~= spec_encode_event(e@));
            }
        },
        Event::UpdateExecStats { time, executions } => {
            out.push(1u8);
            put_u64(&mut out, *time);
            put_u64(&mut out, *executions);
            proof {
                assert(out@ =~= spec_encode_event(e@));
            }
        },
        Event::Objective { objective_size, time } => {
            out.push(2u8);
            put_u64(&mut out, *objective_size);
            put_u64(&mut out, *time);
            proof {
                assert(out@ =~= spec_encode_event(e@));
            }
        },
        Event::Log { severity_level, message } => {
            out.push(3u8);
            match severity_level {
                LogSeverity::Debug => out.push(0u8),
                LogSeverity::Info => out.push(1u8),
                LogSeverity::Warn => out.push(2u8),
                LogSeverity::Error => out.push(3u8),
            }
            put_bytes(&mut out, message);
            proof {
                assert(out@ =~= spec_encode_event(e@));
            }
        },
        Event::CustomBuf { tag, buf } => {
            out.push(4u8);
            put_bytes(&mut out, tag);
            put_bytes(&mut out, buf);
            proof {
                assert(out@ =~= spec_encode_event(e@));
            }
        },
    }
    out
}

// ---------------------------------------------------------------------------
// Executable decoder: a cursor over the record, shown equal to the
// specification decoders step by step.
// ---------------------------------------------------------------------------

/// Read one byte at the cursor.
fn take_u8(b: &Vec<u8>, pos: usize) -> (r: Option<(u8, usize)>)
    requires
        pos <= b@.len(),
    ensures
        match r {
            Some(p) => dec_u8(b@.skip(pos as int)) == Some((p.0, b@.skip(p.1 as int))) && pos < p.1
                <= b@.len(),
            None => dec_u8(b@.skip(pos as int)) is None,
        },
{
    if pos < b.len() {
        proof {
            assert(b@.skip(pos as int).skip(1) =~= b@.skip(pos as int + 1));
        }
        Some((b[pos], pos + 1))
    } else {
        None
    }
}

/// Read a 64-bit little-endian integer at the cursor.
fn take_u64(b: &Vec<u8>, pos: usize) -> (r: Option<(u64, usize)>)
    requires
        pos <= b@.len(),
    ensures
        match r {
            Some(p) => dec_u64(b@.skip(pos as int)) == Some((p.0, b@.skip(p.1 as int))) && pos < p.1
                <= b@.len(),
            None => dec_u64(b@.skip(pos as int)) is None,
        },
{
    if b.len() - pos >= 8 {
        let v = (b[pos] as u64) | ((b[pos + 1] as u64) << 8) | ((b[pos + 2] as u64) << 16) | ((b[pos
            + 3] as u64) << 24) | ((b[pos + 4] as u64) << 32) | ((b[pos + 5] as u64) << 40) | ((
        b[pos + 6] as u64) << 48) | ((b[pos + 7] as u64) << 56);
        proof {
            let s = b@.skip(pos as int);
            assert forall|i: int| 0 <= i < 8 implies s.take(8)[i] == b@[pos as int + i] by {}
            assert(from_le64(s.take(8)) == v);
            assert(s.skip(8) =~= b@.skip(pos as int + 8));
        }
        Some((v, pos + 8))
    } else {
        None
    }
}

/// Read a 32-bit little-endian integer at the cursor.
fn take_u32(b: &Vec<u8>, pos: usize) -> (r: Option<(u32, usize)>)
    requires
        pos <= b@.len(),
    ensures
        match r {
            Some(p) => dec_u32(b@.skip(pos as int)) == Some((p.0, b@.skip(p.1 as int))) && pos < p.1
                <= b@.len(),
            None => dec_u32(b@.skip(pos as int)) is None,
        },
{
    if b.len() - pos >= 4 {
        let v = (b[pos] as u32) | ((b[pos + 1] as u32) << 8) | ((b[pos + 2] as u32) << 16) | ((b[pos
            + 3] as u32) << 24);
        proof {
            let s = b@.skip(pos as int);
            assert forall|i: int| 0 <= i < 4 implies s.take(4)[i] == b@[pos as int + i] by {}
            assert(from_le32(s.take(4)) == v);
            assert(s.skip(4) =~= b@.skip(pos as int + 4));
        }
        Some((v, pos + 4))
    } else {
        None
    }
}

/// Read a length-prefixed byte string at the cursor.
fn take_bytes(b: &Vec<u8>, pos: usize) -> (r: Option<(Vec<u8>, usize)>)
    requires
        pos <= b@.len(),
    ensures
        match r {
            Some(p) => dec_bytes(b@.skip(pos as int)) == Some((p.0@, b@.skip(p.1 as int))) && pos
                < p.1 <= b@.len(),
            None => dec_bytes(b@.skip(pos as int)) is None,
        },
{
    match take_u64(b, pos) {
        None => None,
        Some((n, p1)) => {
            let rem = b.len() - p1;
            if n <= rem as u64 {
                let n_us = n as usize;
                let end = p1 + n_us;
                let mut v: Vec<u8> = Vec::new();
                let mut i: usize = 0;
                while i < n_us
                    invariant
                        i <= n_us,
                        end == p1 + n_us,
                        end <= b@.len(),
                        n_us == n,
                        v@ =~= b@.subrange(p1 as int, p1 as int + i),
                    decreases n_us - i,
                {
                    v.push(b[p1 + i]);
                    i = i + 1;
                }
                proof {
                    let s = b@.skip(pos as int);
                    let rseq = b@.skip(p1 as int);
                    assert(rseq.len() >= n);
                    assert(rseq.take(n as int) =~= b@.subrange(p1 as int, p1 as int + n));
                    assert(v@ =~= rseq.take(n as int));
                    assert(rseq.skip(n as int) =~= b@.skip(p1 as int + n));
                }
                Some((v, p1 + n_us))
            } else {
                None
            }
        },
    }
}

/// Read an optional byte string at the cursor.
fn take_opt_bytes(b: &Vec<u8>, pos: usize) -> (r: Option<(Option<Vec<u8>>, usize)>)
    requires
        pos <= b@.len(),
    ensures
        match r {
            Some(p) => dec_opt_bytes(b@.skip(pos as int)) == Some(
                (
                    match p.0 {
                        Some(v) => Some(v@),
                        None => None,
                    },
                    b@.skip(p.1 as int),
                ),
            ) && pos < p.1 <= b@.len(),
            None => dec_opt_bytes(b@.skip(pos as int)) is None,
        },
{
    match take_u8(b, pos) {
        None => None,
        Some((m, p1)) => {
            if m == 0 {
                Some((None, p1))
            } else if m == 1 {
                match take_bytes(b, p1) {
                    None => None,
                    Some((v, p2)) => Some((Some(v), p2)),
                }
            } else {
                None
            }
        },
    }
}

/// Read an optional 32-bit integer at the cursor.
fn take_opt_u32(b: &Vec<u8>, pos: usize) -> (r: Option<(Option<u32>, usize)>)
    requires
        pos <= b@.len(),
    ensures
        match r {
            Some(p) => dec_opt_u32(b@.skip(pos as int)) == Some((p.0, b@.skip(p.1 as int))) && pos
                < p.1 <= b@.len(),
            None => dec_opt_u32(b@.skip(pos as int)) is None,
        },
{
    match take_u8(b, pos) {
        None => None,
        Some((m, p1)) => {
            if m == 0 {
                Some((None, p1))
            } else if m == 1 {
                match take_u32(b, p1) {
                    None => None,
                    Some((v, p2)) => Some((Some(v), p2)),
                }
            } else {
                None
            }
        },
    }
}

/// Read a client configuration at the cursor.
fn take_config(b: &Vec<u8>, pos: usize) -> (r: Option<(EventConfig, usize)>)
    requires
        pos <= b@.len(),
    ensures
        match r {
            Some(p) => dec_config(b@.skip(pos as int)) == Some((p.0, b@.skip(p.1 as int))) && pos
                < p.1 <= b@.len(),
            None => dec_config(b@.skip(pos as int)) is None,
        },
{
    match take_u8(b, pos) {
        None => None,
        Some((m, p1)) => {
            if m == 0 {
                Some((EventConfig::AlwaysUnique, p1))
            } else if m == 1 {
                match take_u64(b, p1) {
                    None => None,
                    Some((h, p2)) => Some((EventConfig::FromName { name_hash: h }, p2)),
                }
            } else {
                None
            }
        },
    }
}

/// Read an exit kind at the cursor.
fn take_exit_kind(b: &Vec<u8>, pos: usize) -> (r: Option<(ExitKind, usize)>)
    requires
        pos <= b@.len(),
    ensures
        match r {
            Some(p) => dec_exit_kind(b@.skip(pos as int)) == Some((p.0, b@.skip(p.1 as int)))
                && pos < p.1 <= b@.len(),
            None => dec_exit_kind(b@.skip(pos as int)) is None,
        },
{
    match take_u8(b, pos) {
        None => None,
        Some((m, p1)) => {
            if m == 0 {
                Some((ExitKind::Okay, p1))
            } else if m == 1 {
                Some((ExitKind::Crash, p1))
            } else if m == 2 {
                Some((ExitKind::Oom, p1))
            } else if m == 3 {
                Some((ExitKind::Timeout, p1))
            } else {
                None
            }
        },
    }
}

/// Read a log severity at the cursor.
fn take_severity(b: &Vec<u8>, pos: usize) -> (r: Option<(LogSeverity, usize)>)
    requires
        pos <= b@.len(),
    ensures
        match r {
            Some(p) => dec_severity(b@.skip(pos as int)) == Some((p.0, b@.skip(p.1 as int))) && pos
                < p.1 <= b@.len(),
            None => dec_severity(b@.skip(pos as int)) is None,
        },
{
    match take_u8(b, pos) {
        None => None,
        Some((m, p1)) => {
            if m == 0 {
                Some((LogSeverity::Debug, p1))
            } else if m == 1 {
                Some((LogSeverity::Info, p1))
            } else if m == 2 {
                Some((LogSeverity::Warn, p1))
            } else if m == 3 {
                Some((LogSeverity::Error, p1))
            } else {
                None
            }
        },
    }
}

/// Decode the fields of a `NewTestcase` record at the cursor.
#[verifier::rlimit(100)]
fn decode_new_testcase(b: &Vec<u8>, pos: usize) -> (r: Option<(Event, usize)>)
    requires
        pos <= b@.len(),
    ensures
        match r {
            Some(p) => dec_new_testcase(b@.skip(pos as int)) == Some((p.0@, b@.skip(p.1 as int)))
                && pos <= p.1 <= b@.len(),
            None => dec_new_testcase(b@.skip(pos as int)) is None,
        },
{
    let (input, p1) = match take_bytes(b, pos) {
        Some(x) => x,
        None => {
            return None;
        },
    };
    let (client_config, p2) = match take_config(b, p1) {
        Some(x) => x,
        None => {
            return None;
        },
    };
    let (exit_kind, p3) = match take_exit_kind(b, p2) {
        Some(x) => x,
        None => {
            return None;
        },
    };
    let (corpus_size, p4) = match take_u64(b, p3) {
        Some(x) => x,
        None => {
            return None;
        },
    };
    let (observers_buf, p5) = match take_opt_bytes(b, p4) {
        Some(x) => x,
        None => {
            return None;
        },
    };
    let (time, p6) = match take_u64(b, p5) {
        Some(x) => x,
        None => {
            return None;
        },
    };
    let (executions, p7) = match take_u64(b, p6) {
        Some(x) => x,
        None => {
            return None;
        },
    };
    let (forward_id, p8) = match take_opt_u32(b, p7) {
        Some(x) => x,
        None => {
            return None;
        },
    };
    let e = Event::NewTestcase {
        input,
        client_config,
        exit_kind,
        corpus_size,
        observers_buf,
        time,
        executions,
        forward_id,
    };
    proof {
        assert(dec_new_testcase(b@.skip(pos as int)) == Some((e@, b@.skip(p8 as int))));
    }
    Some((e, p8))
}

/// Decode a full wire record back to an event; a malformed or partial record
/// decodes to nothing.
#[verifier::rlimit(100)]
pub fn decode_event(b: &Vec<u8>) -> (r: Option<Event>)
    ensures
        match r {
            Some(e) => spec_decode_event(b@) == Some(e@),
            None => spec_decode_event(b@) is None,
        },
{
    proof {
        assert(b@.skip(0) =~= b@);
    }
    let (t, p0) = match take_u8(b, 0) {
        Some(x) => x,
        None => {
            return None;
        },
    };
    if t == 0 {
        let (e, p8) = match decode_new_testcase(b, p0) {
            Some(x) => x,
            None => {
                return None;
            },
        };
        if p8 != b.len() {
            return None;
        }
        proof {
            assert(b@.skip(p8 as int).len() == 0);
            assert(spec_decode_event(b@) == Some(e@));
        }
        Some(e)
    } else if t == 1 {
        let (time, p1) = match take_u64(b, p0) {
            Some(x) => x,
            None => {
                return None;
            },
        };
        let (executions, p2) = match take_u64(b, p1) {
            Some(x) => x,
            None => {
                return None;
            },
        };
        if p2 != b.len() {
            return None;
        }
        Some(Event::UpdateExecStats { time, executions })
    } else if t == 2 {
        let (objective_size, p1) = match take_u64(b, p0) {
            Some(x) => x,
            None => {
                return None;
            },
        };
        let (time, p2) = match take_u64(b, p1) {
            Some(x) => x,
            None => {
                return None;
            },
        };
        if p2 != b.len() {
            return None;
        }
        Some(Event::Objective { objective_size, time })
    } else if t == 3 {
        let (severity_level, p1) = match take_severity(b, p0) {
            Some(x) => x,
            None => {
                return None;
            },
        };
        let (message, p2) = match take_bytes(b, p1) {
            Some(x) => x,
            None => {
                return None;
            },
        };
        if p2 != b.len() {
            return None;
        }
        Some(Event::Log { severity_level, message })
    } else if t == 4 {
        let (tag, p1) = match take_bytes(b, p0) {
            Some(x) => x,
            None => {
                return None;
            },
        };
        let (buf, p2) = match take_bytes(b, p1) {
            Some(x) => x,
            None => {
                return None;
            },
        };
        if p2 != b.len() {
            return None;
        }
        Some(Event::CustomBuf { tag, buf })
    } else {
        None
    }
}

} // verus!

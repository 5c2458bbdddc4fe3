//! The event model: what fuzzer nodes tell each other.

use vstd::prelude::*;

verus! {

/// Describes the configuration of a client, so that the main evaluator can
/// tell whether a remote observer snapshot was produced by a compatible
/// setup.
#[derive(Clone, Copy, Debug, PartialEq, Eq, Structural)]
pub enum EventConfig {
    /// This client never matches any other; its snapshots are never trusted.
    AlwaysUnique,
    /// The configuration is identified by a hash of its name.
    FromName { name_hash: u64 },
}

impl EventConfig {
    /// Whether a snapshot from a client configured as `self` can be trusted
    /// by a client configured as `other`: both must carry the same name hash.
    /// `AlwaysUnique` matches nothing, forcing local re-execution.
    pub open spec fn spec_match_with(self, other: EventConfig) -> bool {
        match (self, other) {
            (
                EventConfig::FromName { name_hash: a },
                EventConfig::FromName { name_hash: b },
            ) => a == b,
            _ => false,
        }
    }

    /// Decide compatibility with another client's configuration.
    pub fn match_with(&self, other: &EventConfig) -> (r: bool)
        ensures
            r == self.spec_match_with(*other),
    {
        match (self, other) {
            (
                EventConfig::FromName { name_hash: a },
                EventConfig::FromName { name_hash: b },
            ) => a == b,
            _ => false,
        }
    }
}

/// How a target execution ended.
#[derive(Clone, Copy, Debug, PartialEq, Eq, Structural)]
pub enum ExitKind {
    /// The target ran to completion.
    Okay,
    /// The target crashed.
    Crash,
    /// The target ran out of memory.
    Oom,
    /// The target timed out.
    Timeout,
}

/// Severity of a log event, lowest first.
#[derive(Clone, Copy, Debug, PartialEq, Eq, Structural)]
pub enum LogSeverity {
    Debug,
    Info,
    Warn,
    Error,
}

/// An event crossing the fabric, serialized as a tagged binary record.
///
/// `NewTestcase` is the only variant carrying a candidate input; everything
/// else is liveness, logging or housekeeping, opaque to the centralized path.
#[derive(Debug, PartialEq, Eq)]
pub enum Event {
    /// A novel input was found.  `forward_id` is set by the secondary to its
    /// own client identifier before the event crosses the centralized
    /// transport, so the main evaluator can attribute and loop-suppress.
    NewTestcase {
        input: Vec<u8>,
        client_config: EventConfig,
        exit_kind: ExitKind,
        corpus_size: u64,
        observers_buf: Option<Vec<u8>>,
        time: u64,
        executions: u64,
        forward_id: Option<u32>,
    },
    /// Heartbeat: keeps the sender's liveness timer fresh at the broker.
    UpdateExecStats { time: u64, executions: u64 },
    /// A solution was found.
    Objective { objective_size: u64, time: u64 },
    /// A log line for the monitor.
    Log { severity_level: LogSeverity, message: Vec<u8> },
    /// An application-defined payload, passed through untouched.
    CustomBuf { tag: Vec<u8>, buf: Vec<u8> },
}

/// The mathematical shape of an [`Event`]: byte vectors become sequences.
/// All contracts in this crate speak about events through this view.
#[verifier::ext_equal]
pub ghost enum EventView {
    NewTestcase {
        input: Seq<u8>,
        client_config: EventConfig,
        exit_kind: ExitKind,
        corpus_size: u64,
        observers_buf: Option<Seq<u8>>,
        time: u64,
        executions: u64,
        forward_id: Option<u32>,
    },
    UpdateExecStats { time: u64, executions: u64 },
    Objective { objective_size: u64, time: u64 },
    Log { severity_level: LogSeverity, message: Seq<u8> },
    CustomBuf { tag: Seq<u8>, buf: Seq<u8> },
}

impl View for Event {
    type V = EventView;

    open spec fn view(&self) -> EventView {
        match *self {
            Event::NewTestcase {
                input,
                client_config,
                exit_kind,
                corpus_size,
                observers_buf,
                time,
                executions,
                forward_id,
            } => EventView::NewTestcase {
                input: input@,
                client_config,
                exit_kind,
                corpus_size,
                observers_buf: match observers_buf {
                    Some(b) => Some(b@),
                    None => None,
                },
                time,
                executions,
                forward_id,
            },
            Event::UpdateExecStats { time, executions } => EventView::UpdateExecStats {
                time,
                executions,
            },
            Event::Objective { objective_size, time } => EventView::Objective {
                objective_size,
                time,
            },
            Event::Log { severity_level, message } => EventView::Log {
                severity_level,
                message: message@,
            },
            Event::CustomBuf { tag, buf } => EventView::CustomBuf { tag: tag@, buf: buf@ },
        }
    }
}

/// Every byte-string field is short enough for its length to be written as a
/// 64-bit prefix on the wire.  Holds of every event built from real vectors.
pub open spec fn event_wf(e: EventView) -> bool {
    match e {
        EventView::NewTestcase { input, observers_buf, .. } => {
            &&& input.len() <= u64::MAX
            &&& match observers_buf {
                Some(b) => b.len() <= u64::MAX,
                None => true,
            }
        },
        EventView::Log { message, .. } => message.len() <= u64::MAX,
        EventView::CustomBuf { tag, buf } => tag.len() <= u64::MAX && buf.len() <= u64::MAX,
        _ => true,
    }
}

/// Byte-for-byte copy of a byte vector.
pub fn clone_bytes(b: &Vec<u8>) -> (r: Vec<u8>)
    ensures
        r@ == b@,
{
    let mut out: Vec<u8> = Vec::new();
    let mut i: usize = 0;
    while i < b.len()
        invariant
            i <= b@.len(),
            out@ =~= b@.take(i as int),
        decreases b@.len() - i,
    {
        out.push(b[i]);
        i = i + 1;
    }
    proof {
        assert(out@ =~= b@);
    }
    out
}

} // verus!

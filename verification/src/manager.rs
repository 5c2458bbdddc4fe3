//! The centralized event manager: the client-side state machines.
//!
//! Every fuzzer client and the main evaluator runs one manager, wrapping an
//! inner (main-broker-facing) event manager and a client of the centralized
//! transport.  A secondary forwards every novel input to the centralized
//! broker and never publishes it to the main broker itself; the main
//! evaluator drains the centralized channel, re-evaluates forwarded inputs,
//! and publishes only the accepted ones through its inner manager.

use vstd::prelude::*;

use crate::codec::{decode_event, encode_event, spec_encode_event};
use crate::compress::{gzip_compress, gzip_decompress, COMPRESS_THRESHOLD};
use crate::errors::Error;
use crate::events::{Event, EventConfig, EventView, ExitKind, LogSeverity};
use crate::state::FuzzState;
use crate::wire::{frame_carries, frame_compressed, frame_event, frame_record, Frame, FrameView, FLAG_COMPRESSED, FLAG_INITIALIZED, TAG_TO_MAIN};

verus! {

/// Cost factor of the adaptive-serialization policy: observer snapshots are
/// worth shipping while their cumulative codec time stays below this multiple
/// of the reference execution time.  Twice the usual factor, because the
/// centralized path does the serialization work twice.
pub const SERIALIZE_TIME_FACTOR: u64 = 4;

/// Rate limit of the adaptive-serialization policy: at most this percentage
/// of recent decisions may come out as "serialize".
pub const SERIALIZE_PERCENTAGE_THRESHOLD: u64 = 80;

/// One evaluation the main evaluator asked its fuzzer for.
#[verifier::ext_equal]
pub ghost struct EvalCall {
    /// The candidate input.
    pub input: Seq<u8>,
    /// Whether the remote observer snapshot was trusted (no re-execution).
    pub trusted: bool,
    /// The corpus entry the input was accepted as, if it was.
    pub accepted: Option<u64>,
}

/// The fuzzer, as the main evaluator sees it: it re-executes or directly
/// processes forwarded inputs against the authoritative corpus and says which
/// were accepted.  What it accepts is its own business; the contracts only
/// record what was asked and answered.
pub trait Evaluator: Sized {
    /// Every evaluation asked so far, oldest first.
    spec fn calls(&self) -> Seq<EvalCall>;

    /// Process a forwarded input together with its remote observer snapshot,
    /// trusting the snapshot instead of re-executing.
    fn execute_and_process(
        &mut self,
        state: &mut FuzzState,
        input: &Vec<u8>,
        observers_buf: &Vec<u8>,
        exit_kind: ExitKind,
    ) -> (r: Result<Option<u64>, Error>)
        requires
            old(state).inv(),
        ensures
            final (state).inv(),
            r matches Ok(res) ==> final (self).calls() == old(self).calls().push(
                EvalCall { input: input@, trusted: true, accepted: res },
            ),
            r is Err ==> final (self).calls() == old(self).calls(),
    ;

    /// Evaluate a forwarded input by re-executing it locally.
    fn evaluate_input_with_observers(&mut self, state: &mut FuzzState, input: &Vec<u8>) -> (r:
        Result<Option<u64>, Error>)
        requires
            old(state).inv(),
        ensures
            final (state).inv(),
            r matches Ok(res) ==> final (self).calls() == old(self).calls().push(
                EvalCall { input: input@, trusted: false, accepted: res },
            ),
            r is Err ==> final (self).calls() == old(self).calls(),
    ;
}

/// The inner, main-broker-facing event manager that the centralized one
/// wraps.  The centralized manager is transparent to its semantics except
/// for the two diversions on the centralized channel.
pub trait InnerManager: Sized {
    /// Every event fired into this manager so far, oldest first.
    spec fn fired(&self) -> Seq<EventView>;

    /// The manager's stable identifier.
    spec fn id_spec(&self) -> usize;

    /// The client configuration this manager answers for.
    spec fn config_spec(&self) -> EventConfig;

    /// Cumulative time spent serializing observer snapshots.
    spec fn serialization_time_spec(&self) -> u64;

    /// Cumulative time spent deserializing observer snapshots.
    spec fn deserialization_time_spec(&self) -> u64;

    /// How many snapshots were serialized.
    spec fn serializations_cnt_spec(&self) -> u64;

    /// How often the adaptive policy was asked.
    spec fn should_serialize_cnt_spec(&self) -> u64;

    /// Fire an event into this manager.
    fn fire(&mut self, state: &mut FuzzState, event: Event) -> (r: Result<(), Error>)
        requires
            old(state).inv(),
        ensures
            final (state).inv(),
            final (self).id_spec() == old(self).id_spec(),
            final (self).config_spec() == old(self).config_spec(),
            r matches Ok(()) ==> final (self).fired() == old(self).fired().push(event@),
            r is Err ==> final (self).fired() == old(self).fired(),
    ;

    /// Fire a log line into this manager.
    fn log(&mut self, state: &mut FuzzState, severity_level: LogSeverity, message: Vec<u8>) -> (r:
        Result<(), Error>)
        requires
            old(state).inv(),
        ensures
            final (state).inv(),
            final (self).id_spec() == old(self).id_spec(),
            final (self).config_spec() == old(self).config_spec(),
            r matches Ok(()) ==> final (self).fired() == old(self).fired().push(
                EventView::Log { severity_level, message: message@ },
            ),
            r is Err ==> final (self).fired() == old(self).fired(),
    ;

    /// Process the events this manager received, returning how many.
    fn process(&mut self, state: &mut FuzzState) -> (r: Result<usize, Error>)
        requires
            old(state).inv(),
        ensures
            final (state).inv(),
            final (self).id_spec() == old(self).id_spec(),
            final (self).config_spec() == old(self).config_spec(),
    ;

    /// Prepare for a process restart.
    fn on_restart(&mut self, state: &mut FuzzState) -> (r: Result<(), Error>)
        requires
            old(state).inv(),
        ensures
            final (state).inv(),
            final (self).id_spec() == old(self).id_spec(),
            final (self).config_spec() == old(self).config_spec(),
    ;

    /// Announce that this client is exiting.
    fn send_exiting(&mut self) -> (r: Result<(), Error>)
        ensures
            final (self).id_spec() == old(self).id_spec(),
            final (self).config_spec() == old(self).config_spec(),
    ;

    /// Block until a restart is safe for this manager.
    fn await_restart_safe(&mut self)
        ensures
            final (self).id_spec() == old(self).id_spec(),
            final (self).config_spec() == old(self).config_spec(),
    ;

    /// Whether events should be sent at all.
    fn should_send(&self) -> bool;

    /// The manager's identifier.
    fn mgr_id(&self) -> (r: usize)
        ensures
            r == self.id_spec(),
    ;

    /// The client configuration.
    fn configuration(&self) -> (r: EventConfig)
        ensures
            r == self.config_spec(),
    ;

    /// Cumulative observer-serialization time.
    fn serialization_time(&self) -> (r: u64)
        ensures
            r == self.serialization_time_spec(),
    ;

    /// Cumulative observer-deserialization time.
    fn deserialization_time(&self) -> (r: u64)
        ensures
            r == self.deserialization_time_spec(),
    ;

    /// How many snapshots were serialized.
    fn serializations_cnt(&self) -> (r: u64)
        ensures
            r == self.serializations_cnt_spec(),
    ;

    /// How often the adaptive policy was asked.
    fn should_serialize_cnt(&self) -> (r: u64)
        ensures
            r == self.should_serialize_cnt_spec(),
    ;

    /// Count one more query of the adaptive policy.
    fn bump_should_serialize(&mut self)
        ensures
            final (self).fired() == old(self).fired(),
            final (self).id_spec() == old(self).id_spec(),
            final (self).config_spec() == old(self).config_spec(),
            final (self).serialization_time_spec() == old(self).serialization_time_spec(),
            final (self).deserialization_time_spec() == old(self).deserialization_time_spec(),
            final (self).serializations_cnt_spec() == old(self).serializations_cnt_spec(),
            final (self).should_serialize_cnt_spec() == (if old(self).should_serialize_cnt_spec()
                < u64::MAX {
                old(self).should_serialize_cnt_spec() + 1
            } else {
                u64::MAX as int
            }),
    ;

    /// Count one more serialized snapshot and the time it cost.
    fn note_serialization(&mut self, cost: u64)
        ensures
            final (self).fired() == old(self).fired(),
            final (self).id_spec() == old(self).id_spec(),
            final (self).config_spec() == old(self).config_spec(),
            final (self).deserialization_time_spec() == old(self).deserialization_time_spec(),
            final (self).should_serialize_cnt_spec() == old(self).should_serialize_cnt_spec(),
            final (self).serializations_cnt_spec() == (if old(self).serializations_cnt_spec()
                < u64::MAX {
                old(self).serializations_cnt_spec() + 1
            } else {
                u64::MAX as int
            }),
            final (self).serialization_time_spec() == (if old(self).serialization_time_spec()
                + cost <= u64::MAX {
                (old(self).serialization_time_spec() + cost) as u64
            } else {
                u64::MAX
            }),
    ;

    /// Add the time one snapshot took to deserialize.
    fn note_deserialization(&mut self, cost: u64)
        ensures
            final (self).fired() == old(self).fired(),
            final (self).id_spec() == old(self).id_spec(),
            final (self).config_spec() == old(self).config_spec(),
            final (self).serialization_time_spec() == old(self).serialization_time_spec(),
            final (self).serializations_cnt_spec() == old(self).serializations_cnt_spec(),
            final (self).should_serialize_cnt_spec() == old(self).should_serialize_cnt_spec(),
            final (self).deserialization_time_spec() == (if old(self).deserialization_time_spec()
                + cost <= u64::MAX {
                (old(self).deserialization_time_spec() + cost) as u64
            } else {
                u64::MAX
            }),
    ;
}

/// A client of the centralized transport: an abstract reliable channel of
/// tagged byte messages.  The transport stamps each sent frame with this
/// client's identifier and preserves per-sender order.
pub trait Transport: Sized {
    /// Every frame this client sent, oldest first.
    spec fn sent(&self) -> Seq<FrameView>;

    /// The frames waiting to be received, arrival order.
    spec fn inbox(&self) -> Seq<FrameView>;

    /// The client identifier the broker assigned on attach.
    spec fn id_spec(&self) -> u32;

    /// This client's identifier.
    fn sender_id(&self) -> (r: u32)
        ensures
            r == self.id_spec(),
    ;

    /// Send one frame.
    fn send_frame(&mut self, tag: u32, flags: u32, payload: Vec<u8>) -> (r: Result<(), Error>)
        ensures
            final (self).id_spec() == old(self).id_spec(),
            final (self).inbox() == old(self).inbox(),
            r matches Ok(()) ==> final (self).sent() == old(self).sent().push(
                FrameView { tag, flags, client_id: old(self).id_spec(), payload: payload@ },
            ),
            r is Err ==> final (self).sent() == old(self).sent(),
    ;

    /// Receive the next waiting frame, without blocking.
    fn recv_frame(&mut self) -> (r: Result<Option<Frame>, Error>)
        ensures
            final (self).id_spec() == old(self).id_spec(),
            final (self).sent() == old(self).sent(),
            match r {
                Ok(Some(f)) => old(self).inbox().len() > 0 && f@ == old(self).inbox()[0] && final(self).inbox() == old(self).inbox().drop_first(),
                Ok(None) => old(self).inbox().len() == 0 && final (self).inbox() == old(self).inbox(),
                Err(_) => final (self).inbox() == old(self).inbox(),
            },
    ;

    /// Block until the peer side has advanced past our pages: afterwards they
    /// are safe to unmap.
    fn await_safe_to_unmap(&mut self)
        ensures
            final (self).id_spec() == old(self).id_spec(),
            final (self).sent() == old(self).sent(),
            final (self).inbox() == old(self).inbox(),
    ;

    /// Announce that this client is exiting.
    fn send_exiting(&mut self) -> (r: Result<(), Error>)
        ensures
            final (self).id_spec() == old(self).id_spec(),
            final (self).sent() == old(self).sent(),
            final (self).inbox() == old(self).inbox(),
    ;
}

/// The event for the wire: a `NewTestcase` with the forwarder's identifier
/// stamped in, anything else unchanged.
pub open spec fn stamp_forward_id(e: EventView, id: u32) -> EventView {
    match e {
        EventView::NewTestcase {
            input,
            client_config,
            exit_kind,
            corpus_size,
            observers_buf,
            time,
            executions,
            forward_id,
        } => EventView::NewTestcase {
            input,
            client_config,
            exit_kind,
            corpus_size,
            observers_buf,
            time,
            executions,
            forward_id: Some(id),
        },
        _ => e,
    }
}

/// The input carried by a `NewTestcase`.
pub open spec fn new_testcase_input(e: EventView) -> Seq<u8> {
    match e {
        EventView::NewTestcase { input, .. } => input,
        _ => Seq::empty(),
    }
}

/// Whether the main evaluator may trust the remote observer snapshot of a
/// `NewTestcase`: the sender's configuration matches ours and a snapshot was
/// shipped.
pub open spec fn trusts_snapshot(e: EventView, our_config: EventConfig) -> bool {
    match e {
        EventView::NewTestcase { client_config, observers_buf, .. } => client_config.spec_match_with(
            our_config,
        ) && observers_buf is Some,
        _ => false,
    }
}

/// How many of the frames come from a sender other than `self_id`.
pub open spec fn count_foreign(frames: Seq<FrameView>, self_id: u32) -> nat
    decreases frames.len(),
{
    if frames.len() == 0 {
        0
    } else {
        count_foreign(frames.drop_first(), self_id) + if frames[0].client_id != self_id {
            1nat
        } else {
            0nat
        }
    }
}

/// The messages a drain of these frames hands to the main handler: for each
/// frame from another sender, the sender together with the event the frame
/// decodes to.  (A frame that does not decode aborts a drain instead; the
/// fallback arm keeps the function total.)
pub open spec fn foreign_events(frames: Seq<FrameView>, self_id: u32) -> Seq<(u32, EventView)>
    decreases frames.len(),
{
    if frames.len() == 0 {
        Seq::empty()
    } else {
        let rest = foreign_events(frames.drop_first(), self_id);
        if frames[0].client_id != self_id {
            match frame_event(frames[0]) {
                Some(e) => seq![(frames[0].client_id, e)] + rest,
                None => rest,
            }
        } else {
            rest
        }
    }
}

/// The events a drain republishes through the inner manager: of the observed
/// messages, those whose evaluation was accepted, in order.  The two
/// sequences walk in step: entry `j` of `calls` is the evaluation of entry
/// `j` of `observed`.
pub open spec fn republished(observed: Seq<(u32, EventView)>, calls: Seq<EvalCall>) -> Seq<
    EventView,
>
    decreases observed.len(),
{
    if observed.len() == 0 || calls.len() == 0 {
        Seq::empty()
    } else {
        republished(observed.drop_last(), calls.drop_last()) + (if calls.last().accepted is Some {
            seq![observed.last().1]
        } else {
            Seq::empty()
        })
    }
}

/// No more frames are foreign than there are frames.
pub proof fn lemma_count_foreign_le_len(frames: Seq<FrameView>, self_id: u32)
    ensures
        count_foreign(frames, self_id) <= frames.len(),
    decreases frames.len(),
{
    if frames.len() > 0 {
        lemma_count_foreign_le_len(frames.drop_first(), self_id);
    }
}

/// The adaptive-serialization decision over the running sums: serialize only
/// while the cumulative codec time stays below `factor` times the reference
/// execution time, and fewer than `threshold` percent of the queries so far
/// answered "serialize".
pub open spec fn adaptive_policy(
    ser_time: u64,
    deser_time: u64,
    ser_cnt: u64,
    should_cnt: u64,
    reference_time: u64,
    factor: u64,
    threshold: u64,
) -> bool {
    &&& ser_time + deser_time < factor * reference_time
    &&& ser_cnt * 100 < threshold * should_cnt
}

/// Builds a [`CentralizedEventManager`].
pub struct CentralizedEventManagerBuilder {
    /// Whether the manager under construction is the main evaluator.
    pub is_main: bool,
}

impl CentralizedEventManagerBuilder {
    /// A builder for a secondary manager.
    pub fn new() -> (r: CentralizedEventManagerBuilder)
        ensures
            !r.is_main,
    {
        CentralizedEventManagerBuilder { is_main: false }
    }

    /// Choose whether the manager is the main evaluator node.
    pub fn is_main(self, is_main: bool) -> (r: CentralizedEventManagerBuilder)
        ensures
            r.is_main == is_main,
    {
        CentralizedEventManagerBuilder { is_main }
    }

    /// Build a manager from an inner manager and an attached transport
    /// client.
    pub fn build_from_client<EM: InnerManager, TC: Transport>(self, inner: EM, client: TC) -> (r:
        Result<CentralizedEventManager<EM, TC>, Error>)
        ensures
            r matches Ok(m) && m.inner == inner && m.client == client && m.is_main == self.is_main
                && m.observed@ == Seq::<(u32, EventView)>::empty(),
    {
        Ok(
            CentralizedEventManager {
                inner,
                client,
                is_main: self.is_main,
                observed: Ghost(Seq::empty()),
            },
        )
    }
}

impl Default for CentralizedEventManagerBuilder {
    /// A builder for a secondary manager.
    fn default() -> (r: CentralizedEventManagerBuilder)
        ensures
            !r.is_main,
    {
        CentralizedEventManagerBuilder::new()
    }
}

/// A wrapper manager implementing the main/secondary architecture over a
/// second broker: it adds the centralized channel to an inner manager.
pub struct CentralizedEventManager<EM, TC> {
    /// The wrapped, main-broker-facing manager.
    pub inner: EM,
    /// The client of the centralized transport.
    pub client: TC,
    /// Whether this node is the main evaluator.
    pub is_main: bool,
    /// Every message the main handler accepted for evaluation, as
    /// `(sender, event)`, oldest first.
    pub observed: Ghost<Seq<(u32, EventView)>>,
}

impl<EM: InnerManager, TC: Transport> CentralizedEventManager<EM, TC> {
    /// The identities this manager carries never change.
    pub open spec fn same_identity(a: Self, b: Self) -> bool {
        &&& a.is_main == b.is_main
        &&& a.client.id_spec() == b.client.id_spec()
        &&& a.inner.id_spec() == b.inner.id_spec()
        &&& a.inner.config_spec() == b.inner.config_spec()
    }

    /// A builder for managers of this shape.
    pub fn builder() -> (r: CentralizedEventManagerBuilder)
        ensures
            !r.is_main,
    {
        CentralizedEventManagerBuilder::new()
    }

    /// Know whether this node is the main evaluator or a secondary.
    pub fn is_main(&self) -> (r: bool)
        ensures
            r == self.is_main,
    {
        self.is_main
    }

    /// The inner manager's identifier.
    pub fn mgr_id(&self) -> (r: usize)
        ensures
            r == self.inner.id_spec(),
    {
        self.inner.mgr_id()
    }

    /// The client configuration of this node.
    pub fn configuration(&self) -> (r: EventConfig)
        ensures
            r == self.inner.config_spec(),
    {
        self.inner.configuration()
    }

    /// Whether events should be sent at all.
    pub fn should_send(&self) -> (r: bool) {
        self.inner.should_send()
    }

    /// Cumulative observer-serialization time, kept by the inner manager.
    pub fn serialization_time(&self) -> (r: u64)
        ensures
            r == self.inner.serialization_time_spec(),
    {
        self.inner.serialization_time()
    }

    /// Cumulative observer-deserialization time, kept by the inner manager.
    pub fn deserialization_time(&self) -> (r: u64)
        ensures
            r == self.inner.deserialization_time_spec(),
    {
        self.inner.deserialization_time()
    }

    /// How many observer snapshots were serialized so far.
    pub fn serializations_cnt(&self) -> (r: u64)
        ensures
            r == self.inner.serializations_cnt_spec(),
    {
        self.inner.serializations_cnt()
    }

    /// How often the adaptive policy was asked so far.
    pub fn should_serialize_cnt(&self) -> (r: u64)
        ensures
            r == self.inner.should_serialize_cnt_spec(),
    {
        self.inner.should_serialize_cnt()
    }

    /// Forward a log line to the inner manager.
    pub fn log(&mut self, state: &mut FuzzState, severity_level: LogSeverity, message: Vec<u8>)
        -> (r: Result<(), Error>)
        requires
            old(state).inv(),
        ensures
            final (state).inv(),
            Self::same_identity(*old(self), *final (self)),
            final (self).client.sent() == old(self).client.sent(),
            final (self).client.inbox() == old(self).client.inbox(),
            final (self).observed == old(self).observed,
            r matches Ok(()) ==> final (self).inner.fired() == old(self).inner.fired().push(
                EventView::Log { severity_level, message: message@ },
            ),
    {
        self.inner.log(state, severity_level, message)
    }

    /// Serialize an event, deflate it when it is large enough, and send it on
    /// the to-main tag.  The frame carries the event exactly, and carries the
    /// compressed flag exactly when the record reached the compression
    /// threshold.
    fn forward_to_main(&mut self, event: &Event) -> (r: Result<(), Error>)
        ensures
            Self::same_identity(*old(self), *final (self)),
            final (self).inner == old(self).inner,
            final (self).observed == old(self).observed,
            final (self).client.inbox() == old(self).client.inbox(),
            r matches Ok(()) ==> ({
                let sent1 = final (self).client.sent();
                &&& sent1.len() == old(self).client.sent().len() + 1
                &&& sent1.drop_last() == old(self).client.sent()
                &&& sent1.last().tag == TAG_TO_MAIN
                &&& sent1.last().client_id == old(self).client.id_spec()
                &&& frame_carries(sent1.last(), event@)
                &&& (frame_compressed(sent1.last()) <==> spec_encode_event(event@).len()
                    >= COMPRESS_THRESHOLD)
            }),
            r is Err ==> final (self).client.sent() == old(self).client.sent(),
    {
        let serialized = encode_event(event);
        proof {
            assert((FLAG_INITIALIZED | FLAG_COMPRESSED) == FLAG_COMPRESSED) by (bit_vector);
            assert((FLAG_COMPRESSED & FLAG_COMPRESSED) == FLAG_COMPRESSED) by (bit_vector);
            assert((FLAG_INITIALIZED & FLAG_COMPRESSED) != FLAG_COMPRESSED) by (bit_vector);
        }
        match gzip_compress(COMPRESS_THRESHOLD, &serialized) {
            Some(compressed) => self.client.send_frame(
                TAG_TO_MAIN,
                FLAG_INITIALIZED | FLAG_COMPRESSED,
                compressed,
            ),
            None => self.client.send_frame(TAG_TO_MAIN, FLAG_INITIALIZED, serialized),
        }
    }

    /// Fire an event.
    ///
    /// On a secondary, a `NewTestcase` is stamped with this node's identifier
    /// as `forward_id` and forwarded to the centralized broker only: the main
    /// evaluator is the single publisher of test cases to the main broker, so
    /// the event must not also reach the inner manager.  A heartbeat is
    /// forwarded (to keep the broker's liveness tracking fresh) and also
    /// delegated.  Everything else, and every event on the main node, goes to
    /// the inner manager alone.
    pub fn fire(&mut self, state: &mut FuzzState, event: Event) -> (r: Result<(), Error>)
        requires
            old(state).inv(),
        ensures
            final (state).inv(),
            Self::same_identity(*old(self), *final (self)),
            final (self).client.inbox() == old(self).client.inbox(),
            final (self).observed == old(self).observed,
            r matches Ok(()) ==> ({
                let sent0 = old(self).client.sent();
                let sent1 = final (self).client.sent();
                let fired0 = old(self).inner.fired();
                let fired1 = final (self).inner.fired();
                if !old(self).is_main && event@ is NewTestcase {
                    &&& sent1.len() == sent0.len() + 1
                    &&& sent1.drop_last() == sent0
                    &&& sent1.last().tag == TAG_TO_MAIN
                    &&& sent1.last().client_id == old(self).client.id_spec()
                    &&& frame_carries(
                        sent1.last(),
                        stamp_forward_id(event@, old(self).inner.id_spec() as u32),
                    )
                    &&& (frame_compressed(sent1.last()) <==> spec_encode_event(
                        stamp_forward_id(event@, old(self).inner.id_spec() as u32),
                    ).len() >= COMPRESS_THRESHOLD)
                    &&& fired1 == fired0
                } else if !old(self).is_main && event@ is UpdateExecStats {
                    &&& sent1.len() == sent0.len() + 1
                    &&& sent1.drop_last() == sent0
                    &&& sent1.last().tag == TAG_TO_MAIN
                    &&& sent1.last().client_id == old(self).client.id_spec()
                    &&& frame_carries(sent1.last(), event@)
                    &&& (frame_compressed(sent1.last()) <==> spec_encode_event(event@).len()
                        >= COMPRESS_THRESHOLD)
                    &&& fired1 == fired0.push(event@)
                } else {
                    &&& sent1 == sent0
                    &&& fired1 == fired0.push(event@)
                }
            }),
            r is Err ==> final (self).inner.fired() == old(self).inner.fired(),
    {
        let ghost ev0 = event@;
        let mut event = event;
        if !self.is_main {
            let mut is_tc = false;
            let should_be_forwarded: bool = match &mut event {
                Event::NewTestcase { forward_id, .. } => {
                    let mid = self.inner.mgr_id();
                    *forward_id = Some(mid as u32);
                    is_tc = true;
                    true
                },
                Event::UpdateExecStats { .. } => true,
                _ => false,
            };
            proof {
                if is_tc {
                    assert(event@ == stamp_forward_id(ev0, old(self).inner.id_spec() as u32));
                } else {
                    assert(event@ == ev0);
                }
            }
            if should_be_forwarded {
                match self.forward_to_main(&event) {
                    Ok(()) => {},
                    Err(e) => {
                        return Err(e);
                    },
                }
                if is_tc {
                    // Only the centralized broker sees a secondary's test
                    // case; publishing to the main broker is the main
                    // evaluator's job.
                    return Ok(());
                }
            }
        }
        self.inner.fire(state, event)
    }

    /// Prepare for a process restart: wait until our transport pages are safe
    /// to unmap, then let the inner manager do the same.
    pub fn on_restart(&mut self, state: &mut FuzzState) -> (r: Result<(), Error>)
        requires
            old(state).inv(),
        ensures
            final (state).inv(),
            Self::same_identity(*old(self), *final (self)),
            final (self).client.sent() == old(self).client.sent(),
            final (self).client.inbox() == old(self).client.inbox(),
    {
        self.client.await_safe_to_unmap();
        self.inner.on_restart(state)
    }

    /// Announce on both channels that this client is exiting.
    pub fn send_exiting(&mut self) -> (r: Result<(), Error>)
        ensures
            Self::same_identity(*old(self), *final (self)),
            final (self).client.inbox() == old(self).client.inbox(),
    {
        match self.client.send_exiting() {
            Ok(()) => {},
            Err(e) => {
                return Err(e);
            },
        }
        self.inner.send_exiting()
    }

    /// Block until a restart is safe for both channels.
    pub fn await_restart_safe(&mut self)
        ensures
            Self::same_identity(*old(self), *final (self)),
            final (self).client.sent() == old(self).client.sent(),
            final (self).client.inbox() == old(self).client.inbox(),
    {
        self.client.await_safe_to_unmap();
        self.inner.await_restart_safe();
    }

    /// Ask the adaptive policy whether an observer snapshot should be
    /// serialized for the next forwarded test case, counting the query.
    /// `reference_time` is the last observed execution time of the target.
    pub fn should_serialize_observers(&mut self, reference_time: u64) -> (r: bool)
        ensures
            Self::same_identity(*old(self), *final (self)),
            final (self).inner.fired() == old(self).inner.fired(),
            final (self).client.sent() == old(self).client.sent(),
            final (self).client.inbox() == old(self).client.inbox(),
            final (self).observed == old(self).observed,
            r == adaptive_policy(
                old(self).inner.serialization_time_spec(),
                old(self).inner.deserialization_time_spec(),
                old(self).inner.serializations_cnt_spec(),
                final (self).inner.should_serialize_cnt_spec(),
                reference_time,
                SERIALIZE_TIME_FACTOR,
                SERIALIZE_PERCENTAGE_THRESHOLD,
            ),
    {
        self.inner.bump_should_serialize();
        let ser_time = self.inner.serialization_time();
        let deser_time = self.inner.deserialization_time();
        let ser_cnt = self.inner.serializations_cnt();
        let should_cnt = self.inner.should_serialize_cnt();
        let total: u128 = ser_time as u128 + deser_time as u128;
        let budget: u128 = 4u128 * (reference_time as u128);
        let rate: u128 = 100u128 * (ser_cnt as u128);
        let cap: u128 = 80u128 * (should_cnt as u128);
        total < budget && rate < cap
    }

    /// Record that one observer snapshot was serialized and what it cost.
    pub fn note_observers_serialized(&mut self, cost: u64)
        ensures
            Self::same_identity(*old(self), *final (self)),
            final (self).inner.fired() == old(self).inner.fired(),
            final (self).client.sent() == old(self).client.sent(),
            final (self).client.inbox() == old(self).client.inbox(),
            final (self).observed == old(self).observed,
            final (self).inner.serializations_cnt_spec() == (if old(self).inner.serializations_cnt_spec() < u64::MAX {
                old(self).inner.serializations_cnt_spec() + 1
            } else {
                u64::MAX as int
            }),
    {
        self.inner.note_serialization(cost);
    }

    /// Handle one event arriving at the main evaluator.
    ///
    /// Only a `NewTestcase` may arrive here; anything else is a protocol
    /// violation.  When the sender's configuration matches ours and a
    /// snapshot was shipped, the snapshot is trusted and re-execution is
    /// skipped; otherwise the input is re-executed locally.  If the fuzzer
    /// accepts the input, the same event is fired into the inner manager,
    /// completing the fan-out to the main broker.
    fn handle_in_main<EV: Evaluator>(
        &mut self,
        evaluator: &mut EV,
        state: &mut FuzzState,
        client_id: u32,
        event: Event,
    ) -> (r: Result<(), Error>)
        requires
            old(state).inv(),
        ensures
            final (state).inv(),
            Self::same_identity(*old(self), *final (self)),
            final (self).client.sent() == old(self).client.sent(),
            final (self).client.inbox() == old(self).client.inbox(),
            !(event@ is NewTestcase) ==> ({
                &&& r matches Err(e) && e == Error::Unknown
                &&& final (self).observed == old(self).observed
                &&& final (self).inner.fired() == old(self).inner.fired()
                &&& final (evaluator).calls() == old(evaluator).calls()
            }),
            event@ is NewTestcase ==> final (self).observed@ == old(self).observed@.push(
                (client_id, event@),
            ),
            (event@ is NewTestcase && r matches Ok(())) ==> ({
                let calls1 = final (evaluator).calls();
                &&& calls1.len() == old(evaluator).calls().len() + 1
                &&& calls1.drop_last() == old(evaluator).calls()
                &&& calls1.last().input == new_testcase_input(event@)
                &&& calls1.last().trusted == trusts_snapshot(event@, old(self).inner.config_spec())
                &&& final (self).inner.fired() == (if calls1.last().accepted is Some {
                    old(self).inner.fired().push(event@)
                } else {
                    old(self).inner.fired()
                })
            }),
    {
        let ghost ev0 = event@;
        match event {
            Event::NewTestcase {
                input,
                client_config,
                exit_kind,
                corpus_size,
                observers_buf,
                time,
                executions,
                forward_id,
            } => {
                proof {
                    self.observed@ = self.observed@.push((client_id, ev0));
                }
                let our_config = self.inner.configuration();
                let config_match = client_config.match_with(&our_config);
                let res = if config_match {
                    match &observers_buf {
                        Some(ob) => evaluator.execute_and_process(state, &input, ob, exit_kind),
                        None => evaluator.evaluate_input_with_observers(state, &input),
                    }
                } else {
                    evaluator.evaluate_input_with_observers(state, &input)
                };
                let res = match res {
                    Ok(x) => x,
                    Err(e) => {
                        return Err(e);
                    },
                };
                match res {
                    Some(_item) => {
                        let refired = Event::NewTestcase {
                            input,
                            client_config,
                            exit_kind,
                            corpus_size,
                            observers_buf,
                            time,
                            executions,
                            forward_id,
                        };
                        proof {
                            assert(refired@ == ev0);
                        }
                        self.inner.fire(state, refired)
                    },
                    None => Ok(()),
                }
            },
            _ => Err(Error::unknown()),
        }
    }

    /// Drain the centralized channel at the main evaluator.
    ///
    /// Messages from this node itself are skipped (loop suppression); every
    /// other message is inflated, decoded and handed to the evaluator.  The
    /// count of processed messages is returned when the queue is drained; an
    /// empty queue returns zero at once.
    #[verifier::rlimit(100)]
    fn receive_from_secondary<EV: Evaluator>(
        &mut self,
        evaluator: &mut EV,
        state: &mut FuzzState,
    ) -> (r: Result<usize, Error>)
        requires
            old(state).inv(),
            old(self).client.inbox().len() <= usize::MAX,
            forall|i: int|
                0 <= i < old(self).client.inbox().len() ==> (#[trigger] old(self).client.inbox()[i]).tag == TAG_TO_MAIN,
        ensures
            final (state).inv(),
            Self::same_identity(*old(self), *final (self)),
            final (self).client.sent() == old(self).client.sent(),
            final (self).observed@.len() >= old(self).observed@.len(),
            final (self).observed@.take(old(self).observed@.len() as int) == old(self).observed@,
            forall|j: int|
                old(self).observed@.len() <= j < final (self).observed@.len() ==> (
                #[trigger] final (self).observed@[j]).0 != old(self).client.id_spec(),
            r matches Ok(n) ==> ({
                &&& final (self).client.inbox().len() == 0
                &&& n == count_foreign(old(self).client.inbox(), old(self).client.id_spec())
            }),
            r matches Ok(n) ==> final (self).observed@ == old(self).observed@ + foreign_events(
                old(self).client.inbox(),
                old(self).client.id_spec(),
            ),
            r matches Ok(n) ==> final (self).inner.fired() == old(self).inner.fired()
                + republished(
                final (self).observed@.skip(old(self).observed@.len() as int),
                final (evaluator).calls().skip(old(evaluator).calls().len() as int),
            ),
            r matches Ok(n) ==> ({
                let delta = final (self).observed@.len() - old(self).observed@.len();
                &&& final (evaluator).calls().len() == old(evaluator).calls().len() + delta
                &&& final (evaluator).calls().take(old(evaluator).calls().len() as int) == old(
                    evaluator,
                ).calls()
                &&& forall|j: int|
                    0 <= j < delta ==> ({
                        &&& (#[trigger] final (evaluator).calls()[old(evaluator).calls().len()
                            + j]).input == new_testcase_input(
                            final (self).observed@[old(self).observed@.len() + j].1,
                        )
                        &&& final (evaluator).calls()[old(evaluator).calls().len() + j].trusted
                            == trusts_snapshot(
                            final (self).observed@[old(self).observed@.len() + j].1,
                            old(self).inner.config_spec(),
                        )
                    })
            }),
    {
        let self_id = self.client.sender_id();
        let mut count: usize = 0;
        proof {
            lemma_count_foreign_le_len(self.client.inbox(), self_id);
            assert(self.observed@.take(old(self).observed@.len() as int) =~= old(self).observed@);
            assert(evaluator.calls().take(old(evaluator).calls().len() as int) =~= old(
                evaluator,
            ).calls());
            assert(self.observed@.skip(old(self).observed@.len() as int) =~= Seq::<(
                u32,
                EventView,
            )>::empty());
            assert(evaluator.calls().skip(old(evaluator).calls().len() as int) =~= Seq::<
                EvalCall,
            >::empty());
            assert(self.inner.fired() =~= old(self).inner.fired() + republished(
                self.observed@.skip(old(self).observed@.len() as int),
                evaluator.calls().skip(old(evaluator).calls().len() as int),
            ));
        }
        loop
            invariant
                state.inv(),
                self_id == old(self).client.id_spec(),
                Self::same_identity(*old(self), *self),
                self.client.sent() == old(self).client.sent(),
                self.observed@.len() >= old(self).observed@.len(),
                self.observed@.take(old(self).observed@.len() as int) == old(self).observed@,
                forall|j: int|
                    old(self).observed@.len() <= j < self.observed@.len() ==> (
                    #[trigger] self.observed@[j]).0 != self_id,
                forall|i: int|
                    0 <= i < self.client.inbox().len() ==> (#[trigger] self.client.inbox()[i]).tag
                        == TAG_TO_MAIN,
                count + count_foreign(self.client.inbox(), self_id) == count_foreign(
                    old(self).client.inbox(),
                    self_id,
                ),
                count + self.client.inbox().len() <= old(self).client.inbox().len(),
                old(self).client.inbox().len() <= usize::MAX,
                old(self).client.inbox().len() == 0 ==> (count == 0 && *evaluator == *old(
                    evaluator,
                ) && self.inner == old(self).inner && self.observed == old(self).observed),
                self.observed@ + foreign_events(self.client.inbox(), self_id) == old(
                    self,
                ).observed@ + foreign_events(old(self).client.inbox(), self_id),
                evaluator.calls().len() == old(evaluator).calls().len() + (self.observed@.len()
                    - old(self).observed@.len()),
                evaluator.calls().take(old(evaluator).calls().len() as int) == old(
                    evaluator,
                ).calls(),
                self.inner.fired() == old(self).inner.fired() + republished(
                    self.observed@.skip(old(self).observed@.len() as int),
                    evaluator.calls().skip(old(evaluator).calls().len() as int),
                ),
                forall|j: int|
                    0 <= j < self.observed@.len() - old(self).observed@.len() ==> ({
                        &&& (#[trigger] evaluator.calls()[old(evaluator).calls().len() + j]).input
                            == new_testcase_input(
                            self.observed@[old(self).observed@.len() + j].1,
                        )
                        &&& evaluator.calls()[old(evaluator).calls().len() + j].trusted
                            == trusts_snapshot(
                            self.observed@[old(self).observed@.len() + j].1,
                            old(self).inner.config_spec(),
                        )
                    }),
            ensures
                self.client.inbox().len() == 0,
            decreases self.client.inbox().len(),
        {
            let ghost inbox_pre = self.client.inbox();
            let ghost observed_pre = self.observed@;
            let ghost calls_pre = evaluator.calls();
            let ghost fired_pre = self.inner.fired();
            let frame = match self.client.recv_frame() {
                Ok(Some(f)) => f,
                Ok(None) => {
                    break ;
                },
                Err(e) => {
                    return Err(e);
                },
            };
            proof {
                assert(inbox_pre.len() > 0);
                assert(count_foreign(inbox_pre, self_id) == count_foreign(
                    inbox_pre.drop_first(),
                    self_id,
                ) + if inbox_pre[0].client_id != self_id {
                    1nat
                } else {
                    0nat
                });
                assert forall|i: int|
                    0 <= i < self.client.inbox().len() implies (#[trigger] self.client.inbox()[
                    i]).tag == TAG_TO_MAIN by {
                    assert(self.client.inbox()[i] == inbox_pre[i + 1]);
                }
            }
            if frame.client_id == self_id {
                // Loop suppression: this is our own message echoed back.
                proof {
                    assert(foreign_events(inbox_pre, self_id) == foreign_events(
                        inbox_pre.drop_first(),
                        self_id,
                    ));
                }
                continue ;
            }
            let payload = frame.payload;
            let event_bytes: Vec<u8> = if frame.flags & FLAG_COMPRESSED == FLAG_COMPRESSED {
                match gzip_decompress(&payload) {
                    Some(d) => d,
                    None => {
                        return Err(Error::compression());
                    },
                }
            } else {
                payload
            };
            let event: Event = match decode_event(&event_bytes) {
                Some(e) => e,
                None => {
                    return Err(Error::serialize());
                },
            };
            proof {
                assert(inbox_pre[0] == frame@);
                assert(frame_record(frame@) == Some(event_bytes@));
                assert(frame_event(frame@) == Some(event@));
            }
            let handled = self.handle_in_main(evaluator, state, frame.client_id, event);
            proof {
                if self.observed@.len() > observed_pre.len() {
                    assert(self.observed@ == observed_pre.push((frame@.client_id, event@)));
                    assert(self.observed@.take(old(self).observed@.len() as int)
                        =~= observed_pre.take(old(self).observed@.len() as int));
                    assert forall|j: int|
                        old(self).observed@.len() <= j < self.observed@.len() implies (
                        #[trigger] self.observed@[j]).0 != self_id by {
                        if j < observed_pre.len() {
                        } else {
                            assert(self.observed@[j] == (frame@.client_id, event@));
                        }
                    }
                }
            }
            match handled {
                Ok(()) => {},
                Err(e) => {
                    return Err(e);
                },
            }
            proof {
                let oldn = old(self).observed@.len() as int;
                let oldc = old(evaluator).calls().len() as int;
                let od_now = self.observed@.skip(oldn);
                let cd_now = evaluator.calls().skip(oldc);
                assert(od_now.drop_last() =~= observed_pre.skip(oldn));
                assert(cd_now.drop_last() =~= calls_pre.skip(oldc));
                assert(od_now.last() == (frame@.client_id, event@));
                assert(cd_now.last() == evaluator.calls().last());
                assert(republished(od_now, cd_now) == republished(
                    observed_pre.skip(oldn),
                    calls_pre.skip(oldc),
                ) + (if evaluator.calls().last().accepted is Some {
                    seq![event@]
                } else {
                    Seq::<EventView>::empty()
                }));
                assert(self.inner.fired() =~= old(self).inner.fired() + republished(
                    od_now,
                    cd_now,
                ));
                let rest = inbox_pre.drop_first();
                assert(foreign_events(inbox_pre, self_id) == seq![(frame@.client_id, event@)]
                    + foreign_events(rest, self_id));
                assert(self.observed@ + foreign_events(self.client.inbox(), self_id)
                    =~= observed_pre + foreign_events(inbox_pre, self_id));
                assert(evaluator.calls().take(old(evaluator).calls().len() as int)
                    =~= calls_pre.take(old(evaluator).calls().len() as int));
                assert forall|j: int|
                    0 <= j < self.observed@.len() - old(self).observed@.len() implies ({
                    &&& (#[trigger] evaluator.calls()[old(evaluator).calls().len() + j]).input
                        == new_testcase_input(self.observed@[old(self).observed@.len() + j].1)
                    &&& evaluator.calls()[old(evaluator).calls().len() + j].trusted
                        == trusts_snapshot(
                        self.observed@[old(self).observed@.len() + j].1,
                        old(self).inner.config_spec(),
                    )
                }) by {
                    if j < observed_pre.len() - old(self).observed@.len() {
                        assert(self.observed@[old(self).observed@.len() + j] == observed_pre[old(
                            self,
                        ).observed@.len() + j]);
                        assert(evaluator.calls()[old(evaluator).calls().len() + j] == calls_pre[
                            old(evaluator).calls().len() + j]);
                    } else {
                        assert(self.observed@[old(self).observed@.len() + j] == (
                            frame@.client_id,
                            event@,
                        ));
                        assert(evaluator.calls()[old(evaluator).calls().len() + j]
                            == evaluator.calls().last());
                    }
                }
            }
            count = count + 1;
        }
        Ok(count)
    }

    /// Process pending events.
    ///
    /// On the main evaluator this drains the centralized channel; on a
    /// secondary it delegates to the inner manager, which faces the main
    /// broker.
    pub fn process<EV: Evaluator>(&mut self, evaluator: &mut EV, state: &mut FuzzState) -> (r:
        Result<usize, Error>)
        requires
            old(state).inv(),
            old(self).is_main ==> old(self).client.inbox().len() <= usize::MAX,
            old(self).is_main ==> forall|i: int|
                0 <= i < old(self).client.inbox().len() ==> (#[trigger] old(self).client.inbox()[i]).tag == TAG_TO_MAIN,
        ensures
            final (state).inv(),
            Self::same_identity(*old(self), *final (self)),
            final (self).observed@.len() >= old(self).observed@.len(),
            final (self).observed@.take(old(self).observed@.len() as int) == old(self).observed@,
            forall|j: int|
                old(self).observed@.len() <= j < final (self).observed@.len() ==> (
                #[trigger] final (self).observed@[j]).0 != old(self).client.id_spec(),
            old(self).is_main ==> final (self).client.sent() == old(self).client.sent(),
            old(self).is_main ==> (r matches Ok(n) ==> ({
                &&& final (self).client.inbox().len() == 0
                &&& n == count_foreign(old(self).client.inbox(), old(self).client.id_spec())
                &&& final (self).observed@ == old(self).observed@ + foreign_events(
                    old(self).client.inbox(),
                    old(self).client.id_spec(),
                )
                &&& final (self).inner.fired() == old(self).inner.fired() + republished(
                    final (self).observed@.skip(old(self).observed@.len() as int),
                    final (evaluator).calls().skip(old(evaluator).calls().len() as int),
                )
                &&& ({
                    let delta = final (self).observed@.len() - old(self).observed@.len();
                    &&& final (evaluator).calls().len() == old(evaluator).calls().len() + delta
                    &&& final (evaluator).calls().take(old(evaluator).calls().len() as int) == old(
                        evaluator,
                    ).calls()
                    &&& forall|j: int|
                        0 <= j < delta ==> ({
                            &&& (#[trigger] final (evaluator).calls()[old(evaluator).calls().len()
                                + j]).input == new_testcase_input(
                                final (self).observed@[old(self).observed@.len() + j].1,
                            )
                            &&& final (evaluator).calls()[old(evaluator).calls().len()
                                + j].trusted == trusts_snapshot(
                                final (self).observed@[old(self).observed@.len() + j].1,
                                old(self).inner.config_spec(),
                            )
                        })
                })
            })),
            !old(self).is_main ==> ({
                &&& final (self).observed == old(self).observed
                &&& final (self).client.sent() == old(self).client.sent()
                &&& final (self).client.inbox() == old(self).client.inbox()
                &&& *final (evaluator) == *old(evaluator)
            }),
    {
        proof {
            assert(self.observed@.take(old(self).observed@.len() as int) =~= old(self).observed@);
        }
        if self.is_main {
            self.receive_from_secondary(evaluator, state)
        } else {
            // The main node's broadcasts come back through the inner manager.
            self.inner.process(state)
        }
    }
}

} // verus!

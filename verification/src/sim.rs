//! In-memory participants: concrete implementors of the fabric's interfaces.
//!
//! A [`MemTransport`] queues frames in plain vectors, so a whole topology —
//! secondaries, broker, main evaluator — can run inside one process, with a
//! harness shuttling frames between the participants' queues the way the
//! shared-memory broker would.  [`RecordingInnerManager`] keeps every event
//! fired into it, standing in for the main-broker-facing manager, and
//! [`SimpleEvaluator`] accepts every forwarded input (or none), handing out
//! fresh corpus identifiers.

use vstd::prelude::*;

use crate::errors::Error;
use crate::events::{Event, EventConfig, EventView, ExitKind, LogSeverity};
use crate::manager::{EvalCall, Evaluator, InnerManager, Transport};
use crate::state::FuzzState;
use crate::wire::{Frame, FrameView};

verus! {

/// A transport client whose channel is a pair of in-memory queues.
pub struct MemTransport {
    /// The client identifier the broker assigned.
    pub id: u32,
    /// Frames sent by this client, oldest first.
    pub outgoing: Vec<Frame>,
    /// Frames delivered to this client and not yet received, oldest first.
    pub incoming: Vec<Frame>,
}

impl MemTransport {
    /// A fresh client under the given identifier, with empty queues.
    pub fn new(id: u32) -> (r: MemTransport)
        ensures
            r.id_spec() == id,
            r.sent() == Seq::<FrameView>::empty(),
            r.inbox() == Seq::<FrameView>::empty(),
    {
        let r = MemTransport { id, outgoing: Vec::new(), incoming: Vec::new() };
        proof {
            assert(r.sent() =~= Seq::<FrameView>::empty());
            assert(r.inbox() =~= Seq::<FrameView>::empty());
        }
        r
    }

    /// Deliver one frame into this client's queue, as the broker would.
    pub fn deliver(&mut self, frame: Frame)
        ensures
            final (self).id_spec() == old(self).id_spec(),
            final (self).sent() == old(self).sent(),
            final (self).inbox() == old(self).inbox().push(frame@),
    {
        self.incoming.push(frame);
        proof {
            assert(self.incoming@.map_values(|f: Frame| f@) =~= old(self).incoming@.map_values(
                |f: Frame| f@,
            ).push(frame@));
        }
    }
}

impl Transport for MemTransport {
    open spec fn sent(&self) -> Seq<FrameView> {
        self.outgoing@.map_values(|f: Frame| f@)
    }

    open spec fn inbox(&self) -> Seq<FrameView> {
        self.incoming@.map_values(|f: Frame| f@)
    }

    open spec fn id_spec(&self) -> u32 {
        self.id
    }

    fn sender_id(&self) -> (r: u32) {
        self.id
    }

    fn send_frame(&mut self, tag: u32, flags: u32, payload: Vec<u8>) -> (r: Result<(), Error>) {
        let frame = Frame { tag, flags, client_id: self.id, payload };
        self.outgoing.push(frame);
        proof {
            assert(self.outgoing@.map_values(|f: Frame| f@) =~= old(self).outgoing@.map_values(
                |f: Frame| f@,
            ).push(
                FrameView { tag, flags, client_id: old(self).id_spec(), payload: payload@ },
            ));
        }
        Ok(())
    }

    fn recv_frame(&mut self) -> (r: Result<Option<Frame>, Error>) {
        if self.incoming.len() == 0 {
            Ok(None)
        } else {
            let f = self.incoming.remove(0);
            proof {
                assert(self.incoming@.map_values(|g: Frame| g@) =~= old(
                    self,
                ).incoming@.map_values(|g: Frame| g@).drop_first());
                assert(f@ == old(self).incoming@.map_values(|g: Frame| g@)[0]);
            }
            Ok(Some(f))
        }
    }

    fn await_safe_to_unmap(&mut self) {
    }

    fn send_exiting(&mut self) -> (r: Result<(), Error>) {
        Ok(())
    }
}

/// An inner event manager that records what is fired into it: the stand-in
/// for the main-broker-facing manager.
pub struct RecordingInnerManager {
    /// The manager's identifier.
    pub id: usize,
    /// The client configuration this node answers for.
    pub config: EventConfig,
    /// Every event fired into this manager, oldest first.
    pub events: Vec<Event>,
    /// Cumulative observer-serialization time.
    pub ser_time: u64,
    /// Cumulative observer-deserialization time.
    pub deser_time: u64,
    /// How many snapshots were serialized.
    pub ser_cnt: u64,
    /// How often the adaptive policy was asked.
    pub should_cnt: u64,
}

impl RecordingInnerManager {
    /// A fresh manager under the given identity and configuration.
    pub fn new(id: usize, config: EventConfig) -> (r: RecordingInnerManager)
        ensures
            r.id_spec() == id,
            r.config_spec() == config,
            r.fired() == Seq::<EventView>::empty(),
            r.serialization_time_spec() == 0,
            r.deserialization_time_spec() == 0,
            r.serializations_cnt_spec() == 0,
            r.should_serialize_cnt_spec() == 0,
    {
        let r = RecordingInnerManager {
            id,
            config,
            events: Vec::new(),
            ser_time: 0,
            deser_time: 0,
            ser_cnt: 0,
            should_cnt: 0,
        };
        proof {
            assert(r.fired() =~= Seq::<EventView>::empty());
        }
        r
    }
}

impl InnerManager for RecordingInnerManager {
    open spec fn fired(&self) -> Seq<EventView> {
        self.events@.map_values(|e: Event| e@)
    }

    open spec fn id_spec(&self) -> usize {
        self.id
    }

    open spec fn config_spec(&self) -> EventConfig {
        self.config
    }

    open spec fn serialization_time_spec(&self) -> u64 {
        self.ser_time
    }

    open spec fn deserialization_time_spec(&self) -> u64 {
        self.deser_time
    }

    open spec fn serializations_cnt_spec(&self) -> u64 {
        self.ser_cnt
    }

    open spec fn should_serialize_cnt_spec(&self) -> u64 {
        self.should_cnt
    }

    fn fire(&mut self, state: &mut FuzzState, event: Event) -> (r: Result<(), Error>) {
        let ghost ev = event@;
        self.events.push(event);
        proof {
            assert(self.events@.map_values(|e: Event| e@) =~= old(self).events@.map_values(
                |e: Event| e@,
            ).push(ev));
        }
        Ok(())
    }

    fn log(&mut self, state: &mut FuzzState, severity_level: LogSeverity, message: Vec<u8>) -> (r:
        Result<(), Error>) {
        let ghost msg = message@;
        let event = Event::Log { severity_level, message };
        proof {
            assert(event@ == EventView::Log { severity_level, message: msg });
        }
        self.events.push(event);
        proof {
            assert(self.events@.map_values(|e: Event| e@) =~= old(self).events@.map_values(
                |e: Event| e@,
            ).push(EventView::Log { severity_level, message: msg }));
        }
        Ok(())
    }

    fn process(&mut self, state: &mut FuzzState) -> (r: Result<usize, Error>) {
        Ok(0)
    }

    fn on_restart(&mut self, state: &mut FuzzState) -> (r: Result<(), Error>) {
        Ok(())
    }

    fn send_exiting(&mut self) -> (r: Result<(), Error>) {
        Ok(())
    }

    fn await_restart_safe(&mut self) {
    }

    fn should_send(&self) -> bool {
        true
    }

    fn mgr_id(&self) -> (r: usize) {
        self.id
    }

    fn configuration(&self) -> (r: EventConfig) {
        self.config
    }

    fn serialization_time(&self) -> (r: u64) {
        self.ser_time
    }

    fn deserialization_time(&self) -> (r: u64) {
        self.deser_time
    }

    fn serializations_cnt(&self) -> (r: u64) {
        self.ser_cnt
    }

    fn should_serialize_cnt(&self) -> (r: u64) {
        self.should_cnt
    }

    fn bump_should_serialize(&mut self) {
        if self.should_cnt < u64::MAX {
            self.should_cnt = self.should_cnt + 1;
        }
    }

    fn note_serialization(&mut self, cost: u64) {
        if self.ser_cnt < u64::MAX {
            self.ser_cnt = self.ser_cnt + 1;
        }
        if cost <= u64::MAX - self.ser_time {
            self.ser_time = self.ser_time + cost;
        } else {
            self.ser_time = u64::MAX;
        }
    }

    fn note_deserialization(&mut self, cost: u64) {
        if cost <= u64::MAX - self.deser_time {
            self.deser_time = self.deser_time + cost;
        } else {
            self.deser_time = u64::MAX;
        }
    }
}

/// An evaluator that accepts every input or none, under fresh corpus
/// identifiers, and counts both evaluation paths.
pub struct SimpleEvaluator {
    /// Whether forwarded inputs are accepted into the corpus.
    pub accept_all: bool,
    /// The next corpus identifier to hand out.
    pub next_corpus_id: u64,
    /// How many inputs were processed with a trusted snapshot.
    pub trusted_cnt: u64,
    /// How many inputs were re-executed locally.
    pub reexec_cnt: u64,
    /// The evaluation history.
    pub history: Ghost<Seq<EvalCall>>,
}

impl SimpleEvaluator {
    /// An evaluator that accepts everything (or nothing).
    pub fn new(accept_all: bool) -> (r: SimpleEvaluator)
        ensures
            r.accept_all == accept_all,
            r.next_corpus_id == 0,
            r.trusted_cnt == 0,
            r.reexec_cnt == 0,
            r.calls() == Seq::<EvalCall>::empty(),
    {
        SimpleEvaluator {
            accept_all,
            next_corpus_id: 0,
            trusted_cnt: 0,
            reexec_cnt: 0,
            history: Ghost(Seq::empty()),
        }
    }

    /// Decide on one input: accept under a fresh identifier, or reject.
    fn decide(&mut self) -> (r: Option<u64>)
        ensures
            final (self).accept_all == old(self).accept_all,
            final (self).trusted_cnt == old(self).trusted_cnt,
            final (self).reexec_cnt == old(self).reexec_cnt,
            final (self).history == old(self).history,
            r == (if old(self).accept_all {
                Some(old(self).next_corpus_id)
            } else {
                Option::<u64>::None
            }),
    {
        if self.accept_all {
            let id = self.next_corpus_id;
            if self.next_corpus_id < u64::MAX {
                self.next_corpus_id = self.next_corpus_id + 1;
            }
            Some(id)
        } else {
            None
        }
    }
}

impl Evaluator for SimpleEvaluator {
    open spec fn calls(&self) -> Seq<EvalCall> {
        self.history@
    }

    fn execute_and_process(
        &mut self,
        state: &mut FuzzState,
        input: &Vec<u8>,
        observers_buf: &Vec<u8>,
        exit_kind: ExitKind,
    ) -> (r: Result<Option<u64>, Error>) {
        let res = self.decide();
        if self.trusted_cnt < u64::MAX {
            self.trusted_cnt = self.trusted_cnt + 1;
        }
        proof {
            self.history@ = self.history@.push(
                EvalCall { input: input@, trusted: true, accepted: res },
            );
        }
        Ok(res)
    }

    fn evaluate_input_with_observers(&mut self, state: &mut FuzzState, input: &Vec<u8>) -> (r:
        Result<Option<u64>, Error>) {
        let res = self.decide();
        if self.reexec_cnt < u64::MAX {
            self.reexec_cnt = self.reexec_cnt + 1;
        }
        // Local re-execution advances the execution counter.
        if state.executions < u64::MAX {
            state.executions = state.executions + 1;
        }
        proof {
            self.history@ = self.history@.push(
                EvalCall { input: input@, trusted: false, accepted: res },
            );
        }
        Ok(res)
    }
}

} // verus!

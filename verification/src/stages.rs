//! Staged work and its restart protocol.
//!
//! Fuzzing is organized as a static tuple of stages applied to each corpus
//! entry.  A crash mid-stage must resume at the same stage after the process
//! respawns, so the traversal cooperates with the persisted stage-progress
//! slot of the state: the slot holds the length of the remaining tail
//! (stages are counted from the end), which lets a head/tail recursion decide
//! resume locally without knowing the total count.

use vstd::prelude::*;

use crate::errors::Error;
use crate::events::{clone_bytes, ExitKind};
use crate::restart::RetryRestartHelper;
use crate::state::{FuzzState, StageId};

verus! {

/// The retry progress of the stage keyed by `k` is cleared: either no entry
/// exists, or the entry is between attempts.
pub open spec fn retry_cleared(s: FuzzState, k: u64) -> bool {
    s.rmap().contains_key(k) ==> s.rmap()[k].tries_remaining is None
}

/// One step in the fuzzing process, scheduled for each corpus entry.
///
/// Stage methods work on the state's metadata and execution counter but leave
/// the staging bookkeeping itself — the stage-progress slots, the nesting
/// depth, and the current corpus entry — to the traversal that drives them.
pub trait Stage: Sized {
    /// Stable identity key of this stage; its restart metadata is kept under
    /// this key.  Two distinct stages must not share a key.
    spec fn key(&self) -> u64;

    /// Whether this stage keeps retry metadata under its key.
    spec fn tracks_retries(&self) -> bool;

    /// How many restart-tracked rounds of this stage have begun: each round
    /// starts with exactly one call to [`Stage::restart_progress_should_run`].
    /// The traversal's contracts are stated over this history.
    spec fn attempts(&self) -> nat;

    /// The stage's identity key.
    fn name_key(&self) -> (k: u64)
        ensures
            k == self.key(),
    ;

    /// Initialize the restart tracking for this stage, if it is not yet
    /// initialized, and say whether [`Stage::perform`] should run.  Called
    /// before every call to `perform`; called again on restart.  Each call
    /// begins one round: the attempt history grows by one.
    fn restart_progress_should_run(&mut self, state: &mut FuzzState) -> (r: Result<bool, Error>)
        requires
            old(state).inv(),
        ensures
            final (state).inv(),
            final (state).stage_status@ == old(state).stage_status@,
            final (state).stage_depth == old(state).stage_depth,
            final (state).current_corpus_id == old(state).current_corpus_id,
            final (self).key() == old(self).key(),
            final (self).tracks_retries() == old(self).tracks_retries(),
            final (self).attempts() == old(self).attempts() + 1,
    ;

    /// Run the stage.  [`Stage::restart_progress_should_run`] must be called
    /// before, [`Stage::clear_restart_progress`] after; a call to
    /// [`Stage::perform_restartable`] does these things implicitly.
    fn perform(&mut self, state: &mut FuzzState) -> (r: Result<(), Error>)
        requires
            old(state).inv(),
        ensures
            final (state).inv(),
            final (state).stage_status@ == old(state).stage_status@,
            final (state).stage_depth == old(state).stage_depth,
            final (state).current_corpus_id == old(state).current_corpus_id,
            final (self).key() == old(self).key(),
            final (self).tracks_retries() == old(self).tracks_retries(),
            final (self).attempts() == old(self).attempts(),
    ;

    /// Clear the restart tracking of this stage: afterwards the stage is
    /// between attempts again.
    fn clear_restart_progress(&mut self, state: &mut FuzzState) -> (r: Result<(), Error>)
        requires
            old(state).inv(),
        ensures
            final (state).inv(),
            final (state).stage_status@ == old(state).stage_status@,
            final (state).stage_depth == old(state).stage_depth,
            final (state).current_corpus_id == old(state).current_corpus_id,
            final (self).key() == old(self).key(),
            final (self).tracks_retries() == old(self).tracks_retries(),
            final (self).attempts() == old(self).attempts(),
            (r matches Ok(()) && old(self).tracks_retries()) ==> retry_cleared(
                *final (state),
                old(self).key(),
            ),
    ;

    /// The canonical sequence: run the stage if its restart tracking says so,
    /// then clear the tracking.  Exactly one round is driven; after an `Ok`
    /// return, a retry-tracking stage's metadata is between attempts.
    fn perform_restartable(&mut self, state: &mut FuzzState) -> (r: Result<(), Error>)
        requires
            old(state).inv(),
        ensures
            final (state).inv(),
            final (state).stage_status@ == old(state).stage_status@,
            final (state).stage_depth == old(state).stage_depth,
            final (state).current_corpus_id == old(state).current_corpus_id,
            final (self).key() == old(self).key(),
            final (self).tracks_retries() == old(self).tracks_retries(),
            final (self).attempts() == old(self).attempts() + 1,
            (r matches Ok(()) && old(self).tracks_retries()) ==> retry_cleared(
                *final (state),
                old(self).key(),
            ),
    {
        let should_run = match self.restart_progress_should_run(state) {
            Ok(b) => b,
            Err(e) => {
                return Err(e);
            },
        };
        if should_run {
            match self.perform(state) {
                Ok(()) => {},
                Err(e) => {
                    return Err(e);
                },
            }
        }
        self.clear_restart_progress(state)
    }
}

/// How many leading stages a traversal skips: none on fresh work, and all
/// stages already completed before the restart when resuming (the persisted
/// index is the remaining length at the resume point).
pub open spec fn resume_cut(cur: Option<StageId>, tlen: nat) -> int {
    match cur {
        None => 0,
        Some(id) => tlen - id.0,
    }
}

/// A tuple holding all stages used for fuzzing, traversed head first.
///
/// Resume protocol, driven by the state's stage-progress slot: `Some(i)` with
/// `i` smaller than the remaining length means this head was already
/// completed before the restart — skip it; `i` equal to the remaining length
/// means this head is the resume point — run it and clear the slot; an empty
/// slot means fresh work — record the remaining length, run the head, clear.
/// After a clean traversal the slot is empty again, and each stage past the
/// resume cut was driven exactly once, in tuple order.
pub trait StagesTuple: Sized {
    /// How many stages the tuple holds.
    spec fn tlen(&self) -> nat;

    /// The attempt histories of the stages, in tuple order.
    spec fn attempts_seq(&self) -> Seq<nat>;

    /// The number of stages, as a machine integer.
    fn stages_len(&self) -> (r: usize)
        requires
            self.tlen() <= usize::MAX,
        ensures
            r == self.tlen(),
    ;

    /// Perform all stages in the tuple on the current corpus entry,
    /// respecting a persisted resume point: on success, every stage before
    /// the resume cut was left alone and every stage from the cut on was
    /// driven exactly once, and no resume point is left behind.
    fn perform_all(&mut self, state: &mut FuzzState) -> (r: Result<(), Error>)
        requires
            old(state).inv(),
            old(self).tlen() <= usize::MAX,
            match old(state).cur_stage_idx() {
                None => true,
                Some(id) => id.0 <= old(self).tlen(),
            },
        ensures
            final (state).inv(),
            final (state).stage_depth == old(state).stage_depth,
            final (state).current_corpus_id == old(state).current_corpus_id,
            final (self).tlen() == old(self).tlen(),
            final (self).attempts_seq().len() == old(self).attempts_seq().len(),
            r matches Ok(()) ==> final (state).cur_stage_idx() is None,
            r matches Ok(()) ==> ({
                let cut = resume_cut(old(state).cur_stage_idx(), old(self).tlen());
                forall|p: int|
                    0 <= p < old(self).attempts_seq().len() ==> #[trigger] final(self).attempts_seq()[p] == old(self).attempts_seq()[p] + (if p < cut {
                    0int
                } else {
                    1int
                })
            }),
    ;
}

impl StagesTuple for () {
    open spec fn tlen(&self) -> nat {
        0
    }

    open spec fn attempts_seq(&self) -> Seq<nat> {
        Seq::empty()
    }

    fn stages_len(&self) -> (r: usize) {
        0
    }

    fn perform_all(&mut self, state: &mut FuzzState) -> (r: Result<(), Error>)
        ensures
            *final (state) == *old(state),
            old(state).cur_stage_idx() is Some ==> (r matches Err(e) && e == Error::IllegalState),
            old(state).cur_stage_idx() is None ==> r matches Ok(()),
    {
        match state.current_stage_idx() {
            Ok(Some(_)) => {
                // A resume point survived past the end of the tuple: the
                // traversal that set it never completed it.
                Err(Error::illegal_state())
            },
            Ok(None) => Ok(()),
            Err(e) => Err(e),
        }
    }
}

impl<Head: Stage, Tail: StagesTuple> StagesTuple for (Head, Tail) {
    open spec fn tlen(&self) -> nat {
        1 + self.1.tlen()
    }

    open spec fn attempts_seq(&self) -> Seq<nat> {
        seq![self.0.attempts()] + self.1.attempts_seq()
    }

    fn stages_len(&self) -> (r: usize) {
        1 + self.1.stages_len()
    }

    fn perform_all(&mut self, state: &mut FuzzState) -> (r: Result<(), Error>) {
        let l = self.stages_len();
        let idx_opt = match state.current_stage_idx() {
            Ok(o) => o,
            Err(e) => {
                return Err(e);
            },
        };
        match idx_opt {
            Some(idx) => {
                if idx.0 < l {
                    // Resuming past this position: the head already ran
                    // before the restart.
                    let r = self.1.perform_all(state);
                    proof {
                        lemma_cons_attempts(*self, *old(self));
                        if r is Ok {
                            let cut = resume_cut(old(state).cur_stage_idx(), old(self).tlen());
                            let tail_cut = resume_cut(
                                old(state).cur_stage_idx(),
                                old(self).1.tlen(),
                            );
                            assert(cut == tail_cut + 1);
                            assert forall|p: int|
                                0 <= p < old(self).attempts_seq().len() implies #[trigger] self.attempts_seq()[p]
                                == old(self).attempts_seq()[p] + (if p < cut {
                                0int
                            } else {
                                1int
                            }) by {
                                if p > 0 {
                                    assert(self.attempts_seq()[p] == self.1.attempts_seq()[p - 1]);
                                    assert(old(self).attempts_seq()[p] == old(self).1.attempts_seq()[p - 1]);
                                }
                            }
                        }
                    }
                    r
                } else if idx.0 == l {
                    // This head is the resume point: run it, then clear.
                    match self.0.perform_restartable(state) {
                        Ok(()) => {},
                        Err(e) => {
                            return Err(e);
                        },
                    }
                    match state.clear_stage() {
                        Ok(()) => {},
                        Err(e) => {
                            return Err(e);
                        },
                    }
                    let r = self.1.perform_all(state);
                    proof {
                        lemma_cons_attempts(*self, *old(self));
                        if r is Ok {
                            lemma_all_driven(*self, *old(self));
                        }
                    }
                    r
                } else {
                    // The index must be cleared before descending below it.
                    Err(Error::illegal_state())
                }
            },
            None => {
                match state.set_current_stage_idx(StageId(l)) {
                    Ok(()) => {},
                    Err(e) => {
                        return Err(e);
                    },
                }
                match self.0.perform_restartable(state) {
                    Ok(()) => {},
                    Err(e) => {
                        return Err(e);
                    },
                }
                match state.clear_stage() {
                    Ok(()) => {},
                    Err(e) => {
                        return Err(e);
                    },
                }
                let r = self.1.perform_all(state);
                proof {
                    lemma_cons_attempts(*self, *old(self));
                    if r is Ok {
                        lemma_all_driven(*self, *old(self));
                    }
                }
                r
            },
        }
    }
}

/// The attempt histories of a head/tail pair line up: position zero is the
/// head, every later position indexes the tail, and the length is one more
/// than the tail's.
proof fn lemma_cons_attempts<Head: Stage, Tail: StagesTuple>(a: (Head, Tail), b: (Head, Tail))
    ensures
        a.attempts_seq().len() == 1 + a.1.attempts_seq().len(),
        b.attempts_seq().len() == 1 + b.1.attempts_seq().len(),
        a.attempts_seq()[0] == a.0.attempts(),
        b.attempts_seq()[0] == b.0.attempts(),
        forall|p: int|
            1 <= p < a.attempts_seq().len() ==> #[trigger] a.attempts_seq()[p]
                == a.1.attempts_seq()[p - 1],
        forall|p: int|
            1 <= p < b.attempts_seq().len() ==> #[trigger] b.attempts_seq()[p]
                == b.1.attempts_seq()[p - 1],
{
}

/// When the head was driven once and every tail stage was driven once, every
/// stage of the pair was driven once.
proof fn lemma_all_driven<Head: Stage, Tail: StagesTuple>(a: (Head, Tail), b: (Head, Tail))
    requires
        a.0.attempts() == b.0.attempts() + 1,
        a.1.attempts_seq().len() == b.1.attempts_seq().len(),
        forall|p: int|
            0 <= p < b.1.attempts_seq().len() ==> #[trigger] a.1.attempts_seq()[p]
                == b.1.attempts_seq()[p] + 1,
    ensures
        forall|p: int|
            0 <= p < b.attempts_seq().len() ==> #[trigger] a.attempts_seq()[p]
                == b.attempts_seq()[p] + 1,
{
    lemma_cons_attempts(a, b);
    assert forall|p: int|
        0 <= p < b.attempts_seq().len() implies #[trigger] a.attempts_seq()[p]
        == b.attempts_seq()[p] + 1 by {
        if p > 0 {
            assert(a.attempts_seq()[p] == a.1.attempts_seq()[p - 1]);
            assert(b.attempts_seq()[p] == b.1.attempts_seq()[p - 1]);
        }
    }
}

/// A stage that counts how often it ran, guarded by a retry budget.  The
/// simplest useful stage: it exercises the whole restart protocol and serves
/// as the reference implementation of [`Stage`].
pub struct CountingStage {
    /// The stage's identity key.
    pub key_id: u64,
    /// How many retries of one corpus entry this stage tolerates.
    pub max_retries: usize,
    /// How often `perform` ran.
    pub performs: u64,
    /// How many restart-tracked rounds began.
    pub rounds: Ghost<nat>,
}

impl CountingStage {
    /// A fresh stage under the given identity key.
    pub fn new(key_id: u64, max_retries: usize) -> (r: CountingStage)
        ensures
            r.key() == key_id,
            r.performs == 0,
            r.attempts() == 0,
    {
        CountingStage { key_id, max_retries, performs: 0, rounds: Ghost(0) }
    }
}

impl Stage for CountingStage {
    open spec fn key(&self) -> u64 {
        self.key_id
    }

    open spec fn tracks_retries(&self) -> bool {
        true
    }

    open spec fn attempts(&self) -> nat {
        self.rounds@
    }

    fn name_key(&self) -> (k: u64) {
        self.key_id
    }

    fn restart_progress_should_run(&mut self, state: &mut FuzzState) -> (r: Result<bool, Error>) {
        proof {
            self.rounds@ = self.rounds@ + 1;
        }
        if self.max_retries < usize::MAX {
            let k = self.name_key();
            RetryRestartHelper::restart_progress_should_run(state, k, self.max_retries)
        } else {
            // A budget this large cannot be counted down.
            Err(Error::illegal_state())
        }
    }

    fn perform(&mut self, state: &mut FuzzState) -> (r: Result<(), Error>) {
        if self.performs < u64::MAX {
            self.performs = self.performs + 1;
        }
        if state.executions < u64::MAX {
            state.executions = state.executions + 1;
        }
        Ok(())
    }

    fn clear_restart_progress(&mut self, state: &mut FuzzState) -> (r: Result<(), Error>) {
        let k = self.name_key();
        RetryRestartHelper::clear_restart_progress(state, k)
    }
}

/// A stage around a caller-supplied closure.
///
/// Only the container is part of the verified core: driving an arbitrary
/// closure as a stage is left to the surrounding harness, because a
/// caller-supplied closure carries no contract the staging machinery could
/// rely on.
pub struct ClosureStage<CB> {
    closure: CB,
}

impl<CB> ClosureStage<CB> {
    /// Wrap a closure as a stage body.
    pub fn new(closure: CB) -> (r: ClosureStage<CB>) {
        ClosureStage { closure }
    }

    /// Hand the closure back to the harness that drives it.
    pub fn into_inner(self) -> (r: CB) {
        self.closure
    }
}

/// Runs one input against the target.
pub trait Executor: Sized {
    /// Every run performed, as the input together with how it ended, oldest
    /// first.
    spec fn runs_log(&self) -> Seq<(Seq<u8>, ExitKind)>;

    /// Execute the target once on `input`.  The executor may advance the
    /// execution counter and its own bookkeeping, but leaves the staging
    /// bookkeeping alone; a completed run is appended to its log.
    fn run_target(&mut self, state: &mut FuzzState, input: &Vec<u8>) -> (r: Result<ExitKind, Error>)
        requires
            old(state).inv(),
        ensures
            final (state).inv(),
            final (state).stage_status@ == old(state).stage_status@,
            final (state).stage_depth == old(state).stage_depth,
            final (state).current_corpus_id == old(state).current_corpus_id,
            r matches Ok(k) ==> final (self).runs_log() == old(self).runs_log().push((input@, k)),
            r is Err ==> final (self).runs_log() == old(self).runs_log(),
    ;
}

/// An executor that always reports a clean run and counts executions.
pub struct CountingExecutor {
    /// How many runs this executor performed.
    pub runs: u64,
    /// The runs performed, with their outcomes.
    pub log: Ghost<Seq<(Seq<u8>, ExitKind)>>,
}

impl CountingExecutor {
    /// A fresh executor.
    pub fn new() -> (r: CountingExecutor)
        ensures
            r.runs == 0,
            r.runs_log() == Seq::<(Seq<u8>, ExitKind)>::empty(),
    {
        CountingExecutor { runs: 0, log: Ghost(Seq::empty()) }
    }
}

impl Executor for CountingExecutor {
    open spec fn runs_log(&self) -> Seq<(Seq<u8>, ExitKind)> {
        self.log@
    }

    fn run_target(&mut self, state: &mut FuzzState, input: &Vec<u8>) -> (r: Result<
        ExitKind,
        Error,
    >) {
        if self.runs < u64::MAX {
            self.runs = self.runs + 1;
        }
        if state.executions < u64::MAX {
            state.executions = state.executions + 1;
        }
        proof {
            self.log@ = self.log@.push((input@, ExitKind::Okay));
        }
        Ok(ExitKind::Okay)
    }
}

/// A push-style stage: instead of being driven input by input, it hands
/// inputs out and is told afterwards how each run ended.
pub trait PushStage: Sized {
    /// An upper bound on how many more inputs this stage will hand out in the
    /// current round.  Each handed-out input strictly shrinks it.
    spec fn remaining(&self) -> nat;

    /// The corpus entry this round works on.
    spec fn corpus_target(&self) -> Option<u64>;

    /// Every input handed out so far, oldest first.
    spec fn handed(&self) -> Seq<Seq<u8>>;

    /// Every outcome reported back so far: the input together with how its
    /// run ended, oldest first.
    spec fn reported(&self) -> Seq<(Seq<u8>, ExitKind)>;

    /// Tell the stage which corpus entry the round works on.
    fn set_current_corpus_id(&mut self, corpus_id: u64)
        ensures
            final (self).corpus_target() == Some(corpus_id),
            final (self).handed() == old(self).handed(),
            final (self).reported() == old(self).reported(),
    ;

    /// Set up the round.
    fn init(&mut self, state: &mut FuzzState) -> (r: Result<(), Error>)
        requires
            old(state).inv(),
        ensures
            final (state).inv(),
            final (state).stage_status@ == old(state).stage_status@,
            final (state).stage_depth == old(state).stage_depth,
            final (state).current_corpus_id == old(state).current_corpus_id,
            final (self).corpus_target() == old(self).corpus_target(),
            final (self).handed() == old(self).handed(),
            final (self).reported() == old(self).reported(),
    ;

    /// Hand out the next input, or nothing when the round is over.
    fn pre_exec(&mut self, state: &mut FuzzState) -> (r: Option<Result<Vec<u8>, Error>>)
        requires
            old(state).inv(),
        ensures
            final (state).inv(),
            final (state).stage_status@ == old(state).stage_status@,
            final (state).stage_depth == old(state).stage_depth,
            final (state).current_corpus_id == old(state).current_corpus_id,
            final (self).corpus_target() == old(self).corpus_target(),
            final (self).reported() == old(self).reported(),
            r is Some ==> final (self).remaining() < old(self).remaining(),
            r matches Some(Ok(i)) ==> final (self).handed() == old(self).handed().push(i@),
            !(r matches Some(Ok(i))) ==> final (self).handed() == old(self).handed(),
    ;

    /// Learn how the run on the last handed-out input ended.
    fn post_exec(&mut self, state: &mut FuzzState, input: Vec<u8>, exit_kind: ExitKind) -> (r:
        Result<(), Error>)
        requires
            old(state).inv(),
        ensures
            final (state).inv(),
            final (state).stage_status@ == old(state).stage_status@,
            final (state).stage_depth == old(state).stage_depth,
            final (state).current_corpus_id == old(state).current_corpus_id,
            final (self).corpus_target() == old(self).corpus_target(),
            final (self).handed() == old(self).handed(),
            final (self).remaining() <= old(self).remaining(),
            r matches Ok(()) ==> final (self).reported() == old(self).reported().push(
                (input@, exit_kind),
            ),
            r is Err ==> final (self).reported() == old(self).reported(),
    ;

    /// Tear down the round.
    fn deinit(&mut self, state: &mut FuzzState) -> (r: Result<(), Error>)
        requires
            old(state).inv(),
        ensures
            final (state).inv(),
            final (state).stage_status@ == old(state).stage_status@,
            final (state).stage_depth == old(state).stage_depth,
            final (state).current_corpus_id == old(state).current_corpus_id,
            final (self).corpus_target() == old(self).corpus_target(),
            final (self).handed() == old(self).handed(),
            final (self).reported() == old(self).reported(),
    ;
}

/// A push stage that hands out a fixed queue of inputs and records how each
/// run ended.
pub struct QueuePushStage {
    /// The inputs to hand out, front to back.
    pub inputs: Vec<Vec<u8>>,
    /// How many inputs were handed out already.
    pub cursor: usize,
    /// The corpus entry this round works on.
    pub corpus_id: Option<u64>,
    /// How each completed run ended, in order.
    pub outcomes: Vec<ExitKind>,
    /// The inputs handed out, in order.
    pub handed_log: Ghost<Seq<Seq<u8>>>,
    /// The outcomes reported back, with their inputs, in order.
    pub report_log: Ghost<Seq<(Seq<u8>, ExitKind)>>,
}

impl QueuePushStage {
    /// A push stage over the given queue of inputs.
    pub fn new(inputs: Vec<Vec<u8>>) -> (r: QueuePushStage)
        ensures
            r.inputs@ == inputs@,
            r.cursor == 0,
            r.corpus_target() is None,
            r.outcomes@.len() == 0,
            r.handed() == Seq::<Seq<u8>>::empty(),
            r.reported() == Seq::<(Seq<u8>, ExitKind)>::empty(),
    {
        QueuePushStage {
            inputs,
            cursor: 0,
            corpus_id: None,
            outcomes: Vec::new(),
            handed_log: Ghost(Seq::empty()),
            report_log: Ghost(Seq::empty()),
        }
    }
}

impl PushStage for QueuePushStage {
    open spec fn remaining(&self) -> nat {
        if self.cursor <= self.inputs@.len() {
            (self.inputs@.len() - self.cursor) as nat
        } else {
            0
        }
    }

    open spec fn corpus_target(&self) -> Option<u64> {
        self.corpus_id
    }

    open spec fn handed(&self) -> Seq<Seq<u8>> {
        self.handed_log@
    }

    open spec fn reported(&self) -> Seq<(Seq<u8>, ExitKind)> {
        self.report_log@
    }

    fn set_current_corpus_id(&mut self, corpus_id: u64) {
        self.corpus_id = Some(corpus_id);
    }

    fn init(&mut self, state: &mut FuzzState) -> (r: Result<(), Error>) {
        Ok(())
    }

    fn pre_exec(&mut self, state: &mut FuzzState) -> (r: Option<Result<Vec<u8>, Error>>) {
        if self.cursor < self.inputs.len() {
            let input = clone_bytes(&self.inputs[self.cursor]);
            self.cursor = self.cursor + 1;
            proof {
                self.handed_log@ = self.handed_log@.push(input@);
            }
            Some(Ok(input))
        } else {
            None
        }
    }

    fn post_exec(&mut self, state: &mut FuzzState, input: Vec<u8>, exit_kind: ExitKind) -> (r:
        Result<(), Error>) {
        self.outcomes.push(exit_kind);
        proof {
            self.report_log@ = self.report_log@.push((input@, exit_kind));
        }
        Ok(())
    }

    fn deinit(&mut self, state: &mut FuzzState) -> (r: Result<(), Error>) {
        Ok(())
    }
}

/// Lets a push stage run as ordinary staged work: the adapter drives the
/// pull loop around it.
pub struct PushStageAdapter<PS> {
    /// The wrapped push stage.
    pub push_stage: PS,
}

impl<PS: PushStage> PushStageAdapter<PS> {
    /// Wrap the given push stage.
    pub fn new(push_stage: PS) -> (r: PushStageAdapter<PS>)
        ensures
            r.push_stage == push_stage,
    {
        PushStageAdapter { push_stage }
    }

    /// Drive one full round of the push stage against the current corpus
    /// entry: initialize, then alternate handing out inputs and reporting
    /// outcomes until the stage is done, then tear down.  Every handed-out
    /// input is run by the executor and its outcome reported back, in order.
    pub fn perform<E: Executor>(&mut self, executor: &mut E, state: &mut FuzzState) -> (r: Result<
        (),
        Error,
    >)
        requires
            old(state).inv(),
        ensures
            final (state).inv(),
            final (state).stage_status@ == old(state).stage_status@,
            final (state).stage_depth == old(state).stage_depth,
            final (state).current_corpus_id == old(state).current_corpus_id,
            old(state).current_corpus_id is None ==> ({
                &&& r matches Err(e) && e == Error::IllegalState
                &&& *final (state) == *old(state)
                &&& *final (self) == *old(self)
                &&& *final (executor) == *old(executor)
            }),
            old(state).current_corpus_id matches Some(cid) ==> final(self).push_stage.corpus_target() == Some(cid),
            r matches Ok(()) ==> ({
                let handed0 = old(self).push_stage.handed();
                let handed1 = final (self).push_stage.handed();
                let log0 = old(executor).runs_log();
                let log1 = final (executor).runs_log();
                &&& handed1.len() >= handed0.len()
                &&& handed1.take(handed0.len() as int) == handed0
                &&& log1.len() == log0.len() + handed1.len() - handed0.len()
                &&& log1.take(log0.len() as int) == log0
                &&& forall|j: int|
                    0 <= j < handed1.len() - handed0.len() ==> (#[trigger] log1[log0.len() + j]).0
                        == handed1[handed0.len() + j]
                &&& final (self).push_stage.reported() == old(self).push_stage.reported()
                    + log1.skip(log0.len() as int)
            }),
    {
        let corpus_id = match state.current_corpus_id {
            Some(c) => c,
            None => {
                // The state is not currently processing a corpus entry.
                return Err(Error::illegal_state());
            },
        };
        let ghost h0 = self.push_stage.handed();
        let ghost rl0 = executor.runs_log();
        let ghost rep0 = self.push_stage.reported();
        self.push_stage.set_current_corpus_id(corpus_id);
        match self.push_stage.init(state) {
            Ok(()) => {},
            Err(e) => {
                return Err(e);
            },
        }
        proof {
            assert(self.push_stage.handed().take(h0.len() as int) =~= h0);
            assert(executor.runs_log().take(rl0.len() as int) =~= rl0);
            assert(self.push_stage.reported() =~= rep0 + executor.runs_log().skip(
                rl0.len() as int,
            ));
        }
        loop
            invariant
                state.inv(),
                state.stage_status@ == old(state).stage_status@,
                state.stage_depth == old(state).stage_depth,
                state.current_corpus_id == old(state).current_corpus_id,
                self.push_stage.corpus_target() == Some(corpus_id),
                old(state).current_corpus_id == Some(corpus_id),
                h0 == old(self).push_stage.handed(),
                rl0 == old(executor).runs_log(),
                rep0 == old(self).push_stage.reported(),
                self.push_stage.handed().len() >= h0.len(),
                self.push_stage.handed().take(h0.len() as int) == h0,
                executor.runs_log().len() == rl0.len() + self.push_stage.handed().len()
                    - h0.len(),
                executor.runs_log().take(rl0.len() as int) == rl0,
                forall|j: int|
                    0 <= j < self.push_stage.handed().len() - h0.len() ==> (
                    #[trigger] executor.runs_log()[rl0.len() + j]).0 == self.push_stage.handed()[
                    h0.len() + j],
                self.push_stage.reported() == rep0 + executor.runs_log().skip(rl0.len() as int),
            decreases self.push_stage.remaining(),
        {
            let ghost handed_pre = self.push_stage.handed();
            let ghost log_pre = executor.runs_log();
            let input = match self.push_stage.pre_exec(state) {
                None => {
                    break ;
                },
                Some(Ok(i)) => i,
                Some(Err(e)) => {
                    return Err(e);
                },
            };
            let ghost iv = input@;
            let exit_kind = match executor.run_target(state, &input) {
                Ok(k) => k,
                Err(e) => {
                    return Err(e);
                },
            };
            match self.push_stage.post_exec(state, input, exit_kind) {
                Ok(()) => {},
                Err(e) => {
                    return Err(e);
                },
            }
            proof {
                assert(self.push_stage.handed() =~= handed_pre.push(iv));
                assert(executor.runs_log() =~= log_pre.push((iv, exit_kind)));
                assert(self.push_stage.handed().take(h0.len() as int) =~= handed_pre.take(
                    h0.len() as int,
                ));
                assert(executor.runs_log().take(rl0.len() as int) =~= log_pre.take(
                    rl0.len() as int,
                ));
                assert(executor.runs_log().skip(rl0.len() as int) =~= log_pre.skip(
                    rl0.len() as int,
                ).push((iv, exit_kind)));
                assert(self.push_stage.reported() =~= rep0 + executor.runs_log().skip(
                    rl0.len() as int,
                ));
                assert forall|j: int|
                    0 <= j < self.push_stage.handed().len() - h0.len() implies (
                #[trigger] executor.runs_log()[rl0.len() + j]).0 == self.push_stage.handed()[
                h0.len() + j] by {
                    if j < handed_pre.len() - h0.len() {
                        assert(executor.runs_log()[rl0.len() + j] == log_pre[rl0.len() + j]);
                        assert(self.push_stage.handed()[h0.len() + j] == handed_pre[h0.len() + j]);
                    } else {
                        assert(executor.runs_log()[rl0.len() + j] == (iv, exit_kind));
                        assert(self.push_stage.handed()[h0.len() + j] == iv);
                    }
                }
            }
        }
        self.push_stage.deinit(state)
    }

    /// Restart tracking of the adapter: the wrapped stage is always run.
    pub fn restart_progress_should_run(&mut self, state: &mut FuzzState) -> (r: Result<bool, Error>)
        ensures
            r == Ok::<bool, Error>(true),
            *final (state) == *old(state),
            *final (self) == *old(self),
    {
        Ok(true)
    }

    /// The adapter keeps no restart tracking to clear.
    pub fn clear_restart_progress(&mut self, state: &mut FuzzState) -> (r: Result<(), Error>)
        ensures
            r == Ok::<(), Error>(()),
            *final (state) == *old(state),
            *final (self) == *old(self),
    {
        Ok(())
    }
}

} // verus!

//! The per-process fuzzer state that the staging scaffolding works on.
//!
//! One process owns one [`FuzzState`]: a global execution counter, the corpus
//! entry currently being worked on, a stack of stage-progress slots (one per
//! nesting level of staged work), and the two kinds of per-stage restart
//! metadata.  The stage slot makes work resumable: it is `Some(i)` exactly
//! between `set_current_stage_idx(i)` and `clear_stage()`, and is persisted
//! across a process restart by the surrounding harness.

use vstd::prelude::*;

use crate::errors::Error;
use crate::restart::{keys_unique, rmap_of, ExecutionCountRestartHelperMetadata, RetryRestartHelper, RetryView};

verus! {

/// The index of a stage: the length of the stages tuple's remaining tail,
/// counted from the end, so that a head/tail recursion can decide resume
/// locally without knowing the total count.
#[derive(Clone, Copy, Debug, PartialEq, Eq, Hash, Structural)]
pub struct StageId(pub usize);

/// The state of one fuzzer process, as the staging scaffolding sees it.
pub struct FuzzState {
    /// How many target executions this process has performed.
    pub executions: u64,
    /// The corpus entry currently being worked on, if any.
    pub current_corpus_id: Option<u64>,
    /// The nesting level of staged work currently executing.
    pub stage_depth: usize,
    /// One stage-progress slot per nesting level; the slot at `stage_depth`
    /// names the currently executing stage, `None` between stages.
    pub stage_status: Vec<Option<StageId>>,
    /// Per-stage retry metadata, keyed by the stage's identity key.
    pub retry_meta: Vec<(u64, RetryRestartHelper)>,
    /// The single slot of execution-count restart metadata.
    pub exec_count_meta: Option<ExecutionCountRestartHelperMetadata>,
}

impl FuzzState {
    /// Well-formedness: the stage stack always has a slot for the current
    /// depth, and retry metadata keys are unique.
    pub open spec fn inv(self) -> bool {
        &&& self.stage_depth < self.stage_status@.len()
        &&& keys_unique(self.retry_meta@)
    }

    /// The retry metadata as a map from stage key to entry.
    pub open spec fn rmap(self) -> Map<u64, RetryView> {
        rmap_of(self.retry_meta@)
    }

    /// The stage-progress slot of the current nesting level.
    pub open spec fn cur_stage_idx(self) -> Option<StageId> {
        self.stage_status@[self.stage_depth as int]
    }

    /// A fresh state: nothing executed, nothing in progress, no metadata.
    pub fn new() -> (r: FuzzState)
        ensures
            r.inv(),
            r.executions == 0,
            r.current_corpus_id is None,
            r.stage_depth == 0,
            r.stage_status@ =~= seq![Option::<StageId>::None],
            r.rmap() == Map::<u64, RetryView>::empty(),
            r.cur_stage_idx() is None,
            r.exec_count_meta is None,
    {
        let mut slots: Vec<Option<StageId>> = Vec::new();
        slots.push(None);
        FuzzState {
            executions: 0,
            current_corpus_id: None,
            stage_depth: 0,
            stage_status: slots,
            retry_meta: Vec::new(),
            exec_count_meta: None,
        }
    }

    /// Record that we have started processing the stage with the given index
    /// at the current nesting level.
    pub fn set_current_stage_idx(&mut self, idx: StageId) -> (r: Result<(), Error>)
        requires
            old(self).inv(),
        ensures
            final (self).inv(),
            r matches Ok(()),
            final (self).stage_status@ == old(self).stage_status@.update(
                old(self).stage_depth as int,
                Some(idx),
            ),
            final (self).cur_stage_idx() == Some(idx),
            final (self).executions == old(self).executions,
            final (self).current_corpus_id == old(self).current_corpus_id,
            final (self).stage_depth == old(self).stage_depth,
            final (self).retry_meta == old(self).retry_meta,
            final (self).exec_count_meta == old(self).exec_count_meta,
    {
        let d = self.stage_depth;
        self.stage_status.remove(d);
        self.stage_status.insert(d, Some(idx));
        proof {
            assert(self.stage_status@ =~= old(self).stage_status@.update(
                old(self).stage_depth as int,
                Some(idx),
            ));
        }
        Ok(())
    }

    /// Record that we are done processing the current stage.
    pub fn clear_stage(&mut self) -> (r: Result<(), Error>)
        requires
            old(self).inv(),
        ensures
            final (self).inv(),
            r matches Ok(()),
            final (self).stage_status@ == old(self).stage_status@.update(
                old(self).stage_depth as int,
                Option::<StageId>::None,
            ),
            final (self).cur_stage_idx() is None,
            final (self).executions == old(self).executions,
            final (self).current_corpus_id == old(self).current_corpus_id,
            final (self).stage_depth == old(self).stage_depth,
            final (self).retry_meta == old(self).retry_meta,
            final (self).exec_count_meta == old(self).exec_count_meta,
    {
        let d = self.stage_depth;
        self.stage_status.remove(d);
        self.stage_status.insert(d, None);
        proof {
            assert(self.stage_status@ =~= old(self).stage_status@.update(
                old(self).stage_depth as int,
                Option::<StageId>::None,
            ));
        }
        Ok(())
    }

    /// The stage index currently in progress at this nesting level, typically
    /// read after a state recovery or transfer.
    pub fn current_stage_idx(&self) -> (r: Result<Option<StageId>, Error>)
        requires
            self.inv(),
        ensures
            r matches Ok(o) && o == self.cur_stage_idx(),
    {
        Ok(self.stage_status[self.stage_depth])
    }

    /// Enter a nested stage scope, resuming its previous progress slot if one
    /// is already present, else opening a fresh one.
    pub fn enter_inner_stage(&mut self) -> (r: Result<(), Error>)
        requires
            old(self).inv(),
        ensures
            final (self).inv(),
            r matches Ok(()),
            final (self).stage_depth == old(self).stage_depth + 1,
            old(self).stage_depth + 1 < old(self).stage_status@.len() ==> final(self).stage_status@ == old(self).stage_status@,
            old(self).stage_depth + 1 == old(self).stage_status@.len() ==> final(self).stage_status@ == old(self).stage_status@.push(Option::<StageId>::None),
            final (self).executions == old(self).executions,
            final (self).current_corpus_id == old(self).current_corpus_id,
            final (self).retry_meta == old(self).retry_meta,
            final (self).exec_count_meta == old(self).exec_count_meta,
    {
        let l = self.stage_status.len();
        if l - self.stage_depth == 1 {
            self.stage_status.push(None);
        }
        self.stage_depth = self.stage_depth + 1;
        Ok(())
    }

    /// Leave a nested stage scope.  The inner slot is kept, so a later
    /// re-entry resumes whatever status the scope left behind.
    pub fn exit_inner_stage(&mut self) -> (r: Result<(), Error>)
        requires
            old(self).inv(),
        ensures
            final (self).inv(),
            old(self).stage_depth > 0 ==> (r matches Ok(()) && final (self).stage_depth == old(self).stage_depth - 1),
            old(self).stage_depth == 0 ==> (r matches Err(e) && e == Error::IllegalState && final(self).stage_depth == 0),
            final (self).stage_status@ == old(self).stage_status@,
            final (self).executions == old(self).executions,
            final (self).current_corpus_id == old(self).current_corpus_id,
            final (self).retry_meta == old(self).retry_meta,
            final (self).exec_count_meta == old(self).exec_count_meta,
    {
        if self.stage_depth == 0 {
            return Err(Error::illegal_state());
        }
        self.stage_depth = self.stage_depth - 1;
        Ok(())
    }

    /// Notify of a process reset from which staged work may recover.  The
    /// persisted progress slots are deliberately kept.
    pub fn on_restart(&mut self) -> (r: Result<(), Error>)
        requires
            old(self).inv(),
        ensures
            *final (self) == *old(self),
            r matches Ok(()),
    {
        Ok(())
    }
}

/// Types that track which stage of a stages tuple is executing.
pub trait HasCurrentStage {
    /// The stage-progress slot of the current nesting level.
    spec fn cur_idx(&self) -> Option<StageId>;

    /// Well-formedness of the tracker.
    spec fn tracker_inv(&self) -> bool;

    /// Set the current stage: we have started processing it.
    fn set_current_stage_idx(&mut self, idx: StageId) -> (r: Result<(), Error>)
        requires
            old(self).tracker_inv(),
        ensures
            final (self).tracker_inv(),
            r matches Ok(()) ==> final (self).cur_idx() == Some(idx),
    ;

    /// Clear the current stage: we are done processing it.
    fn clear_stage(&mut self) -> (r: Result<(), Error>)
        requires
            old(self).tracker_inv(),
        ensures
            final (self).tracker_inv(),
            r matches Ok(()) ==> final (self).cur_idx() is None,
    ;

    /// Fetch the current stage, typically after a state recovery.
    fn current_stage_idx(&self) -> (r: Result<Option<StageId>, Error>)
        requires
            self.tracker_inv(),
        ensures
            r matches Ok(o) ==> o == self.cur_idx(),
    ;

    /// Notify of a reset from which we may recover.
    fn on_restart(&mut self) -> (r: Result<(), Error>)
        requires
            old(self).tracker_inv(),
        ensures
            final (self).tracker_inv(),
    ;
}

/// Types that track nested stages: stages which themselves contain stage
/// tuples enter and leave an inner scope around the nested traversal.
pub trait HasNestedStageStatus: HasCurrentStage {
    /// Enter a stage scope, potentially resuming to an inner stage status.
    fn enter_inner_stage(&mut self) -> (r: Result<(), Error>)
        requires
            old(self).tracker_inv(),
        ensures
            final (self).tracker_inv(),
    ;

    /// Exit a stage scope.
    fn exit_inner_stage(&mut self) -> (r: Result<(), Error>)
        requires
            old(self).tracker_inv(),
        ensures
            final (self).tracker_inv(),
    ;
}

impl HasCurrentStage for FuzzState {
    open spec fn cur_idx(&self) -> Option<StageId> {
        self.cur_stage_idx()
    }

    open spec fn tracker_inv(&self) -> bool {
        self.inv()
    }

    fn set_current_stage_idx(&mut self, idx: StageId) -> (r: Result<(), Error>) {
        FuzzState::set_current_stage_idx(self, idx)
    }

    fn clear_stage(&mut self) -> (r: Result<(), Error>) {
        FuzzState::clear_stage(self)
    }

    fn current_stage_idx(&self) -> (r: Result<Option<StageId>, Error>) {
        FuzzState::current_stage_idx(self)
    }

    fn on_restart(&mut self) -> (r: Result<(), Error>) {
        FuzzState::on_restart(self)
    }
}

impl HasNestedStageStatus for FuzzState {
    fn enter_inner_stage(&mut self) -> (r: Result<(), Error>) {
        FuzzState::enter_inner_stage(self)
    }

    fn exit_inner_stage(&mut self) -> (r: Result<(), Error>) {
        FuzzState::exit_inner_stage(self)
    }
}

} // verus!

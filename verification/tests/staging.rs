//! Staged work: restart helpers, resume protocol, push-stage driving.

use centralized_events::errors::Error;
use centralized_events::restart::{ExecutionCountRestartHelper, RetryRestartHelper};
use centralized_events::stages::{
    CountingExecutor, CountingStage, PushStageAdapter, QueuePushStage, Stage, StagesTuple,
};
use centralized_events::state::{FuzzState, StageId};
use centralized_events::events::ExitKind;

#[test]
fn test_tries_progress() -> Result<(), Error> {
    let stage_key: u64 = 1;

    let mut state = FuzzState::new();
    state.current_corpus_id = Some(0);

    for _ in 0..10 {
        // used normally, no retries means we never skip
        assert!(RetryRestartHelper::restart_progress_should_run(
            &mut state, stage_key, 1
        )?);
        RetryRestartHelper::clear_restart_progress(&mut state, stage_key)?;
    }

    for _ in 0..10 {
        // used normally, only one retry means we never skip
        assert!(RetryRestartHelper::restart_progress_should_run(
            &mut state, stage_key, 2
        )?);
        assert!(RetryRestartHelper::restart_progress_should_run(
            &mut state, stage_key, 2
        )?);
        RetryRestartHelper::clear_restart_progress(&mut state, stage_key)?;
    }

    assert!(RetryRestartHelper::restart_progress_should_run(
        &mut state, stage_key, 2
    )?);
    // task failed, let's resume
    // we still have one more try!
    assert!(RetryRestartHelper::restart_progress_should_run(
        &mut state, stage_key, 2
    )?);

    // task failed, let's resume
    // out of retries, so now we skip
    assert!(!RetryRestartHelper::restart_progress_should_run(
        &mut state, stage_key, 2
    )?);
    RetryRestartHelper::clear_restart_progress(&mut state, stage_key)?;

    // we previously exhausted this testcase's retries, so we skip
    assert!(!RetryRestartHelper::restart_progress_should_run(
        &mut state, stage_key, 2
    )?);
    RetryRestartHelper::clear_restart_progress(&mut state, stage_key)?;

    Ok(())
}

#[test]
fn retry_exhaustion_counts_three_then_skips() {
    // With a budget of two retries, three consecutive calls answer
    // true, true, false; afterwards the entry is skipped for good.
    let mut state = FuzzState::new();
    state.current_corpus_id = Some(7);
    let key: u64 = 42;

    assert!(RetryRestartHelper::restart_progress_should_run(&mut state, key, 2).unwrap());
    assert!(RetryRestartHelper::restart_progress_should_run(&mut state, key, 2).unwrap());
    assert!(!RetryRestartHelper::restart_progress_should_run(&mut state, key, 2).unwrap());
    RetryRestartHelper::clear_restart_progress(&mut state, key).unwrap();

    // The corpus entry is in the skipped set: no further attempts.
    assert!(!RetryRestartHelper::restart_progress_should_run(&mut state, key, 2).unwrap());
    RetryRestartHelper::clear_restart_progress(&mut state, key).unwrap();
    assert!(!RetryRestartHelper::restart_progress_should_run(&mut state, key, 2).unwrap());
}

#[test]
fn retry_zero_budget_skips_at_once() {
    // A budget of zero is spent by the very first call: it already answers
    // false and records the entry as skipped.
    let mut state = FuzzState::new();
    state.current_corpus_id = Some(3);
    let key: u64 = 5;

    assert!(!RetryRestartHelper::restart_progress_should_run(&mut state, key, 0).unwrap());
    RetryRestartHelper::clear_restart_progress(&mut state, key).unwrap();
    assert!(!RetryRestartHelper::restart_progress_should_run(&mut state, key, 0).unwrap());

    // A different corpus entry on the same stage is skipped too once the
    // budget hit zero for it.
    state.current_corpus_id = Some(4);
    RetryRestartHelper::clear_restart_progress(&mut state, key).unwrap();
    assert!(!RetryRestartHelper::restart_progress_should_run(&mut state, key, 0).unwrap());
}

#[test]
fn retry_without_corpus_entry_is_illegal() {
    let mut state = FuzzState::new();
    assert_eq!(
        RetryRestartHelper::restart_progress_should_run(&mut state, 1, 1),
        Err(Error::IllegalState)
    );
}

#[test]
fn retry_clear_without_entry_is_key_not_found() {
    let mut state = FuzzState::new();
    assert_eq!(
        RetryRestartHelper::clear_restart_progress(&mut state, 9),
        Err(Error::KeyNotFound)
    );
}

#[test]
fn clean_traversal_clears_stage_index() {
    // A fresh three-stage traversal runs every stage once and leaves no
    // resume point behind.
    let mut state = FuzzState::new();
    state.current_corpus_id = Some(0);
    let mut stages = (
        CountingStage::new(1, 3),
        (CountingStage::new(2, 3), (CountingStage::new(3, 3), ())),
    );

    stages.perform_all(&mut state).unwrap();

    assert_eq!(stages.0.performs, 1);
    assert_eq!(stages.1 .0.performs, 1);
    assert_eq!(stages.1 .1 .0.performs, 1);
    assert_eq!(state.current_stage_idx().unwrap(), None);
}

#[test]
fn resume_after_crash_skips_completed_head() {
    // Tuple (A, B, C), persisted index 2: "B is next".  The traversal skips
    // A (its remaining length 3 is above the index), runs B as the resume
    // point, clears the index, and runs C normally.
    let mut state = FuzzState::new();
    state.current_corpus_id = Some(0);
    state.set_current_stage_idx(StageId(2)).unwrap();
    let mut stages = (
        CountingStage::new(1, 3),
        (CountingStage::new(2, 3), (CountingStage::new(3, 3), ())),
    );

    stages.perform_all(&mut state).unwrap();

    assert_eq!(stages.0.performs, 0);
    assert_eq!(stages.1 .0.performs, 1);
    assert_eq!(stages.1 .1 .0.performs, 1);
    assert_eq!(state.current_stage_idx().unwrap(), None);
}

#[test]
fn stale_resume_point_at_tuple_end_is_illegal() {
    // An index of 0 survives every skip and reaches the empty tail: the
    // traversal that set it never completed, which is an illegal state.
    let mut state = FuzzState::new();
    state.current_corpus_id = Some(0);
    state.set_current_stage_idx(StageId(0)).unwrap();
    let mut stages = (CountingStage::new(1, 3), ());

    assert_eq!(stages.perform_all(&mut state), Err(Error::IllegalState));
}

#[test]
fn perform_restartable_clears_retry_tracking() {
    // After a clean perform_restartable, the stage's retry metadata is
    // between attempts: tries_remaining is cleared.
    let mut state = FuzzState::new();
    state.current_corpus_id = Some(0);
    let mut stage = CountingStage::new(8, 2);

    stage.perform_restartable(&mut state).unwrap();

    assert_eq!(stage.performs, 1);
    // Running again works: the budget was reset by the clear.
    stage.perform_restartable(&mut state).unwrap();
    assert_eq!(stage.performs, 2);
}

#[test]
fn execution_count_helper_measures_progress() {
    let mut state = FuzzState::new();
    state.executions = 5;
    let mut helper = ExecutionCountRestartHelper::new();

    assert!(helper.restart_progress_should_run(&mut state).unwrap());
    state.executions = 12;
    assert_eq!(helper.execs_since_progress_start(&mut state).unwrap(), 7);

    helper.clear_restart_progress(&mut state).unwrap();
    assert!(state.exec_count_meta.is_none());

    // With the cache and the metadata both gone, progress is unknowable.
    assert_eq!(
        helper.execs_since_progress_start(&mut state),
        Err(Error::IllegalState)
    );
}

#[test]
fn execution_count_helper_resumes_from_metadata() {
    // A respawned process starts with a cold cache but finds the persisted
    // metadata of the previous round.
    let mut state = FuzzState::new();
    state.executions = 20;
    let mut before = ExecutionCountRestartHelper::new();
    before.restart_progress_should_run(&mut state).unwrap();

    let mut after = ExecutionCountRestartHelper::new();
    state.executions = 26;
    assert_eq!(after.execs_since_progress_start(&mut state).unwrap(), 6);

    // The second round initializes afresh only after a clear.
    assert!(after.restart_progress_should_run(&mut state).unwrap());
    assert_eq!(state.exec_count_meta.unwrap().started_at_execs, 20);
}

#[test]
fn nested_stage_scopes_track_depth() {
    let mut state = FuzzState::new();
    assert_eq!(state.stage_depth, 0);
    state.enter_inner_stage().unwrap();
    assert_eq!(state.stage_depth, 1);
    assert_eq!(state.current_stage_idx().unwrap(), None);
    state.set_current_stage_idx(StageId(4)).unwrap();
    assert_eq!(state.current_stage_idx().unwrap(), Some(StageId(4)));
    state.exit_inner_stage().unwrap();
    assert_eq!(state.stage_depth, 0);
    // The outer scope's slot was never touched.
    assert_eq!(state.current_stage_idx().unwrap(), None);
    assert_eq!(state.exit_inner_stage(), Err(Error::IllegalState));
}

#[test]
fn push_stage_adapter_drives_all_inputs() {
    let mut state = FuzzState::new();
    state.current_corpus_id = Some(0);
    let inputs = vec![vec![1u8], vec![2u8, 3u8], vec![]];
    let mut adapter = PushStageAdapter::new(QueuePushStage::new(inputs));
    let mut executor = CountingExecutor::new();

    assert!(adapter.restart_progress_should_run(&mut state).unwrap());
    adapter.perform(&mut executor, &mut state).unwrap();
    adapter.clear_restart_progress(&mut state).unwrap();

    assert_eq!(executor.runs, 3);
    assert_eq!(state.executions, 3);
    assert_eq!(
        adapter.push_stage.outcomes,
        vec![ExitKind::Okay, ExitKind::Okay, ExitKind::Okay]
    );
}

#[test]
fn push_stage_adapter_needs_corpus_entry() {
    let mut state = FuzzState::new();
    let mut adapter = PushStageAdapter::new(QueuePushStage::new(vec![]));
    let mut executor = CountingExecutor::new();
    assert_eq!(
        adapter.perform(&mut executor, &mut state),
        Err(Error::IllegalState)
    );
}

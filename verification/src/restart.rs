//! Restart metadata: how staged work survives a process crash.
//!
//! Two helpers persist per-stage progress in the [`crate::state::FuzzState`]:
//!
//! * [`RetryRestartHelper`] limits how often a stage may re-attempt the same
//!   corpus entry across restarts.  Once the budget is spent the entry is
//!   recorded as skipped and never attempted again by that stage in this
//!   session: a persistently crashing input must not starve progress.
//! * [`ExecutionCountRestartHelper`] records the global execution counter at
//!   stage entry, so a stage that wants to run "for N more executions" can
//!   measure its own progress after a resume.

use vstd::prelude::*;

use crate::errors::Error;
use crate::state::FuzzState;

verus! {

/// The set of corpus entries a stage has given up on.
///
/// The set itself lives in an outside hash-set; the verified world sees it
/// only through [`skipped_set_view`] and the trusted operations below.
#[verifier::external_body]
pub struct SkippedSet {
    inner: hashbrown::HashSet<u64>,
}

/// What the skipped set holds.  Verified code learns about it only from the
/// contracts of the trusted operations on [`SkippedSet`].
pub uninterp spec fn skipped_set_view(s: SkippedSet) -> Set<u64>;

impl View for SkippedSet {
    type V = Set<u64>;

    open spec fn view(&self) -> Set<u64> {
        skipped_set_view(*self)
    }
}

impl SkippedSet {
    /// Relies on `hashbrown::HashSet::new`: a fresh set holds nothing.
    #[verifier::external_body]
    pub fn new() -> (r: SkippedSet)
        ensures
            skipped_set_view(r) == Set::<u64>::empty(),
    {
        SkippedSet { inner: hashbrown::HashSet::new() }
    }

    /// Relies on `hashbrown::HashSet::insert`: afterwards the set holds the
    /// value and everything it held before.
    #[verifier::external_body]
    pub fn insert(&mut self, v: u64)
        ensures
            skipped_set_view(*final (self)) == skipped_set_view(*old(self)).insert(v),
    {
        self.inner.insert(v);
    }

    /// Relies on `hashbrown::HashSet::contains`: whether the set holds the
    /// value.
    #[verifier::external_body]
    pub fn contains(&self, v: u64) -> (r: bool)
        ensures
            r == skipped_set_view(*self).contains(v),
    {
        self.inner.contains(&v)
    }
}

/// Retry progress for one stage: how many tries remain for the current corpus
/// entry, and which entries were given up on.  `tries_remaining` is `Some`
/// while the stage is mid-attempt and `None` between attempts.
pub struct RetryRestartHelper {
    pub tries_remaining: Option<usize>,
    pub skipped: SkippedSet,
}

/// The mathematical shape of a [`RetryRestartHelper`] entry.
#[verifier::ext_equal]
pub ghost struct RetryView {
    pub tries_remaining: Option<usize>,
    pub skipped: Set<u64>,
}

impl View for RetryRestartHelper {
    type V = RetryView;

    open spec fn view(&self) -> RetryView {
        RetryView { tries_remaining: self.tries_remaining, skipped: self.skipped@ }
    }
}

/// Keys of the retry metadata entries are pairwise distinct.
pub open spec fn keys_unique(entries: Seq<(u64, RetryRestartHelper)>) -> bool {
    forall|i: int, j: int|
        0 <= i < j < entries.len() ==> (#[trigger] entries[i]).0 != (#[trigger] entries[j]).0
}

/// The retry metadata entries as a map from stage key to entry view.
pub open spec fn rmap_of(entries: Seq<(u64, RetryRestartHelper)>) -> Map<u64, RetryView>
    decreases entries.len(),
{
    if entries.len() == 0 {
        Map::empty()
    } else {
        rmap_of(entries.drop_last()).insert(entries.last().0, entries.last().1@)
    }
}

/// A key is in the map exactly when some entry carries it.
pub proof fn lemma_rmap_contains(entries: Seq<(u64, RetryRestartHelper)>, k: u64)
    ensures
        rmap_of(entries).contains_key(k) <==> exists|i: int|
            0 <= i < entries.len() && (#[trigger] entries[i]).0 == k,
    decreases entries.len(),
{
    if entries.len() > 0 {
        lemma_rmap_contains(entries.drop_last(), k);
        if entries.last().0 == k {
            assert(entries[entries.len() - 1].0 == k);
        } else {
            if rmap_of(entries).contains_key(k) {
                let i = choose|i: int|
                    0 <= i < entries.drop_last().len() && (#[trigger] entries.drop_last()[i]).0
                        == k;
                assert(entries[i].0 == k);
            }
            if exists|i: int| 0 <= i < entries.len() && (#[trigger] entries[i]).0 == k {
                let i = choose|i: int| 0 <= i < entries.len() && (#[trigger] entries[i]).0 == k;
                assert(entries.drop_last()[i].0 == k);
            }
        }
    }
}

/// With unique keys, the map sends each entry's key to that entry's view.
pub proof fn lemma_rmap_index(entries: Seq<(u64, RetryRestartHelper)>, i: int)
    requires
        keys_unique(entries),
        0 <= i < entries.len(),
    ensures
        rmap_of(entries).contains_key(entries[i].0),
        rmap_of(entries)[entries[i].0] == entries[i].1@,
    decreases entries.len(),
{
    if i == entries.len() - 1 {
    } else {
        assert(entries.drop_last()[i] == entries[i]);
        lemma_rmap_index(entries.drop_last(), i);
        assert(entries[i].0 != entries.last().0);
    }
}

/// Replacing the entry at one position by one with the same key updates the
/// map at that key and keeps keys unique.
pub proof fn lemma_rmap_update(entries: Seq<(u64, RetryRestartHelper)>, i: int, h: RetryRestartHelper)
    requires
        keys_unique(entries),
        0 <= i < entries.len(),
    ensures
        keys_unique(entries.update(i, (entries[i].0, h))),
        rmap_of(entries.update(i, (entries[i].0, h))) == rmap_of(entries).insert(entries[i].0, h@),
    decreases entries.len(),
{
    let k = entries[i].0;
    let upd = entries.update(i, (k, h));
    assert forall|a: int, b: int| 0 <= a < b < upd.len() implies (#[trigger] upd[a]).0 != (
    #[trigger] upd[b]).0 by {
        assert(upd[a].0 == entries[a].0 && upd[b].0 == entries[b].0);
    }
    if i == entries.len() - 1 {
        assert(upd.drop_last() =~= entries.drop_last());
        assert(rmap_of(upd) == rmap_of(entries.drop_last()).insert(k, h@));
        assert(rmap_of(entries) == rmap_of(entries.drop_last()).insert(k, entries[i].1@));
        assert(rmap_of(entries.drop_last()).insert(k, entries[i].1@).insert(k, h@) =~= rmap_of(
            entries.drop_last(),
        ).insert(k, h@));
    } else {
        assert(entries.drop_last()[i] == entries[i]);
        lemma_rmap_update(entries.drop_last(), i, h);
        assert(upd.drop_last() =~= entries.drop_last().update(i, (k, h)));
        assert(upd.last() == entries.last());
        assert(rmap_of(upd) == rmap_of(entries.drop_last()).insert(k, h@).insert(
            entries.last().0,
            entries.last().1@,
        ));
        assert(entries.last().0 != k);
        assert(rmap_of(entries.drop_last()).insert(k, h@).insert(entries.last().0, entries.last().1@)
            =~= rmap_of(entries.drop_last()).insert(entries.last().0, entries.last().1@).insert(
            k,
            h@,
        ));
    }
}

/// Appending an entry with a fresh key inserts it into the map and keeps keys
/// unique.
pub proof fn lemma_rmap_push(entries: Seq<(u64, RetryRestartHelper)>, k: u64, h: RetryRestartHelper)
    requires
        keys_unique(entries),
        forall|j: int| 0 <= j < entries.len() ==> (#[trigger] entries[j]).0 != k,
    ensures
        keys_unique(entries.push((k, h))),
        rmap_of(entries.push((k, h))) == rmap_of(entries).insert(k, h@),
{
    let p = entries.push((k, h));
    assert forall|a: int, b: int| 0 <= a < b < p.len() implies (#[trigger] p[a]).0 != (
    #[trigger] p[b]).0 by {
        if b < entries.len() {
            assert(p[a] == entries[a] && p[b] == entries[b]);
        } else {
            assert(p[a] == entries[a] && p[b] == (k, h));
        }
    }
    assert(p.drop_last() =~= entries);
    assert(p.last() == (k, h));
}

/// The remaining tries of an entry, with a fallback for the between-attempts
/// state.
pub open spec fn tries_or(e: RetryView, dflt: usize) -> usize {
    match e.tries_remaining {
        Some(t) => t,
        None => dflt,
    }
}

/// The retry entry the decision works on: the stored one, or a fresh one with
/// the full budget.
pub open spec fn retry_entry_or_fresh(m: Map<u64, RetryView>, k: u64, max_retries: usize) -> RetryView
    recommends
        max_retries < usize::MAX,
{
    if m.contains_key(k) {
        m[k]
    } else {
        RetryView {
            tries_remaining: Some((max_retries + 1) as usize),
            skipped: Set::empty(),
        }
    }
}

/// Find the position of a stage key in the retry metadata.
fn find_retry_index(entries: &Vec<(u64, RetryRestartHelper)>, k: u64) -> (r: Option<usize>)
    ensures
        match r {
            Some(i) => i < entries@.len() && entries@[i as int].0 == k,
            None => forall|j: int| 0 <= j < entries@.len() ==> (#[trigger] entries@[j]).0 != k,
        },
{
    let mut i: usize = 0;
    while i < entries.len()
        invariant
            i <= entries@.len(),
            forall|j: int| 0 <= j < i ==> (#[trigger] entries@[j]).0 != k,
        decreases entries@.len() - i,
    {
        if entries[i].0 == k {
            return Some(i);
        }
        i = i + 1;
    }
    None
}

impl RetryRestartHelper {
    /// Initializes (or counts down in) the retry budget of the stage keyed by
    /// `stage_key` for the corpus entry currently being worked on, and says
    /// whether the stage should run.
    ///
    /// The budget is initialized lazily to `max_retries + 1`; each call
    /// decrements it.  When it reaches zero the corpus entry is recorded as
    /// skipped and the stage does not run; an entry already skipped never
    /// runs again.  Counting past zero is an illegal state, as is calling
    /// this with no current corpus entry.
    pub fn restart_progress_should_run(
        state: &mut FuzzState,
        stage_key: u64,
        max_retries: usize,
    ) -> (r: Result<bool, Error>)
        requires
            old(state).inv(),
            max_retries < usize::MAX,
        ensures
            final (state).inv(),
            final (state).executions == old(state).executions,
            final (state).current_corpus_id == old(state).current_corpus_id,
            final (state).stage_depth == old(state).stage_depth,
            final (state).stage_status@ == old(state).stage_status@,
            final (state).exec_count_meta == old(state).exec_count_meta,
            old(state).current_corpus_id is None ==> (r matches Err(e) && e
                == Error::IllegalState) && final (state).rmap() == old(state).rmap(),
            old(state).current_corpus_id matches Some(cid) ==> ({
                let e0 = retry_entry_or_fresh(old(state).rmap(), stage_key, max_retries);
                let t0 = tries_or(e0, (max_retries + 1) as usize);
                if t0 == 0 {
                    (r matches Err(e) && e == Error::IllegalState) && final (state).rmap() == old(state).rmap()
                } else {
                    let t1 = (t0 - 1) as usize;
                    let skipped1 = if t1 == 0 {
                        e0.skipped.insert(cid)
                    } else {
                        e0.skipped
                    };
                    r == Ok::<bool, Error>(t1 != 0 && !e0.skipped.contains(cid)) && final(state).rmap() == old(state).rmap().insert(
                        stage_key,
                        RetryView { tries_remaining: Some(t1), skipped: skipped1 },
                    )
                }
            }),
    {
        let cid = match state.current_corpus_id {
            Some(c) => c,
            None => {
                return Err(Error::illegal_state());
            },
        };
        let k = stage_key;
        match find_retry_index(&state.retry_meta, k) {
            None => {
                proof {
                    lemma_rmap_contains(state.retry_meta@, k);
                }
                let mut h = RetryRestartHelper {
                    tries_remaining: Some(max_retries),
                    skipped: SkippedSet::new(),
                };
                let should_run: bool = if max_retries == 0 {
                    h.skipped.insert(cid);
                    false
                } else {
                    true
                };
                proof {
                    lemma_rmap_push(state.retry_meta@, k, h);
                }
                state.retry_meta.push((k, h));
                Ok(should_run)
            },
            Some(i) => {
                proof {
                    lemma_rmap_contains(state.retry_meta@, k);
                    lemma_rmap_index(state.retry_meta@, i as int);
                }
                let t0 = match state.retry_meta[i].1.tries_remaining {
                    Some(t) => t,
                    None => max_retries + 1,
                };
                if t0 == 0 {
                    return Err(Error::illegal_state());
                }
                let t1 = t0 - 1;
                let (k0, mut h) = state.retry_meta.remove(i);
                h.tries_remaining = Some(t1);
                let should_run: bool = if t1 == 0 {
                    h.skipped.insert(cid);
                    false
                } else if h.skipped.contains(cid) {
                    false
                } else {
                    true
                };
                proof {
                    lemma_rmap_update(old(state).retry_meta@, i as int, h);
                }
                state.retry_meta.insert(i, (k0, h));
                proof {
                    assert(state.retry_meta@ =~= old(state).retry_meta@.update(i as int, (k0, h)));
                }
                Ok(should_run)
            },
        }
    }

    /// Clears the retry progress of the stage keyed by `stage_key`: the stage
    /// is between attempts again.  The skipped entries are kept for the rest
    /// of the session.
    pub fn clear_restart_progress(state: &mut FuzzState, stage_key: u64) -> (r: Result<
        (),
        Error,
    >)
        requires
            old(state).inv(),
        ensures
            final (state).inv(),
            final (state).executions == old(state).executions,
            final (state).current_corpus_id == old(state).current_corpus_id,
            final (state).stage_depth == old(state).stage_depth,
            final (state).stage_status@ == old(state).stage_status@,
            final (state).exec_count_meta == old(state).exec_count_meta,
            !old(state).rmap().contains_key(stage_key) ==> (r matches Err(e) && e
                == Error::KeyNotFound) && final (state).rmap() == old(state).rmap(),
            old(state).rmap().contains_key(stage_key) ==> (r matches Ok(()) && final(state).rmap() == old(state).rmap().insert(
                stage_key,
                RetryView {
                    tries_remaining: None,
                    skipped: old(state).rmap()[stage_key].skipped,
                },
            )),
    {
        let k = stage_key;
        match find_retry_index(&state.retry_meta, k) {
            None => {
                proof {
                    lemma_rmap_contains(state.retry_meta@, k);
                }
                Err(Error::key_not_found())
            },
            Some(i) => {
                proof {
                    lemma_rmap_contains(state.retry_meta@, k);
                    lemma_rmap_index(state.retry_meta@, i as int);
                }
                let (k0, mut h) = state.retry_meta.remove(i);
                h.tries_remaining = None;
                proof {
                    lemma_rmap_update(old(state).retry_meta@, i as int, h);
                }
                state.retry_meta.insert(i, (k0, h));
                proof {
                    assert(state.retry_meta@ =~= old(state).retry_meta@.update(i as int, (k0, h)));
                }
                Ok(())
            },
        }
    }
}

/// Execution-count restart metadata: the global execution counter at the
/// moment the stage started this round.
#[derive(Clone, Copy, Debug, PartialEq, Eq, Structural)]
pub struct ExecutionCountRestartHelperMetadata {
    /// How many executions the state had when this stage started this round.
    pub started_at_execs: u64,
}

/// A helper for stages that run for a budget of executions: it persists the
/// execution counter at stage entry and measures progress from there, across
/// restarts.  It caches the persisted value.
#[derive(Debug)]
pub struct ExecutionCountRestartHelper {
    /// Cache of the value persisted in the state's metadata slot.
    pub started_at_execs: Option<u64>,
}

impl ExecutionCountRestartHelper {
    /// A helper with an empty cache.
    pub fn new() -> (r: ExecutionCountRestartHelper)
        ensures
            r.started_at_execs is None,
    {
        ExecutionCountRestartHelper { started_at_execs: None }
    }

    /// The executions performed since this stage started this round, from the
    /// cache if warm, else from the persisted metadata.
    pub fn execs_since_progress_start(&mut self, state: &mut FuzzState) -> (r: Result<u64, Error>)
        requires
            match old(self).started_at_execs {
                Some(s) => s <= old(state).executions,
                None => match old(state).exec_count_meta {
                    Some(m) => m.started_at_execs <= old(state).executions,
                    None => true,
                },
            },
        ensures
            *final (state) == *old(state),
            match old(self).started_at_execs {
                Some(s) => r == Ok::<u64, Error>((old(state).executions - s) as u64) && *final(self) == *old(self),
                None => match old(state).exec_count_meta {
                    Some(m) => r == Ok::<u64, Error>(
                        (old(state).executions - m.started_at_execs) as u64,
                    ) && final (self).started_at_execs == Some(m.started_at_execs),
                    None => (r matches Err(e) && e == Error::IllegalState) && *final (self) == *old(self),
                },
            },
    {
        let started = match self.started_at_execs {
            Some(s) => s,
            None => match state.exec_count_meta {
                Some(m) => {
                    self.started_at_execs = Some(m.started_at_execs);
                    m.started_at_execs
                },
                None => {
                    return Err(Error::illegal_state());
                },
            },
        };
        Ok(state.executions - started)
    }

    /// Initialize progress for the stage this helper serves: persist the
    /// current execution counter unless a previous round already did, warm
    /// the cache, and always let the stage run.
    pub fn restart_progress_should_run(&mut self, state: &mut FuzzState) -> (r: Result<bool, Error>)
        ensures
            r == Ok::<bool, Error>(true),
            final (state).executions == old(state).executions,
            final (state).current_corpus_id == old(state).current_corpus_id,
            final (state).stage_depth == old(state).stage_depth,
            final (state).stage_status@ == old(state).stage_status@,
            final (state).retry_meta == old(state).retry_meta,
            match old(state).exec_count_meta {
                Some(m) => final (state).exec_count_meta == Some(m) && final(self).started_at_execs == Some(m.started_at_execs),
                None => final (state).exec_count_meta == Some(
                    ExecutionCountRestartHelperMetadata {
                        started_at_execs: old(state).executions,
                    },
                ) && final (self).started_at_execs == Some(old(state).executions),
            },
    {
        match state.exec_count_meta {
            Some(m) => {
                self.started_at_execs = Some(m.started_at_execs);
            },
            None => {
                let m = ExecutionCountRestartHelperMetadata { started_at_execs: state.executions };
                state.exec_count_meta = Some(m);
                self.started_at_execs = Some(m.started_at_execs);
            },
        }
        Ok(true)
    }

    /// Clear progress for the stage this helper serves: drop the cache and
    /// the persisted metadata.
    pub fn clear_restart_progress(&mut self, state: &mut FuzzState) -> (r: Result<(), Error>)
        ensures
            r == Ok::<(), Error>(()),
            final (self).started_at_execs is None,
            final (state).exec_count_meta is None,
            final (state).executions == old(state).executions,
            final (state).current_corpus_id == old(state).current_corpus_id,
            final (state).stage_depth == old(state).stage_depth,
            final (state).stage_status@ == old(state).stage_status@,
            final (state).retry_meta == old(state).retry_meta,
    {
        self.started_at_execs = None;
        state.exec_count_meta = None;
        Ok(())
    }
}

impl Default for ExecutionCountRestartHelper {
    /// A helper with an empty cache.
    fn default() -> (r: ExecutionCountRestartHelper)
        ensures
            r.started_at_execs is None,
    {
        ExecutionCountRestartHelper::new()
    }
}

} // verus!

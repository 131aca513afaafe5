//! Hotspot profiler: counts executions per function and marks a function hot
//! once its count reaches a threshold.

use std::collections::{HashMap, HashSet};
use vstd::prelude::*;
use vstd::std_specs::hash::group_hash_axioms;
use crate::types::FunctionId;

verus! {

/// The model of a profiler: execution counts, threshold and hot set.
pub struct ProfilerView {
    pub counts: Map<FunctionId, usize>,
    pub threshold: usize,
    pub hot: Set<FunctionId>,
}

impl ProfilerView {
    /// A profiler that has seen no execution.
    pub open spec fn fresh(threshold: usize) -> ProfilerView {
        ProfilerView { counts: Map::empty(), threshold, hot: Set::empty() }
    }

    /// The number of executions recorded for `func_id`: zero if none was.
    pub open spec fn count_of(self, func_id: FunctionId) -> usize {
        if self.counts.contains_key(func_id) {
            self.counts[func_id]
        } else {
            0
        }
    }

    /// The count of `func_id` after one more execution: it stops at the
    /// largest value a counter holds.
    pub open spec fn next_count(self, func_id: FunctionId) -> usize {
        if self.count_of(func_id) < usize::MAX {
            (self.count_of(func_id) + 1) as usize
        } else {
            usize::MAX
        }
    }

    /// Whether the executions counted for `func_id` so far include one that
    /// reached the threshold: there was an execution, and the count is at
    /// the threshold or above it.
    pub open spec fn has_reached_threshold(self, func_id: FunctionId) -> bool {
        self.count_of(func_id) >= 1 && self.count_of(func_id) >= self.threshold
    }

    /// Whether one more execution of `func_id` is the first to reach the
    /// threshold: the next count is at the threshold or above it, and no
    /// execution before has reached it. With a threshold of zero that is
    /// the first execution.
    pub open spec fn reaches_threshold(self, func_id: FunctionId) -> bool {
        self.next_count(func_id) >= self.threshold && !self.has_reached_threshold(func_id)
    }

    /// The profiler after one execution of `func_id`: the count grows by
    /// one, and the function is marked hot if this execution is the first
    /// to reach the threshold. A count that has reached the threshold
    /// before marks nothing again.
    pub open spec fn record(self, func_id: FunctionId) -> ProfilerView {
        ProfilerView {
            counts: self.counts.insert(func_id, self.next_count(func_id)),
            threshold: self.threshold,
            hot: if self.reaches_threshold(func_id) {
                self.hot.insert(func_id)
            } else {
                self.hot
            },
        }
    }

    /// The profiler after the executions in `calls`, in order.
    pub open spec fn record_all(self, calls: Seq<FunctionId>) -> ProfilerView
        decreases calls.len(),
    {
        if calls.len() == 0 {
            self
        } else {
            self.record_all(calls.drop_last()).record(calls.last())
        }
    }

    /// The profiler with `func_id` marked hot.
    pub open spec fn mark(self, func_id: FunctionId) -> ProfilerView {
        ProfilerView { hot: self.hot.insert(func_id), ..self }
    }

    /// The profiler with `func_id` no longer hot; counts and threshold stay.
    pub open spec fn unmark(self, func_id: FunctionId) -> ProfilerView {
        ProfilerView { hot: self.hot.remove(func_id), ..self }
    }

    /// The profiler with `func_id` cold: no longer hot and its count
    /// forgotten, as after a reset of this one function, so that it has to
    /// warm up again.
    pub open spec fn cool_down(self, func_id: FunctionId) -> ProfilerView {
        ProfilerView {
            counts: self.counts.remove(func_id),
            hot: self.hot.remove(func_id),
            ..self
        }
    }

    /// The profiler after `call`.
    pub open spec fn apply(self, call: ProfilerCall) -> ProfilerView {
        match call {
            ProfilerCall::Record(func_id) => self.record(func_id),
            ProfilerCall::Mark(func_id) => self.mark(func_id),
            ProfilerCall::Unmark(func_id) => self.unmark(func_id),
        }
    }

    /// The profiler after the calls in `calls`, in order.
    pub open spec fn apply_all(self, calls: Seq<ProfilerCall>) -> ProfilerView
        decreases calls.len(),
    {
        if calls.len() == 0 {
            self
        } else {
            self.apply_all(calls.drop_last()).apply(calls.last())
        }
    }
}

/// A call that records an execution or writes a hot mark.
pub enum ProfilerCall {
    /// `record_execution` of a function.
    Record(FunctionId),
    /// `mark_hot` of a function.
    Mark(FunctionId),
    /// `unmark_hot` of a function.
    Unmark(FunctionId),
}

/// How many of `calls` record an execution of `func_id`.
pub open spec fn recordings(calls: Seq<ProfilerCall>, func_id: FunctionId) -> nat
    decreases calls.len(),
{
    if calls.len() == 0 {
        0
    } else {
        recordings(calls.drop_last(), func_id) + if calls.last() == ProfilerCall::Record(func_id) {
            1nat
        } else {
            0nat
        }
    }
}

/// How often `func_id` occurs in `calls`.
pub open spec fn occurrences(calls: Seq<FunctionId>, func_id: FunctionId) -> nat
    decreases calls.len(),
{
    if calls.len() == 0 {
        0
    } else {
        occurrences(calls.drop_last(), func_id) + if calls.last() == func_id {
            1nat
        } else {
            0nat
        }
    }
}

/// Tracks how often each function runs and which functions are hot.
#[derive(Debug)]
pub struct HotspotProfiler {
    execution_counts: HashMap<FunctionId, usize>,
    hotspot_threshold: usize,
    hot_functions: HashSet<FunctionId>,
}

/// A copy of `set`.
fn copy_set(set: &HashSet<FunctionId>) -> (copy: HashSet<FunctionId>)
    ensures
        copy@ == set@,
{
    broadcast use group_hash_axioms;

    let mut copy: HashSet<FunctionId> = HashSet::new();
    for key in iter: set.iter()
        invariant
            iter.seq().unref().to_set() == set@,
            forall|k: FunctionId| copy@.contains(k) ==> set@.contains(k),
            forall|i: int|
                0 <= i < iter.index() ==> copy@.contains(#[trigger] iter.seq().unref()[i]),
            iter.index() == iter.seq().len() ==> copy@ == set@,
    {
        assert(iter.seq().unref()[iter.index() as int] == *key);
        assert(iter.seq().unref().to_set().contains(*key));
        copy.insert(*key);
        assert(iter.index() + 1 == iter.seq().len() ==> copy@ =~= set@) by {
            if iter.index() + 1 == iter.seq().len() {
                assert forall|k: FunctionId| set@.contains(k) implies copy@.contains(k) by {
                    let i = choose|i: int|
                        0 <= i < iter.seq().unref().len() && iter.seq().unref()[i] == k;
                    assert(copy@.contains(iter.seq().unref()[i]));
                }
            }
        }
    }
    copy
}

impl Clone for HotspotProfiler {
    fn clone(&self) -> (copy: HotspotProfiler)
        ensures
            copy@ == self@,
    {
        HotspotProfiler {
            execution_counts: self.execution_counts.clone(),
            hotspot_threshold: self.hotspot_threshold,
            hot_functions: copy_set(&self.hot_functions),
        }
    }
}

impl View for HotspotProfiler {
    type V = ProfilerView;

    closed spec fn view(&self) -> ProfilerView {
        ProfilerView {
            counts: self.execution_counts@,
            threshold: self.hotspot_threshold,
            hot: self.hot_functions@,
        }
    }
}

impl HotspotProfiler {
    /// A profiler with the given threshold and no recorded execution.
    pub fn new(threshold: usize) -> (profiler: HotspotProfiler)
        ensures
            profiler@ == ProfilerView::fresh(threshold),
    {
        HotspotProfiler {
            execution_counts: HashMap::new(),
            hotspot_threshold: threshold,
            hot_functions: HashSet::new(),
        }
    }

    /// A profiler with the default threshold of 100.
    pub fn default_threshold() -> (profiler: HotspotProfiler)
        ensures
            profiler@ == ProfilerView::fresh(100),
    {
        HotspotProfiler::new(100)
    }

    /// Records one execution of `func_id`, and marks it hot if this
    /// execution is the first to reach the threshold; with a threshold of
    /// zero that is the first execution. A function that was unmarked is
    /// not marked again by further executions.
    pub fn record_execution(&mut self, func_id: FunctionId)
        ensures
            final(self)@ == old(self)@.record(func_id),
    {
        broadcast use group_hash_axioms;

        let current = match self.execution_counts.get(&func_id) {
            Some(count) => *count,
            None => 0,
        };
        let count = if current < usize::MAX {
            current + 1
        } else {
            usize::MAX
        };
        self.execution_counts.insert(func_id, count);
        let reached_before = current >= 1 && current >= self.hotspot_threshold;
        if count >= self.hotspot_threshold && !reached_before {
            self.mark_hot(func_id);
        }
    }

    /// Whether `func_id` is marked hot.
    pub fn is_hot(&self, func_id: FunctionId) -> (hot: bool)
        ensures
            hot == self@.hot.contains(func_id),
    {
        broadcast use group_hash_axioms;

        self.hot_functions.contains(&func_id)
    }

    /// Marks `func_id` hot.
    pub fn mark_hot(&mut self, func_id: FunctionId)
        ensures
            final(self)@ == old(self)@.mark(func_id),
    {
        broadcast use group_hash_axioms;

        self.hot_functions.insert(func_id);
    }

    /// Removes the hot mark of `func_id`; every count and the threshold
    /// stay.
    pub fn unmark_hot(&mut self, func_id: FunctionId)
        ensures
            final(self)@ == old(self)@.unmark(func_id),
    {
        broadcast use group_hash_axioms;

        self.hot_functions.remove(&func_id);
        assert(self.hot_functions@ =~= old(self)@.hot.remove(func_id));
    }

    /// Makes `func_id` cold: removes its hot mark and forgets its count, as
    /// a reset does for every function. The function has to warm up again,
    /// and is hot again when its executions from here on reach the
    /// threshold. The other functions and the threshold stay.
    pub fn cool_down(&mut self, func_id: FunctionId)
        ensures
            final(self)@ == old(self)@.cool_down(func_id),
    {
        broadcast use group_hash_axioms;

        self.hot_functions.remove(&func_id);
        self.execution_counts.remove(&func_id);
        assert(self.hot_functions@ =~= old(self)@.hot.remove(func_id));
        assert(self.execution_counts@ =~= old(self)@.counts.remove(func_id));
    }

    /// The number of executions recorded for `func_id`.
    pub fn get_count(&self, func_id: FunctionId) -> (count: usize)
        ensures
            count == self@.count_of(func_id),
    {
        broadcast use group_hash_axioms;

        match self.execution_counts.get(&func_id) {
            Some(count) => *count,
            None => 0,
        }
    }

    /// The threshold at which a function becomes hot.
    pub fn threshold(&self) -> (threshold: usize)
        ensures
            threshold == self@.threshold,
    {
        self.hotspot_threshold
    }

    /// Forgets every count and every hot mark; the threshold stays.
    pub fn reset(&mut self)
        ensures
            final(self)@ == ProfilerView::fresh(old(self)@.threshold),
    {
        self.execution_counts.clear();
        self.hot_functions.clear();
    }
}

impl Default for HotspotProfiler {
    fn default() -> (profiler: HotspotProfiler)
        ensures
            profiler@ == ProfilerView::fresh(100),
    {
        HotspotProfiler::default_threshold()
    }
}

/// After any sequence of recorded executions on a profiler in which a
/// function is cold, with no count and no hot mark, the count of the
/// function is the number of its executions, up to the largest value a
/// counter holds, and the function is hot exactly when it has been executed
/// and that number has reached the threshold.
pub proof fn lemma_recorded_counts(start: ProfilerView, calls: Seq<FunctionId>, func_id: FunctionId)
    requires
        start.count_of(func_id) == 0,
        !start.hot.contains(func_id),
    ensures
        ({
            let p = start.record_all(calls);
            &&& p.threshold == start.threshold
            &&& p.count_of(func_id) == if occurrences(calls, func_id) <= usize::MAX {
                occurrences(calls, func_id) as int
            } else {
                usize::MAX as int
            }
            &&& p.hot.contains(func_id) <==> occurrences(calls, func_id) >= 1 && occurrences(
                calls,
                func_id,
            ) >= start.threshold
        }),
    decreases calls.len(),
{
    if calls.len() > 0 {
        lemma_recorded_counts(start, calls.drop_last(), func_id);
    }
}

/// A function is not hot until its execution has been recorded, and as
/// often as the threshold says, and is hot from then on, whatever other
/// functions were recorded in between. With a threshold of zero it is hot
/// from its first execution on.
pub proof fn law_hot_at_threshold(threshold: usize, calls: Seq<FunctionId>, func_id: FunctionId)
    ensures
        ProfilerView::fresh(threshold).record_all(calls).hot.contains(func_id) <==> occurrences(
            calls,
            func_id,
        ) >= 1 && occurrences(calls, func_id) >= threshold,
{
    lemma_recorded_counts(ProfilerView::fresh(threshold), calls, func_id);
}

/// The count of a function is the number of its recorded executions since
/// the profiler was fresh, up to the largest value a counter holds,
/// whatever hot marks were set and removed in between; the threshold never
/// changes.
pub proof fn law_count_is_number_of_recordings(
    threshold: usize,
    calls: Seq<ProfilerCall>,
    func_id: FunctionId,
)
    ensures
        ({
            let p = ProfilerView::fresh(threshold).apply_all(calls);
            &&& p.threshold == threshold
            &&& p.count_of(func_id) == if recordings(calls, func_id) <= usize::MAX {
                recordings(calls, func_id) as int
            } else {
                usize::MAX as int
            }
        }),
    decreases calls.len(),
{
    if calls.len() > 0 {
        law_count_is_number_of_recordings(threshold, calls.drop_last(), func_id);
    }
}

/// Removing a hot mark changes nothing else: the function is not hot, the
/// hot marks of the other functions, every count and the threshold stay.
pub proof fn law_unmark_touches_one_mark(profiler: ProfilerView, func_id: FunctionId, other: FunctionId)
    ensures
        !profiler.unmark(func_id).hot.contains(func_id),
        other != func_id ==> profiler.unmark(func_id).hot.contains(other) == profiler.hot.contains(
            other,
        ),
        profiler.unmark(func_id).count_of(other) == profiler.count_of(other),
        profiler.unmark(func_id).count_of(func_id) == profiler.count_of(func_id),
        profiler.unmark(func_id).threshold == profiler.threshold,
{
}

/// A function that was made cold has to warm up again: whatever was
/// recorded before, it is hot again exactly when it has been executed since
/// then, and as often as the threshold says.
pub proof fn law_rewarms_after_cool_down(
    profiler: ProfilerView,
    calls: Seq<FunctionId>,
    func_id: FunctionId,
)
    ensures
        !profiler.cool_down(func_id).hot.contains(func_id),
        profiler.cool_down(func_id).record_all(calls).hot.contains(func_id) <==> occurrences(
            calls,
            func_id,
        ) >= 1 && occurrences(calls, func_id) >= profiler.threshold,
{
    lemma_recorded_counts(profiler.cool_down(func_id), calls, func_id);
}

} // verus!

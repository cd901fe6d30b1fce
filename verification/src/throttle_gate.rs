//! A throttle checkpoint: a table of task ids and the time each one last got
//! through. Within the limit after a pass, the same task id is turned away.
use std::collections::HashMap;
use vstd::prelude::*;

verus! {

broadcast use vstd::std_specs::hash::group_hash_axioms;

/// Whether a checkpoint last passed at `last` still blocks a request at `now`
/// for a limit of `limit`. Times and limits are nanoseconds of one monotonic
/// clock; a reading earlier than `last` counts as no time elapsed.
pub open spec fn blocks(last: u64, now: u64, limit: u64) -> bool {
    let elapsed: int = if now >= last { now - last } else { 0 };
    elapsed < limit
}

/// The table after a check of `task_id` at `now`, and whether the check passed.
pub open spec fn check_model(marks: Map<i64, u64>, task_id: i64, now: u64, limit: u64) -> (
    Map<i64, u64>,
    bool,
) {
    if marks.contains_key(task_id) && blocks(marks[task_id], now, limit) {
        (marks, false)
    } else {
        (marks.insert(task_id, now), true)
    }
}

/// The table of last passes, one entry per task id.
#[derive(Debug)]
pub struct ThrottleGate {
    marks: HashMap<i64, u64>,
}

impl View for ThrottleGate {
    type V = Map<i64, u64>;

    closed spec fn view(&self) -> Map<i64, u64> {
        self.marks@
    }
}

impl ThrottleGate {
    /// A checkpoint that no task has passed yet.
    pub fn new() -> (gate: Self)
        ensures
            gate@ == Map::<i64, u64>::empty(),
    {
        ThrottleGate { marks: HashMap::new() }
    }

    /// The time at which `task_id` last passed, if it ever did.
    pub fn last_pass(&self, task_id: i64) -> (r: Option<u64>)
        ensures
            r == (if self@.contains_key(task_id) { Some(self@[task_id]) } else { None::<u64> }),
    {
        match self.marks.get(&task_id) {
            Some(t) => Some(*t),
            None => None,
        }
    }
}

/// Lets a task through the checkpoint unless the same `task_id` passed less
/// than `limit` ago. A pass records `now` as the task's new start; a refusal
/// leaves the table as it was.
///
/// Returns `true` when the caller may go on, `false` when it must stop because
/// the same task ran within the limit.
pub fn throttle_check(gate: &mut ThrottleGate, task_id: i64, limit: u64, now: u64) -> (r: bool)
    ensures
        (final(gate)@, r) == check_model(old(gate)@, task_id, now, limit),
{
    let last = gate.last_pass(task_id);
    match last {
        Some(last_start) => {
            let elapsed: u64 = now.saturating_sub(last_start);
            if elapsed < limit {
                false
            } else {
                gate.marks.insert(task_id, now);
                true
            }
        },
        None => {
            gate.marks.insert(task_id, now);
            true
        },
    }
}


/// A task id that never passed gets through.
pub proof fn law_first_check_passes(marks: Map<i64, u64>, task_id: i64, now: u64, limit: u64)
    requires
        !marks.contains_key(task_id),
    ensures
        check_model(marks, task_id, now, limit).1,
        check_model(marks, task_id, now, limit).0[task_id] == now,
{
}

/// Within the limit after a pass, the same task id is turned away and the
/// table stays as it is; once the limit has passed, it gets through again.
pub proof fn law_pass_blocks_within_limit(
    marks: Map<i64, u64>,
    task_id: i64,
    first: u64,
    second: u64,
    limit: u64,
)
    requires
        check_model(marks, task_id, first, limit).1,
        first <= second,
    ensures
        ({
            let after = check_model(marks, task_id, first, limit).0;
            &&& second - first < limit ==> check_model(after, task_id, second, limit) == (after, false)
            &&& second - first >= limit ==> check_model(after, task_id, second, limit).1
        }),
{
}

/// Checks of different task ids do not affect each other.
pub proof fn law_task_ids_independent(
    marks: Map<i64, u64>,
    task_id: i64,
    other: i64,
    now: u64,
    limit: u64,
)
    requires
        task_id != other,
    ensures
        check_model(marks, task_id, now, limit).0.contains_key(other) == marks.contains_key(other),
        marks.contains_key(other) ==> check_model(marks, task_id, now, limit).0[other]
            == marks[other],
{
}


/// The table after a sequence of checks, each a task id, the time of the
/// check and its limit.
pub open spec fn gate_trace(marks: Map<i64, u64>, checks: Seq<(i64, u64, u64)>) -> Map<i64, u64>
    decreases checks.len(),
{
    if checks.len() == 0 {
        marks
    } else {
        let c = checks.last();
        check_model(gate_trace(marks, checks.drop_last()), c.0, c.1, c.2).0
    }
}

/// A task's mark only moves forward while the clock does: checks at times
/// no earlier than `since` keep its mark at `since` or later.
pub proof fn lemma_mark_stays_at_or_after(
    marks: Map<i64, u64>,
    task_id: i64,
    since: u64,
    checks: Seq<(i64, u64, u64)>,
)
    requires
        marks.contains_key(task_id),
        marks[task_id] >= since,
        forall|i: int| 0 <= i < checks.len() ==> (#[trigger] checks[i]).1 >= since,
    ensures
        gate_trace(marks, checks).contains_key(task_id),
        gate_trace(marks, checks)[task_id] >= since,
    decreases checks.len(),
{
    if checks.len() > 0 {
        let pre = checks.drop_last();
        assert forall|i: int| 0 <= i < pre.len() implies (#[trigger] pre[i]).1 >= since by {
            assert(pre[i] == checks[i]);
        }
        lemma_mark_stays_at_or_after(marks, task_id, since, pre);
        assert(checks[checks.len() - 1].1 >= since);
    }
}

/// Within the limit after a pass, only the first caller gets through: after
/// a pass of `task_id` at `first`, and any checks of any task ids in between
/// (with a clock that does not run backwards past `first`), a check of the
/// same task id less than `limit` after `first` is turned away and leaves the
/// table as it is.
pub proof fn law_pass_blocks_after_any_checks(
    marks: Map<i64, u64>,
    task_id: i64,
    first: u64,
    first_limit: u64,
    checks: Seq<(i64, u64, u64)>,
    now: u64,
    limit: u64,
)
    requires
        check_model(marks, task_id, first, first_limit).1,
        forall|i: int| 0 <= i < checks.len() ==> (#[trigger] checks[i]).1 >= first,
        first <= now,
        now - first < limit,
    ensures
        ({
            let table = gate_trace(check_model(marks, task_id, first, first_limit).0, checks);
            check_model(table, task_id, now, limit) == (table, false)
        }),
{
    lemma_mark_stays_at_or_after(
        check_model(marks, task_id, first, first_limit).0,
        task_id,
        first,
        checks,
    );
}

} // verus!

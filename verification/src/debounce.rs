//! The state a debouncer keeps between two period ends, and the decision it
//! makes at each one: if any request came in during the period, the task
//! runs with the latest parameter, which is then used up.
use vstd::prelude::*;

verus! {

/// The abstract state: the number of pending requests (a counter that wraps
/// around like the machine word it is kept in), the latest parameter, and
/// whether the next period end is to be skipped.
pub struct PendingView<T> {
    pub jobs: u64,
    pub param: Option<T>,
    pub skip_next: bool,
}

/// The request counter after one more request: one more, wrapping to zero
/// past the largest value.
pub open spec fn next_count(jobs: u64) -> u64 {
    if jobs == u64::MAX {
        0
    } else {
        (jobs + 1) as u64
    }
}

/// The state after a request with parameter `value`: the older parameter is
/// dropped and one more request is pending.
pub open spec fn update_model<T>(s: PendingView<T>, value: T) -> PendingView<T> {
    PendingView { jobs: next_count(s.jobs), param: Some(value), skip_next: s.skip_next }
}

/// The state after asking to skip the next period end.
pub open spec fn delay_model<T>(s: PendingView<T>) -> PendingView<T> {
    PendingView { skip_next: true, ..s }
}

/// A period end: a skipped period only clears the skip flag; otherwise, when
/// requests are pending, the parameter is handed out (and forgotten) and the
/// counter drops to zero.
pub open spec fn debounce_tick_model<T>(s: PendingView<T>) -> (PendingView<T>, Option<T>) {
    if s.skip_next {
        (PendingView { skip_next: false, ..s }, None)
    } else if s.jobs > 0 {
        (PendingView { jobs: 0, param: None, skip_next: false }, s.param)
    } else {
        (s, None)
    }
}

/// What a debouncer keeps between period ends.
#[derive(Debug)]
pub struct DebounceState<T> {
    jobs: u64,
    last_param: Option<T>,
    skip_next: bool,
}

impl<T> View for DebounceState<T> {
    type V = PendingView<T>;

    closed spec fn view(&self) -> PendingView<T> {
        PendingView { jobs: self.jobs, param: self.last_param, skip_next: self.skip_next }
    }
}

impl<T> DebounceState<T> {
    /// A state with no pending request, no parameter and no skip.
    pub fn new() -> (s: Self)
        ensures
            s@ == (PendingView::<T> { jobs: 0, param: None, skip_next: false }),
    {
        DebounceState { jobs: 0, last_param: None, skip_next: false }
    }

    /// Records a request with parameter `value`; the older parameter is
    /// dropped, and the task will run with the latest one.
    pub fn update_param(&mut self, value: T)
        ensures
            final(self)@ == update_model(old(self)@, value),
    {
        self.last_param = Some(value);
        self.jobs = self.jobs.wrapping_add(1);
    }

    /// Skips the next period end: pending work waits one period more.
    /// Independent of `update_param`: the two may come in any order.
    pub fn delay_once(&mut self)
        ensures
            final(self)@ == delay_model(old(self)@),
    {
        self.skip_next = true;
    }

    /// The number of pending requests.
    pub fn pending_jobs(&self) -> (r: u64)
        ensures
            r == self@.jobs,
    {
        self.jobs
    }

    /// Whether the next period end is to be skipped.
    pub fn skips_next(&self) -> (r: bool)
        ensures
            r == self@.skip_next,
    {
        self.skip_next
    }

    /// Ends a period: returns the parameter to run the task with, if the task
    /// is to run now, and forgets it.
    pub fn debounce_tick(&mut self) -> (r: Option<T>)
        ensures
            (final(self)@, r) == debounce_tick_model(old(self)@),
    {
        if !self.skip_next {
            if self.jobs > 0 {
                let param = self.last_param.take();
                self.jobs = 0;
                param
            } else {
                None
            }
        } else {
            self.skip_next = false;
            None
        }
    }
}

/// What can happen to a debouncer: a request, a `delay_once`, a period end.
pub enum DebounceEvent<T> {
    Update(T),
    Delay,
    Tick,
}

/// The state after one event, and the parameters the task ran with.
pub open spec fn debounce_apply<T>(s: PendingView<T>, e: DebounceEvent<T>) -> (PendingView<T>, Seq<T>) {
    match e {
        DebounceEvent::Update(v) => (update_model(s, v), Seq::empty()),
        DebounceEvent::Delay => (delay_model(s), Seq::empty()),
        DebounceEvent::Tick => {
            let (next, out) = debounce_tick_model(s);
            (next, if out is Some { seq![out->0] } else { Seq::empty() })
        },
    }
}

/// The state after a sequence of events, and all the parameters the task
/// ran with, in order.
pub open spec fn debounce_trace<T>(s: PendingView<T>, evs: Seq<DebounceEvent<T>>) -> (
    PendingView<T>,
    Seq<T>,
)
    decreases evs.len(),
{
    if evs.len() == 0 {
        (s, Seq::empty())
    } else {
        let before = debounce_trace(s, evs.drop_last());
        let last = debounce_apply(before.0, evs.last());
        (last.0, before.1 + last.1)
    }
}

/// The number of requests among `evs`.
pub open spec fn count_updates<T>(evs: Seq<DebounceEvent<T>>) -> nat
    decreases evs.len(),
{
    if evs.len() == 0 {
        0
    } else {
        count_updates(evs.drop_last()) + if evs.last() is Update { 1nat } else { 0nat }
    }
}

/// The latest parameter after `evs`, starting from `param`.
pub open spec fn latest_param<T>(param: Option<T>, evs: Seq<DebounceEvent<T>>) -> Option<T>
    decreases evs.len(),
{
    if evs.len() == 0 {
        param
    } else if evs.last() is Update {
        Some(evs.last()->Update_0)
    } else {
        latest_param(param, evs.drop_last())
    }
}

/// Whether a `delay_once` came after the last period end in `evs` (or, with
/// no period end in `evs`, whether `armed` or a `delay_once` in `evs`).
pub open spec fn delay_armed<T>(armed: bool, evs: Seq<DebounceEvent<T>>) -> bool
    decreases evs.len(),
{
    if evs.len() == 0 {
        armed
    } else {
        match evs.last() {
            DebounceEvent::Delay => true,
            DebounceEvent::Tick => false,
            DebounceEvent::Update(_) => delay_armed(armed, evs.drop_last()),
        }
    }
}

/// Whether every period end in `evs` was preceded, within its period, by a
/// `delay_once` (`armed` tells whether one came before `evs`).
pub open spec fn every_tick_delayed<T>(armed: bool, evs: Seq<DebounceEvent<T>>) -> bool
    decreases evs.len(),
{
    if evs.len() == 0 {
        true
    } else {
        &&& every_tick_delayed(armed, evs.drop_last())
        &&& (evs.last() is Tick ==> delay_armed(armed, evs.drop_last()))
    }
}

/// After a request, the next debounce period end that is not skipped runs the
/// task with that request's parameter, whatever parameter came before (the
/// counter must not wrap to zero on this request).
pub proof fn law_debounce_runs_latest_param<T>(s: PendingView<T>, older: T, latest: T)
    requires
        !s.skip_next,
        s.jobs < u64::MAX - 1,
    ensures
        debounce_tick_model(update_model(update_model(s, older), latest)).1 == Some(latest),
        debounce_tick_model(update_model(s, latest)).1 == Some(latest),
{
}

/// `delay_once` and `update_param` do not depend on each other's order.
pub proof fn law_delay_and_update_commute<T>(s: PendingView<T>, value: T)
    ensures
        update_model(delay_model(s), value) == delay_model(update_model(s, value)),
{
}

/// Nothing runs without a request: from a state with no pending request, no
/// sequence of delays and period ends runs the task, and none is pending
/// after it.
pub proof fn law_debounce_no_run_without_request<T>(s: PendingView<T>, evs: Seq<DebounceEvent<T>>)
    requires
        s.jobs == 0,
        forall|i: int| 0 <= i < evs.len() ==> !(#[trigger] evs[i] is Update),
    ensures
        debounce_trace(s, evs).1.len() == 0,
        debounce_trace(s, evs).0.jobs == 0,
    decreases evs.len(),
{
    if evs.len() > 0 {
        let pre = evs.drop_last();
        assert forall|i: int| 0 <= i < pre.len() implies !(#[trigger] pre[i] is Update) by {
            assert(pre[i] == evs[i]);
        }
        law_debounce_no_run_without_request(s, pre);
        assert(!(evs[evs.len() - 1] is Update));
    }
}

/// The parameter is used up by a run: after a period end that ran the task,
/// nothing runs again until a new request, whatever delays and period ends
/// follow.
pub proof fn law_debounce_param_consumed<T>(s: PendingView<T>, evs: Seq<DebounceEvent<T>>)
    requires
        debounce_tick_model(s).1 is Some,
        forall|i: int| 0 <= i < evs.len() ==> !(#[trigger] evs[i] is Update),
    ensures
        debounce_trace(debounce_tick_model(s).0, evs).1.len() == 0,
{
    law_debounce_no_run_without_request(debounce_tick_model(s).0, evs);
}

/// The invariant behind `law_delay_once_postpones_each_period`.
pub proof fn lemma_delayed_periods_keep_work<T>(s: PendingView<T>, evs: Seq<DebounceEvent<T>>)
    requires
        s.jobs > 0,
        s.param is Some,
        s.jobs + count_updates(evs) < u64::MAX,
        every_tick_delayed(s.skip_next, evs),
    ensures
        debounce_trace(s, evs).1.len() == 0,
        debounce_trace(s, evs).0.jobs == s.jobs + count_updates(evs),
        debounce_trace(s, evs).0.param == latest_param(s.param, evs),
        debounce_trace(s, evs).0.skip_next == delay_armed(s.skip_next, evs),
    decreases evs.len(),
{
    if evs.len() > 0 {
        lemma_delayed_periods_keep_work(s, evs.drop_last());
    }
}

/// `delay_once` postpones pending work by one period each time, also when
/// repeated: while every period end comes after a delay in its period, the
/// task does not run; the first period end with no delay in its period runs
/// it once, with the latest parameter (requests in between included).
pub proof fn law_delay_once_postpones_each_period<T>(s: PendingView<T>, evs: Seq<DebounceEvent<T>>)
    requires
        s.jobs > 0,
        s.param is Some,
        s.jobs + count_updates(evs) < u64::MAX,
        every_tick_delayed(s.skip_next, evs),
    ensures
        debounce_trace(s, evs).1.len() == 0,
        !delay_armed(s.skip_next, evs) ==> debounce_trace(s, evs.push(DebounceEvent::Tick)).1
            == seq![latest_param(s.param, evs)->0],
{
    lemma_delayed_periods_keep_work(s, evs);
    let whole = evs.push(DebounceEvent::Tick);
    assert(whole.drop_last() == evs);
    assert(whole.last() is Tick);
    assert(latest_param(s.param, evs) is Some) by {
        lemma_latest_param_some(s.param, evs);
    }
}

/// A held parameter stays held.
pub proof fn lemma_latest_param_some<T>(param: Option<T>, evs: Seq<DebounceEvent<T>>)
    requires
        param is Some,
    ensures
        latest_param(param, evs) is Some,
    decreases evs.len(),
{
    if evs.len() > 0 {
        lemma_latest_param_some(param, evs.drop_last());
    }
}


/// Requests alone leave a debouncer with the last parameter and one more
/// pending request each, and run nothing.
pub proof fn lemma_updates_only<T>(s: PendingView<T>, evs: Seq<DebounceEvent<T>>)
    requires
        forall|i: int| 0 <= i < evs.len() ==> #[trigger] evs[i] is Update,
        s.jobs + evs.len() < u64::MAX,
    ensures
        debounce_trace(s, evs).1.len() == 0,
        debounce_trace(s, evs).0.jobs == s.jobs + evs.len(),
        debounce_trace(s, evs).0.skip_next == s.skip_next,
        evs.len() > 0 ==> debounce_trace(s, evs).0.param == Some(evs.last()->Update_0),
    decreases evs.len(),
{
    if evs.len() > 0 {
        let pre = evs.drop_last();
        assert forall|i: int| 0 <= i < pre.len() implies #[trigger] pre[i] is Update by {
            assert(pre[i] == evs[i]);
        }
        lemma_updates_only(s, pre);
        assert(evs[evs.len() - 1] is Update);
    }
}

/// Whatever number of requests come in between two period ends, the task
/// runs with the last of them, and the earlier ones are never used: at the
/// next period end, or, when that one is to be skipped, at the one after.
pub proof fn law_debounce_runs_last_of_many_requests<T>(s: PendingView<T>, evs: Seq<DebounceEvent<T>>)
    requires
        evs.len() > 0,
        forall|i: int| 0 <= i < evs.len() ==> #[trigger] evs[i] is Update,
        s.jobs + evs.len() < u64::MAX,
    ensures
        !s.skip_next ==> debounce_trace(s, evs.push(DebounceEvent::Tick)).1 == seq![
            evs.last()->Update_0,
        ],
        s.skip_next ==> debounce_trace(
            s,
            evs.push(DebounceEvent::Tick).push(DebounceEvent::Tick),
        ).1 == seq![evs.last()->Update_0],
{
    lemma_updates_only(s, evs);
    let one = evs.push(DebounceEvent::Tick);
    let two = one.push(DebounceEvent::Tick);
    assert(one.drop_last() == evs);
    assert(two.drop_last() == one);
    if s.skip_next {
        let first = debounce_trace(s, one);
        assert(first.1 =~= Seq::<T>::empty());
        assert(first.0.jobs == s.jobs + evs.len());
        assert(!first.0.skip_next);
        assert(first.0.param == Some(evs.last()->Update_0));
    }
}


/// Every period end clears the skip flag, whether or not work was pending:
/// `delay_once` postpones only the very next period end. A skipped period
/// end runs nothing and keeps the pending work and parameter.
pub proof fn law_period_end_clears_delay<T>(s: PendingView<T>)
    ensures
        !debounce_tick_model(s).0.skip_next,
        s.skip_next ==> debounce_tick_model(s).1 is None,
        s.skip_next ==> debounce_tick_model(s).0.jobs == s.jobs,
        s.skip_next ==> debounce_tick_model(s).0.param == s.param,
{
}

/// From any state, a period end followed by a request makes the next
/// period end run the task with that request's parameter (unless the
/// request counter wraps to zero on it).
pub proof fn law_request_after_period_end_runs_next<T>(s: PendingView<T>, v: T)
    requires
        debounce_tick_model(s).0.jobs < u64::MAX,
    ensures
        debounce_tick_model(update_model(debounce_tick_model(s).0, v)).1 == Some(v),
        debounce_tick_model(update_model(debounce_tick_model(s).0, v)).0.jobs == 0,
{
}

} // verus!

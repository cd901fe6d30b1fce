//! The state a throttler keeps, and its decision at each period start: when
//! work is pending and a parameter is held, the task runs with (a clone of)
//! the latest parameter, which the throttler keeps. The task runs only at
//! period starts, so at most once per period; the first period start comes
//! as the throttler starts, so a first request runs at once. The task's
//! answer says whether work stays pending: `true` keeps it, `false` drops
//! all of it.
use vstd::prelude::*;
use crate::debounce::next_count;

verus! {

/// The abstract state: pending requests (a wrapping counter), the latest
/// parameter, and whether the next period start is to be skipped.
pub struct ThrottleView<T> {
    pub jobs: u64,
    pub param: Option<T>,
    pub skip_next: bool,
}

/// A request with parameter `value`: it replaces the parameter and counts as
/// pending. It never runs the task by itself.
pub open spec fn request_model<T>(s: ThrottleView<T>, value: T) -> ThrottleView<T> {
    ThrottleView { jobs: next_count(s.jobs), param: Some(value), ..s }
}

/// The state after asking to skip the next period start.
pub open spec fn throttle_delay_model<T>(s: ThrottleView<T>) -> ThrottleView<T> {
    ThrottleView { skip_next: true, ..s }
}

/// A period start: a skipped period only clears the skip flag; otherwise the
/// task is due when work is pending and a parameter is held. The counter and
/// the parameter stay as they are.
pub open spec fn throttle_tick_model<T>(s: ThrottleView<T>) -> (ThrottleView<T>, bool) {
    if s.skip_next {
        (ThrottleView { skip_next: false, ..s }, false)
    } else {
        (s, s.jobs > 0 && s.param is Some)
    }
}

/// The state after the task answered `again`: `true` counts one more
/// pending request; `false` drops all pending work, requests made while the
/// task ran included.
pub open spec fn record_run_model<T>(s: ThrottleView<T>, again: bool) -> ThrottleView<T> {
    if again {
        ThrottleView { jobs: next_count(s.jobs), ..s }
    } else {
        ThrottleView { jobs: 0, ..s }
    }
}

/// What a throttler keeps.
#[derive(Debug)]
pub struct ThrottleState<T> {
    jobs: u64,
    last_param: Option<T>,
    skip_next: bool,
}

impl<T> View for ThrottleState<T> {
    type V = ThrottleView<T>;

    closed spec fn view(&self) -> ThrottleView<T> {
        ThrottleView { jobs: self.jobs, param: self.last_param, skip_next: self.skip_next }
    }
}

impl<T: Clone> ThrottleState<T> {
    /// A throttler with no request and no parameter.
    pub fn new() -> (s: Self)
        ensures
            s@ == (ThrottleView::<T> { jobs: 0, param: None, skip_next: false }),
    {
        ThrottleState { jobs: 0, last_param: None, skip_next: false }
    }

    /// Records a request with parameter `value`; the older parameter is
    /// dropped, and the next period start that runs the task uses this one.
    pub fn update_param(&mut self, value: T)
        ensures
            final(self)@ == request_model(old(self)@, value),
    {
        self.last_param = Some(value);
        self.jobs = self.jobs.wrapping_add(1);
    }

    /// Skips the next period start: pending work waits one period more.
    pub fn delay_once(&mut self)
        ensures
            final(self)@ == throttle_delay_model(old(self)@),
    {
        self.skip_next = true;
    }

    /// The number of pending requests.
    pub fn pending_jobs(&self) -> (r: u64)
        ensures
            r == self@.jobs,
    {
        self.jobs
    }

    /// Starts a period: returns a clone of the parameter when the task is to
    /// run now, and keeps the parameter itself.
    pub fn throttle_tick(&mut self) -> (r: Option<T>)
        ensures
            final(self)@ == throttle_tick_model(old(self)@).0,
            r is Some == throttle_tick_model(old(self)@).1,
            r is Some ==> cloned(old(self)@.param->0, r->0),
    {
        if !self.skip_next {
            if self.jobs > 0 {
                match &self.last_param {
                    Some(param) => Some(param.clone()),
                    None => None,
                }
            } else {
                None
            }
        } else {
            self.skip_next = false;
            None
        }
    }

    /// Takes the task's answer: `true` keeps work pending for the next
    /// period start; `false` drops all pending work.
    pub fn record_run(&mut self, again: bool)
        ensures
            final(self)@ == record_run_model(old(self)@, again),
    {
        if again {
            self.jobs = self.jobs.wrapping_add(1);
        } else {
            self.jobs = 0;
        }
    }
}

/// What can happen to a throttler: a request, a `delay_once`, a period
/// start. A period start carries the answer the task gives if it runs then.
pub enum ThrottleEvent<T> {
    Request(T),
    Delay,
    Tick(bool),
}

/// The state after one event, and the parameters the task ran with.
pub open spec fn throttle_apply<T>(s: ThrottleView<T>, e: ThrottleEvent<T>) -> (ThrottleView<T>, Seq<T>) {
    match e {
        ThrottleEvent::Request(v) => (request_model(s, v), Seq::empty()),
        ThrottleEvent::Delay => (throttle_delay_model(s), Seq::empty()),
        ThrottleEvent::Tick(answer) => {
            let (next, run) = throttle_tick_model(s);
            if run {
                (record_run_model(next, answer), seq![s.param->0])
            } else {
                (next, Seq::empty())
            }
        },
    }
}

/// The state after a sequence of events, and all the parameters the task
/// ran with, in order.
pub open spec fn throttle_trace<T>(s: ThrottleView<T>, evs: Seq<ThrottleEvent<T>>) -> (
    ThrottleView<T>,
    Seq<T>,
)
    decreases evs.len(),
{
    if evs.len() == 0 {
        (s, Seq::empty())
    } else {
        let before = throttle_trace(s, evs.drop_last());
        let last = throttle_apply(before.0, evs.last());
        (last.0, before.1 + last.1)
    }
}

/// The number of period starts among `evs`.
pub open spec fn count_ticks<T>(evs: Seq<ThrottleEvent<T>>) -> nat
    decreases evs.len(),
{
    if evs.len() == 0 {
        0
    } else {
        count_ticks(evs.drop_last()) + if evs.last() is Tick { 1nat } else { 0nat }
    }
}

/// The number of requests among `evs`.
pub open spec fn count_requests<T>(evs: Seq<ThrottleEvent<T>>) -> nat
    decreases evs.len(),
{
    if evs.len() == 0 {
        0
    } else {
        count_requests(evs.drop_last()) + if evs.last() is Request { 1nat } else { 0nat }
    }
}

/// The latest parameter after `evs`, starting from `param`.
pub open spec fn latest_request<T>(param: Option<T>, evs: Seq<ThrottleEvent<T>>) -> Option<T>
    decreases evs.len(),
{
    if evs.len() == 0 {
        param
    } else if evs.last() is Request {
        Some(evs.last()->Request_0)
    } else {
        latest_request(param, evs.drop_last())
    }
}

/// Whether a `delay_once` came after the last period start in `evs` (or,
/// with none in `evs`, whether `armed` or a `delay_once` in `evs`).
pub open spec fn throttle_delay_armed<T>(armed: bool, evs: Seq<ThrottleEvent<T>>) -> bool
    decreases evs.len(),
{
    if evs.len() == 0 {
        armed
    } else {
        match evs.last() {
            ThrottleEvent::Delay => true,
            ThrottleEvent::Tick(_) => false,
            ThrottleEvent::Request(_) => throttle_delay_armed(armed, evs.drop_last()),
        }
    }
}

/// Whether every period start in `evs` comes after a `delay_once` in its
/// period (`armed` tells whether one came before `evs`).
pub open spec fn every_start_delayed<T>(armed: bool, evs: Seq<ThrottleEvent<T>>) -> bool
    decreases evs.len(),
{
    if evs.len() == 0 {
        true
    } else {
        &&& every_start_delayed(armed, evs.drop_last())
        &&& (evs.last() is Tick ==> throttle_delay_armed(armed, evs.drop_last()))
    }
}

/// A throttler's first request runs at the first period start, which comes
/// as the throttler starts; the parameter stays held afterwards.
pub proof fn law_throttle_first_request_runs<T>(value: T)
    ensures
        ({
            let s = request_model(ThrottleView::<T> { jobs: 0, param: None, skip_next: false }, value);
            &&& throttle_tick_model(s).1
            &&& throttle_tick_model(s).0.param == Some(value)
        }),
{
}

/// The task runs only at period starts, at most once at each: over any
/// sequence of events it runs no more often than there are period starts,
/// and requests and delays never run it.
pub proof fn law_runs_only_at_period_starts<T>(s: ThrottleView<T>, evs: Seq<ThrottleEvent<T>>)
    ensures
        throttle_trace(s, evs).1.len() <= count_ticks(evs),
    decreases evs.len(),
{
    if evs.len() > 0 {
        law_runs_only_at_period_starts(s, evs.drop_last());
    }
}

/// Nothing runs without a request: from a state with no pending request, no
/// sequence of delays and period starts runs the task.
pub proof fn law_throttle_no_run_without_request<T>(s: ThrottleView<T>, evs: Seq<ThrottleEvent<T>>)
    requires
        s.jobs == 0,
        forall|i: int| 0 <= i < evs.len() ==> !(#[trigger] evs[i] is Request),
    ensures
        throttle_trace(s, evs).1.len() == 0,
        throttle_trace(s, evs).0.jobs == 0,
    decreases evs.len(),
{
    if evs.len() > 0 {
        let pre = evs.drop_last();
        assert forall|i: int| 0 <= i < pre.len() implies !(#[trigger] pre[i] is Request) by {
            assert(pre[i] == evs[i]);
        }
        law_throttle_no_run_without_request(s, pre);
        assert(!(evs[evs.len() - 1] is Request));
    }
}

/// Once the task answered `false`, it does not run again until a new
/// request comes in, whatever delays and period starts follow; requests that
/// came in while it ran are dropped too.
pub proof fn law_false_answer_stops_runs<T>(s: ThrottleView<T>, evs: Seq<ThrottleEvent<T>>)
    requires
        forall|i: int| 0 <= i < evs.len() ==> !(#[trigger] evs[i] is Request),
    ensures
        throttle_trace(record_run_model(s, false), evs).1.len() == 0,
{
    law_throttle_no_run_without_request(record_run_model(s, false), evs);
}

/// While the task answers `true` and nothing else happens, it runs at every
/// period start, each time with the same kept parameter (as long as the
/// request counter does not wrap).
pub proof fn law_true_answer_runs_every_period<T>(s: ThrottleView<T>, n: nat)
    requires
        s.jobs > 0,
        s.param is Some,
        !s.skip_next,
        s.jobs + n < u64::MAX,
    ensures
        ({
            let t = throttle_trace(s, Seq::new(n, |i: int| ThrottleEvent::<T>::Tick(true)));
            &&& t.1 == Seq::new(n, |i: int| s.param->0)
            &&& t.0.jobs == s.jobs + n
            &&& t.0.param == s.param
            &&& !t.0.skip_next
        }),
    decreases n,
{
    if n > 0 {
        law_true_answer_runs_every_period(s, (n - 1) as nat);
        let evs = Seq::new(n, |i: int| ThrottleEvent::<T>::Tick(true));
        let pre = Seq::new((n - 1) as nat, |i: int| ThrottleEvent::<T>::Tick(true));
        assert(evs.drop_last() == pre);
        let t = throttle_trace(s, pre);
        assert(t.1.push(s.param->0) == Seq::new(n, |i: int| s.param->0));
    }
}

/// The invariant behind the laws on delays and requests: while every period
/// start is delayed, nothing runs, and the requests pile up.
pub proof fn lemma_throttle_delayed_periods_keep_work<T>(s: ThrottleView<T>, evs: Seq<ThrottleEvent<T>>)
    requires
        s.jobs + count_requests(evs) < u64::MAX,
        every_start_delayed(s.skip_next, evs),
    ensures
        throttle_trace(s, evs).1.len() == 0,
        throttle_trace(s, evs).0.jobs == s.jobs + count_requests(evs),
        throttle_trace(s, evs).0.param == latest_request(s.param, evs),
        throttle_trace(s, evs).0.skip_next == throttle_delay_armed(s.skip_next, evs),
    decreases evs.len(),
{
    if evs.len() > 0 {
        lemma_throttle_delayed_periods_keep_work(s, evs.drop_last());
    }
}

/// `delay_once` postpones pending work by one period each time, also when
/// repeated: while every period start comes after a delay in its period,
/// the task does not run; the first period start with no delay in its
/// period runs it once, with the latest parameter.
pub proof fn law_throttle_delay_postpones_each_period<T>(
    s: ThrottleView<T>,
    evs: Seq<ThrottleEvent<T>>,
    answer: bool,
)
    requires
        s.jobs > 0,
        s.param is Some,
        s.jobs + count_requests(evs) < u64::MAX,
        every_start_delayed(s.skip_next, evs),
    ensures
        throttle_trace(s, evs).1.len() == 0,
        !throttle_delay_armed(s.skip_next, evs) ==> throttle_trace(
            s,
            evs.push(ThrottleEvent::Tick(answer)),
        ).1 == seq![latest_request(s.param, evs)->0],
{
    lemma_throttle_delayed_periods_keep_work(s, evs);
    lemma_latest_request_some(s.param, evs);
    let whole = evs.push(ThrottleEvent::Tick(answer));
    assert(whole.drop_last() == evs);
}

/// Whatever number of requests come in between two period starts, the next
/// one that is not skipped runs the task with the last of them; the earlier
/// ones are never used.
pub proof fn law_throttle_runs_latest_request<T>(s: ThrottleView<T>, evs: Seq<ThrottleEvent<T>>, answer: bool)
    requires
        evs.len() > 0,
        forall|i: int| 0 <= i < evs.len() ==> #[trigger] evs[i] is Request,
        s.jobs + count_requests(evs) < u64::MAX,
        !s.skip_next,
    ensures
        throttle_trace(s, evs.push(ThrottleEvent::Tick(answer))).1 == seq![evs.last()->Request_0],
{
    lemma_requests_only(s, evs);
    lemma_throttle_delayed_periods_keep_work(s, evs);
    let whole = evs.push(ThrottleEvent::Tick(answer));
    assert(whole.drop_last() == evs);
}

/// Requests alone: no period start to delay, and the counter goes up by one
/// each.
pub proof fn lemma_requests_only<T>(s: ThrottleView<T>, evs: Seq<ThrottleEvent<T>>)
    requires
        forall|i: int| 0 <= i < evs.len() ==> #[trigger] evs[i] is Request,
    ensures
        every_start_delayed(s.skip_next, evs),
        throttle_delay_armed(s.skip_next, evs) == s.skip_next,
        count_requests(evs) == evs.len(),
        evs.len() > 0 ==> latest_request(s.param, evs) == Some(evs.last()->Request_0),
    decreases evs.len(),
{
    if evs.len() > 0 {
        let pre = evs.drop_last();
        assert forall|i: int| 0 <= i < pre.len() implies #[trigger] pre[i] is Request by {
            assert(pre[i] == evs[i]);
        }
        lemma_requests_only(s, pre);
        assert(evs[evs.len() - 1] is Request);
    }
}

/// A held parameter stays held.
pub proof fn lemma_latest_request_some<T>(param: Option<T>, evs: Seq<ThrottleEvent<T>>)
    requires
        param is Some,
    ensures
        latest_request(param, evs) is Some,
    decreases evs.len(),
{
    if evs.len() > 0 {
        lemma_latest_request_some(param, evs.drop_last());
    }
}


/// Every period start clears the skip flag, whether or not work was
/// pending: `delay_once` postpones only the very next period start. A
/// skipped period start runs nothing and keeps the pending work.
pub proof fn law_period_start_clears_delay<T>(s: ThrottleView<T>)
    ensures
        !throttle_tick_model(s).0.skip_next,
        s.skip_next ==> !throttle_tick_model(s).1,
        throttle_tick_model(s).0.jobs == s.jobs,
        throttle_tick_model(s).0.param == s.param,
{
}

/// From any state, a period start followed by a request makes the next
/// period start run the task with that request's parameter (unless the
/// request counter wraps to zero on it).
pub proof fn law_request_after_period_start_runs_next<T>(s: ThrottleView<T>, v: T)
    requires
        s.jobs < u64::MAX,
    ensures
        throttle_tick_model(request_model(throttle_tick_model(s).0, v)).1,
        request_model(throttle_tick_model(s).0, v).param == Some(v),
{
}

} // verus!

//! A timeout timer as a state machine. The timer thread asks it, step by
//! step, what to do next (park, sleep, run the task, exit); the owner of the
//! timer feeds parameters, resets the clock and changes the kind of timer.
//!
//! Times are nanoseconds of one monotonic clock, read by the caller.
use vstd::prelude::*;

verus! {

/// The kind of a timeout task.
#[derive(Debug, Clone, Copy, PartialEq, Eq, Structural)]
pub enum TimeoutType {
    /// Runs once and ends.
    Once,
    /// Runs again and again, one timeout after the other.
    Repeat,
    /// Runs once, then sleeps until woken to run once more; one timer can so
    /// run many single timeouts, each with its own start.
    OnceMore,
}

/// Where the timer thread stands.
#[derive(Debug, Clone, Copy, PartialEq, Eq, Structural)]
pub enum TimerPhase {
    /// Just started; a single-shot timer with no parameter yet parks first.
    Starting,
    /// Waiting for the timeout to pass.
    Timing,
    /// Has run a single shot and is about to park or end.
    Settling,
    /// Parked until woken.
    Parked,
    /// Ended for good.
    Finished,
}

/// What the timer thread is to do next.
#[derive(Debug, Clone, Copy, PartialEq, Eq, Structural)]
pub enum TimerAction {
    /// Park the thread until it is woken.
    Park,
    /// Sleep this many nanoseconds, then step again.
    Sleep(u64),
    /// The timeout has passed: run the task with the parameter that
    /// `take_fire_param` hands out, then step again.
    Fire,
    /// End the timer thread.
    Exit,
}

/// The abstract state of a timer.
pub struct TimerView<T> {
    pub param: Option<T>,
    pub last_tick: u64,
    pub kind: TimeoutType,
    pub timeout: u64,
    pub phase: TimerPhase,
}

/// Nanoseconds from `from` to `now`; a reading earlier than `from` counts as
/// none.
pub open spec fn elapsed_since(from: u64, now: u64) -> int {
    if now >= from {
        now - from
    } else {
        0
    }
}

/// The waiting part of the timer: sleep for what is left of the timeout, or,
/// once more than the timeout has passed since the last tick, restart the
/// clock at `now` and fire. After firing, a repeating timer goes on timing
/// and a single-shot timer settles.
pub open spec fn timing_model<T>(s: TimerView<T>, now: u64) -> (TimerView<T>, TimerAction) {
    let elapsed = elapsed_since(s.last_tick, now);
    if elapsed <= s.timeout {
        (TimerView { phase: TimerPhase::Timing, ..s }, TimerAction::Sleep((s.timeout - elapsed) as u64))
    } else {
        (
            TimerView {
                last_tick: now,
                phase: if s.kind == TimeoutType::Repeat {
                    TimerPhase::Timing
                } else {
                    TimerPhase::Settling
                },
                ..s
            },
            TimerAction::Fire,
        )
    }
}

/// One step of the timer thread at time `now`.
pub open spec fn step_model<T>(s: TimerView<T>, now: u64) -> (TimerView<T>, TimerAction) {
    match s.phase {
        TimerPhase::Finished => (s, TimerAction::Exit),
        TimerPhase::Settling => {
            if s.kind == TimeoutType::OnceMore {
                (TimerView { phase: TimerPhase::Parked, ..s }, TimerAction::Park)
            } else {
                (TimerView { phase: TimerPhase::Finished, ..s }, TimerAction::Exit)
            }
        },
        TimerPhase::Starting => {
            if s.kind != TimeoutType::Repeat && s.param is None {
                (TimerView { phase: TimerPhase::Parked, ..s }, TimerAction::Park)
            } else {
                timing_model(s, now)
            }
        },
        TimerPhase::Parked | TimerPhase::Timing => timing_model(s, now),
    }
}

/// The parameter a firing timer runs its task with: a repeating timer runs
/// with (a clone of) the parameter and keeps it; a single-shot timer takes it.
pub open spec fn fire_param_model<T>(s: TimerView<T>) -> TimerView<T> {
    if s.kind == TimeoutType::Repeat {
        s
    } else {
        TimerView { param: None, ..s }
    }
}

/// The state after a new parameter comes in.
pub open spec fn feed_model<T>(s: TimerView<T>, new_param: T) -> TimerView<T> {
    TimerView { param: Some(new_param), ..s }
}

/// The state after the clock is restarted at `now`.
pub open spec fn touch_model<T>(s: TimerView<T>, now: u64) -> TimerView<T> {
    TimerView { last_tick: now, ..s }
}

/// The state after a repeating timer is told to stop after its next run: a
/// `Repeat` timer becomes a `Once` timer; a timer of any other kind is left
/// as it is.
pub open spec fn stop_repeat_model<T>(s: TimerView<T>) -> TimerView<T> {
    if s.kind == TimeoutType::Repeat {
        TimerView { kind: TimeoutType::Once, ..s }
    } else {
        s
    }
}

/// The state after a request to run once more with `new_param` at `now`,
/// and whether the request was taken: only a `OnceMore` timer takes it.
pub open spec fn once_more_model<T>(s: TimerView<T>, new_param: T, now: u64) -> (TimerView<T>, bool) {
    if s.kind == TimeoutType::OnceMore {
        (touch_model(feed_model(s, new_param), now), true)
    } else {
        (s, false)
    }
}

/// The state of a timeout timer.
#[derive(Debug)]
pub struct TimeoutState<T> {
    last_param: Option<T>,
    last_tick: u64,
    timeout_type: TimeoutType,
    timeout: u64,
    phase: TimerPhase,
}

impl<T> View for TimeoutState<T> {
    type V = TimerView<T>;

    closed spec fn view(&self) -> TimerView<T> {
        TimerView {
            param: self.last_param,
            last_tick: self.last_tick,
            kind: self.timeout_type,
            timeout: self.timeout,
            phase: self.phase,
        }
    }
}

impl<T> TimeoutState<T> {
    /// A timer of kind `timeout_type` with a timeout of `timeout`
    /// nanoseconds, its clock started at `now`, with no parameter yet.
    pub fn new(timeout: u64, timeout_type: TimeoutType, now: u64) -> (s: Self)
        ensures
            s@ == (TimerView::<T> {
                param: None,
                last_tick: now,
                kind: timeout_type,
                timeout,
                phase: TimerPhase::Starting,
            }),
    {
        TimeoutState {
            last_param: None,
            last_tick: now,
            timeout_type,
            timeout,
            phase: TimerPhase::Starting,
        }
    }

    /// The kind of the timer.
    pub fn timeout_type(&self) -> (r: TimeoutType)
        ensures
            r == self@.kind,
    {
        self.timeout_type
    }

    /// Where the timer thread stands.
    pub fn phase(&self) -> (r: TimerPhase)
        ensures
            r == self@.phase,
    {
        self.phase
    }

    /// The time the clock was last restarted.
    pub fn last_tick(&self) -> (r: u64)
        ensures
            r == self@.last_tick,
    {
        self.last_tick
    }

    /// Whether a parameter is waiting for the task.
    pub fn has_param(&self) -> (r: bool)
        ensures
            r == self@.param is Some,
    {
        self.last_param.is_some()
    }

    /// Replaces the parameter the task will run with.
    pub fn feed_param(&mut self, new_param: T)
        ensures
            final(self)@ == feed_model(old(self)@, new_param),
    {
        self.last_param = Some(new_param);
    }

    /// Restarts the clock at `now`.
    pub fn touch(&mut self, now: u64)
        ensures
            final(self)@ == touch_model(old(self)@, now),
    {
        self.last_tick = now;
    }

    /// Turns a repeating timer into a single-shot one, which ends after its
    /// next run. A timer of another kind is left as it is.
    pub fn stop_repeat(&mut self)
        ensures
            final(self)@ == stop_repeat_model(old(self)@),
    {
        if let TimeoutType::Repeat = self.timeout_type {
            self.timeout_type = TimeoutType::Once;
        }
    }

    /// For a `OnceMore` timer: sets the parameter and restarts the clock at
    /// `now`, to run once more a timeout from now, and returns `true` (the
    /// caller then wakes the timer thread). Any other timer is left as it is,
    /// and `false` comes back.
    pub fn once_more_with_param(&mut self, new_param: T, now: u64) -> (r: bool)
        ensures
            (final(self)@, r) == once_more_model(old(self)@, new_param, now),
    {
        match self.timeout_type {
            TimeoutType::OnceMore => {
                self.feed_param(new_param);
                self.touch(now);
                true
            },
            _ => false,
        }
    }

    /// One step of the timer thread at time `now`.
    pub fn step(&mut self, now: u64) -> (action: TimerAction)
        ensures
            (final(self)@, action) == step_model(old(self)@, now),
    {
        match self.phase {
            TimerPhase::Finished => TimerAction::Exit,
            TimerPhase::Settling => {
                match self.timeout_type {
                    TimeoutType::OnceMore => {
                        self.phase = TimerPhase::Parked;
                        TimerAction::Park
                    },
                    _ => {
                        self.phase = TimerPhase::Finished;
                        TimerAction::Exit
                    },
                }
            },
            TimerPhase::Starting => {
                let single_shot = match self.timeout_type {
                    TimeoutType::Repeat => false,
                    _ => true,
                };
                if single_shot && self.last_param.is_none() {
                    self.phase = TimerPhase::Parked;
                    TimerAction::Park
                } else {
                    self.timing(now)
                }
            },
            _ => self.timing(now),
        }
    }

    /// The waiting part of a step: sleep for what is left, or fire.
    fn timing(&mut self, now: u64) -> (action: TimerAction)
        ensures
            (final(self)@, action) == timing_model(old(self)@, now),
    {
        let elapsed: u64 = now.saturating_sub(self.last_tick);
        match self.timeout.checked_sub(elapsed) {
            Some(left) => {
                self.phase = TimerPhase::Timing;
                TimerAction::Sleep(left)
            },
            None => {
                self.last_tick = now;
                self.phase = match self.timeout_type {
                    TimeoutType::Repeat => TimerPhase::Timing,
                    _ => TimerPhase::Settling,
                };
                TimerAction::Fire
            },
        }
    }

    /// The parameter to run the task with when the timer fires: a repeating
    /// timer hands out a clone and keeps its parameter, a single-shot timer
    /// hands out the parameter itself and is left without one.
    pub fn take_fire_param(&mut self) -> (r: Option<T>)
        where T: Clone
        ensures
            final(self)@ == fire_param_model(old(self)@),
            r is Some == old(self)@.param is Some,
            old(self)@.kind != TimeoutType::Repeat ==> r == old(self)@.param,
            r is Some ==> cloned(old(self)@.param->0, r->0),
    {
        match self.timeout_type {
            TimeoutType::Repeat => {
                match &self.last_param {
                    Some(p) => Some(p.clone()),
                    None => None,
                }
            },
            _ => self.last_param.take(),
        }
    }
}


/// The timer fires only when more than the timeout has passed since the
/// clock was last restarted, and a firing restarts the clock at that moment.
pub proof fn law_fires_only_after_timeout<T>(s: TimerView<T>, now: u64)
    ensures
        step_model(s, now).1 == TimerAction::Fire ==> {
            &&& elapsed_since(s.last_tick, now) > s.timeout
            &&& step_model(s, now).0.last_tick == now
        },
{
}

/// `touch` resets the clock: a timer that is waiting does not fire within a
/// timeout of the touch, and sleeps exactly for what is left of it.
pub proof fn law_touch_postpones_firing<T>(s: TimerView<T>, at: u64, later: u64)
    requires
        s.phase == TimerPhase::Timing || s.phase == TimerPhase::Parked,
        at <= later,
        later - at <= s.timeout,
    ensures
        step_model(touch_model(s, at), later).1 == TimerAction::Sleep(
            (s.timeout - (later - at)) as u64,
        ),
        step_model(touch_model(s, at), later).0.phase == TimerPhase::Timing,
{
}

/// A timer that is waiting fires once more than the timeout has passed.
pub proof fn law_waiting_timer_fires_after_timeout<T>(s: TimerView<T>, now: u64)
    requires
        s.phase == TimerPhase::Timing || s.phase == TimerPhase::Parked,
        elapsed_since(s.last_tick, now) > s.timeout,
    ensures
        step_model(s, now).1 == TimerAction::Fire,
{
}

/// A timer that ended stays ended.
pub proof fn law_finished_is_final<T>(s: TimerView<T>, now: u64)
    requires
        s.phase == TimerPhase::Finished,
    ensures
        step_model(s, now) == (s, TimerAction::Exit),
{
}

/// A `Once` timer runs at most once: the step after its firing ends it.
pub proof fn law_once_runs_once<T>(s: TimerView<T>, now: u64, later: u64)
    requires
        s.kind == TimeoutType::Once,
        step_model(s, now).1 == TimerAction::Fire,
    ensures
        step_model(fire_param_model(step_model(s, now).0), later).1 == TimerAction::Exit,
        step_model(fire_param_model(step_model(s, now).0), later).0.phase == TimerPhase::Finished,
{
}

/// A `Repeat` timer goes on timing after each firing and keeps its parameter.
pub proof fn law_repeat_keeps_timing<T>(s: TimerView<T>, now: u64)
    requires
        s.kind == TimeoutType::Repeat,
        step_model(s, now).1 == TimerAction::Fire,
    ensures
        fire_param_model(step_model(s, now).0).phase == TimerPhase::Timing,
        fire_param_model(step_model(s, now).0).param == s.param,
{
}

/// After `stop_repeat`, a repeating timer ends after its next firing.
pub proof fn law_stop_repeat_ends_after_next_run<T>(s: TimerView<T>, now: u64, later: u64)
    requires
        s.kind == TimeoutType::Repeat,
        step_model(stop_repeat_model(s), now).1 == TimerAction::Fire,
    ensures
        step_model(fire_param_model(step_model(stop_repeat_model(s), now).0), later).1
            == TimerAction::Exit,
{
}

/// A single-shot timer with no parameter parks before it starts timing.
pub proof fn law_single_shot_waits_for_param<T>(s: TimerView<T>, now: u64)
    requires
        s.phase == TimerPhase::Starting,
        s.kind != TimeoutType::Repeat,
        s.param is None,
    ensures
        step_model(s, now).1 == TimerAction::Park,
{
}

/// A `OnceMore` timer parks after each firing; `once_more_with_param` then
/// arms it again: it waits a full timeout from the request, then fires and
/// runs with the new parameter.
pub proof fn law_once_more_rearms<T>(s: TimerView<T>, now: u64, p: T, at: u64, later: u64)
    requires
        s.kind == TimeoutType::OnceMore,
        step_model(s, now).1 == TimerAction::Fire,
    ensures
        ({
            let parked = step_model(fire_param_model(step_model(s, now).0), now);
            let armed = once_more_model(parked.0, p, at);
            &&& parked.1 == TimerAction::Park
            &&& parked.0.phase == TimerPhase::Parked
            &&& armed.1
            &&& (at <= later && later - at <= s.timeout ==> step_model(armed.0, later).1
                == TimerAction::Sleep((s.timeout - (later - at)) as u64))
            &&& (elapsed_since(at, later) > s.timeout ==> {
                &&& step_model(armed.0, later).1 == TimerAction::Fire
                &&& step_model(armed.0, later).0.param == Some(p)
            })
        }),
{
}

/// `once_more_with_param` leaves any timer that is not `OnceMore` unchanged.
pub proof fn law_once_more_only_for_once_more<T>(s: TimerView<T>, p: T, at: u64)
    requires
        s.kind != TimeoutType::OnceMore,
    ensures
        once_more_model(s, p, at) == (s, false),
{
}


/// A step never changes the parameter: when the timer fires, the task runs
/// with the parameter fed last.
pub proof fn law_fires_with_latest_param<T>(s: TimerView<T>, p: T, now: u64)
    ensures
        step_model(s, now).0.param == s.param,
        step_model(feed_model(s, p), now).0.param == Some(p),
{
}


/// `stop_repeat` changes only a repeating timer: in particular a `OnceMore`
/// timer can still be armed again afterwards.
pub proof fn law_stop_repeat_only_for_repeat<T>(s: TimerView<T>, p: T, at: u64)
    requires
        s.kind != TimeoutType::Repeat,
    ensures
        stop_repeat_model(s) == s,
        s.kind == TimeoutType::OnceMore ==> once_more_model(stop_repeat_model(s), p, at).1,
{
}

/// What can happen to a timer: a step of its thread at a time, a new
/// parameter, a touch at a time, `stop_repeat`, `once_more_with_param`.
pub enum TimerEvent<T> {
    Step(u64),
    Feed(T),
    Touch(u64),
    StopRepeat,
    OnceMore(T, u64),
}

/// The timer after some events: its state, the actions its thread took, and
/// its runs (the time of each firing and the parameter handed out then).
pub struct TimerTrace<T> {
    pub state: TimerView<T>,
    pub actions: Seq<TimerAction>,
    pub runs: Seq<(u64, Option<T>)>,
}

/// One event. A firing step hands out the fire parameter at once.
pub open spec fn timer_apply<T>(s: TimerView<T>, e: TimerEvent<T>) -> TimerTrace<T> {
    match e {
        TimerEvent::Step(now) => {
            let (next, action) = step_model(s, now);
            if action == TimerAction::Fire {
                TimerTrace {
                    state: fire_param_model(next),
                    actions: seq![action],
                    runs: seq![(now, next.param)],
                }
            } else {
                TimerTrace { state: next, actions: seq![action], runs: Seq::empty() }
            }
        },
        TimerEvent::Feed(p) => TimerTrace {
            state: feed_model(s, p),
            actions: Seq::empty(),
            runs: Seq::empty(),
        },
        TimerEvent::Touch(at) => TimerTrace {
            state: touch_model(s, at),
            actions: Seq::empty(),
            runs: Seq::empty(),
        },
        TimerEvent::StopRepeat => TimerTrace {
            state: stop_repeat_model(s),
            actions: Seq::empty(),
            runs: Seq::empty(),
        },
        TimerEvent::OnceMore(p, at) => TimerTrace {
            state: once_more_model(s, p, at).0,
            actions: Seq::empty(),
            runs: Seq::empty(),
        },
    }
}

/// The timer after a sequence of events.
pub open spec fn timer_trace<T>(s: TimerView<T>, evs: Seq<TimerEvent<T>>) -> TimerTrace<T>
    decreases evs.len(),
{
    if evs.len() == 0 {
        TimerTrace { state: s, actions: Seq::empty(), runs: Seq::empty() }
    } else {
        let before = timer_trace(s, evs.drop_last());
        let last = timer_apply(before.state, evs.last());
        TimerTrace {
            state: last.state,
            actions: before.actions + last.actions,
            runs: before.runs + last.runs,
        }
    }
}

/// Whether a timer in this phase may still fire before it settles.
pub open spec fn may_fire(phase: TimerPhase) -> nat {
    if phase == TimerPhase::Settling || phase == TimerPhase::Finished {
        0
    } else {
        1
    }
}

/// The invariant behind `law_once_runs_at_most_once`.
pub proof fn lemma_once_fires_within_budget<T>(s: TimerView<T>, evs: Seq<TimerEvent<T>>)
    requires
        s.kind == TimeoutType::Once,
    ensures
        timer_trace(s, evs).state.kind == TimeoutType::Once,
        timer_trace(s, evs).runs.len() + may_fire(timer_trace(s, evs).state.phase) <= may_fire(
            s.phase,
        ),
    decreases evs.len(),
{
    if evs.len() > 0 {
        lemma_once_fires_within_budget(s, evs.drop_last());
    }
}

/// A `Once` timer runs at most once over its whole life, whatever is done to
/// it.
pub proof fn law_once_runs_at_most_once<T>(s: TimerView<T>, evs: Seq<TimerEvent<T>>)
    requires
        s.kind == TimeoutType::Once,
    ensures
        timer_trace(s, evs).runs.len() <= 1,
{
    lemma_once_fires_within_budget(s, evs);
}

/// After `stop_repeat`, a repeating timer runs at most once more.
pub proof fn law_stop_repeat_at_most_one_more_run<T>(s: TimerView<T>, evs: Seq<TimerEvent<T>>)
    requires
        s.kind == TimeoutType::Repeat,
    ensures
        timer_trace(stop_repeat_model(s), evs).runs.len() <= 1,
{
    lemma_once_fires_within_budget(stop_repeat_model(s), evs);
}

/// Whether all of `evs` are steps of the timer thread.
pub open spec fn steps_only<T>(evs: Seq<TimerEvent<T>>) -> bool {
    forall|i: int| 0 <= i < evs.len() ==> #[trigger] evs[i] is Step
}

/// A repeating timer left alone runs again and again with the same
/// parameter, each firing more than a timeout after the one before.
pub proof fn law_repeat_runs_every_timeout<T>(s: TimerView<T>, evs: Seq<TimerEvent<T>>)
    requires
        s.kind == TimeoutType::Repeat,
        steps_only(evs),
    ensures
        ({
            let t = timer_trace(s, evs);
            &&& t.state.kind == TimeoutType::Repeat
            &&& t.state.param == s.param
            &&& t.state.timeout == s.timeout
            &&& t.runs.len() > 0 ==> t.state.last_tick == t.runs.last().0
            &&& forall|i: int| 0 <= i < t.runs.len() ==> (#[trigger] t.runs[i]).1 == s.param
            &&& forall|i: int|
                0 <= i < t.runs.len() - 1 ==> (#[trigger] t.runs[i + 1]).0 > t.runs[i].0 + s.timeout
        }),
    decreases evs.len(),
{
    if evs.len() > 0 {
        let pre = evs.drop_last();
        assert forall|i: int| 0 <= i < pre.len() implies #[trigger] pre[i] is Step by {
            assert(pre[i] == evs[i]);
        }
        law_repeat_runs_every_timeout(s, pre);
        assert(evs[evs.len() - 1] is Step);
        let before = timer_trace(s, pre);
        let t = timer_trace(s, evs);
        let last = timer_apply(before.state, evs.last());
        assert(t.runs == before.runs + last.runs);
        if last.runs.len() > 0 {
            let n = before.runs.len();
            assert forall|i: int| 0 <= i < t.runs.len() - 1 implies (#[trigger] t.runs[i + 1]).0
                > t.runs[i].0 + s.timeout by {
                if i + 1 < n {
                    assert(t.runs[i + 1] == before.runs[i + 1]);
                    assert(t.runs[i] == before.runs[i]);
                } else {
                    assert(t.runs[i] == before.runs[n - 1]);
                }
            }
            assert forall|i: int| 0 <= i < t.runs.len() implies (#[trigger] t.runs[i]).1
                == s.param by {
                if i < n {
                    assert(t.runs[i] == before.runs[i]);
                }
            }
        } else {
            assert(t.runs == before.runs);
        }
    }
}

/// The invariant behind `law_once_more_timer_never_exits`.
pub proof fn lemma_once_more_phases<T>(s: TimerView<T>, evs: Seq<TimerEvent<T>>)
    requires
        s.kind == TimeoutType::OnceMore,
        s.phase != TimerPhase::Finished,
    ensures
        ({
            let t = timer_trace(s, evs);
            &&& t.state.kind == TimeoutType::OnceMore
            &&& t.state.phase != TimerPhase::Finished
            &&& t.actions.len() > 0 && t.actions.last() == TimerAction::Fire
                ==> t.state.phase == TimerPhase::Settling
            &&& forall|i: int| 0 <= i < t.actions.len() ==> #[trigger] t.actions[i] != TimerAction::Exit
            &&& forall|i: int|
                0 <= i < t.actions.len() - 1 && t.actions[i] == TimerAction::Fire
                    ==> #[trigger] t.actions[i + 1] == TimerAction::Park
        }),
    decreases evs.len(),
{
    if evs.len() > 0 {
        let pre = evs.drop_last();
        lemma_once_more_phases(s, pre);
        let before = timer_trace(s, pre);
        let t = timer_trace(s, evs);
        let last = timer_apply(before.state, evs.last());
        assert(t.actions == before.actions + last.actions);
        let n = before.actions.len();
        if last.actions.len() > 0 {
            assert(last.actions.len() == 1);
            assert forall|i: int| 0 <= i < t.actions.len() implies #[trigger] t.actions[i]
                != TimerAction::Exit by {
                if i < n {
                    assert(t.actions[i] == before.actions[i]);
                }
            }
            assert forall|i: int|
                0 <= i < t.actions.len() - 1 && t.actions[i] == TimerAction::Fire implies #[trigger] t.actions[i + 1]
                == TimerAction::Park by {
                if i + 1 < n {
                    assert(t.actions[i] == before.actions[i]);
                    assert(t.actions[i + 1] == before.actions[i + 1]);
                } else {
                    assert(t.actions[i] == before.actions[n - 1]);
                }
            }
        } else {
            assert(t.actions == before.actions);
        }
    }
}

/// A `OnceMore` timer never ends, whatever is done to it (`stop_repeat`
/// included), and after each firing its thread parks: one run per wake.
pub proof fn law_once_more_timer_never_exits<T>(s: TimerView<T>, evs: Seq<TimerEvent<T>>)
    requires
        s.kind == TimeoutType::OnceMore,
        s.phase != TimerPhase::Finished,
    ensures
        ({
            let t = timer_trace(s, evs);
            &&& forall|i: int| 0 <= i < t.actions.len() ==> #[trigger] t.actions[i] != TimerAction::Exit
            &&& forall|i: int|
                0 <= i < t.actions.len() - 1 && t.actions[i] == TimerAction::Fire
                    ==> #[trigger] t.actions[i + 1] == TimerAction::Park
        }),
{
    lemma_once_more_phases(s, evs);
}

/// The invariant behind `law_next_run_gets_fed_param`.
pub proof fn lemma_fed_param_held<T>(s: TimerView<T>, p: T, evs: Seq<TimerEvent<T>>)
    requires
        forall|i: int| 0 <= i < evs.len() ==> !(#[trigger] evs[i] is Feed) && !(evs[i] is OnceMore),
    ensures
        timer_trace(feed_model(s, p), evs).runs.len() == 0 ==> timer_trace(
            feed_model(s, p),
            evs,
        ).state.param == Some(p),
        timer_trace(feed_model(s, p), evs).runs.len() > 0 ==> timer_trace(
            feed_model(s, p),
            evs,
        ).runs[0].1 == Some(p),
    decreases evs.len(),
{
    if evs.len() > 0 {
        let pre = evs.drop_last();
        assert forall|i: int| 0 <= i < pre.len() implies !(#[trigger] pre[i] is Feed) && !(
        pre[i] is OnceMore) by {
            assert(pre[i] == evs[i]);
        }
        lemma_fed_param_held(s, p, pre);
        assert(!(evs[evs.len() - 1] is Feed) && !(evs[evs.len() - 1] is OnceMore));
        let before = timer_trace(feed_model(s, p), pre);
        let last = timer_apply(before.state, evs.last());
        let t = timer_trace(feed_model(s, p), evs);
        assert(t.runs == before.runs + last.runs);
        if before.runs.len() > 0 {
            assert(t.runs[0] == before.runs[0]);
        }
    }
}

/// After `feed_param`, the next run gets that parameter, however many
/// steps, touches and `stop_repeat` calls come first.
pub proof fn law_next_run_gets_fed_param<T>(s: TimerView<T>, p: T, evs: Seq<TimerEvent<T>>)
    requires
        forall|i: int| 0 <= i < evs.len() ==> !(#[trigger] evs[i] is Feed) && !(evs[i] is OnceMore),
    ensures
        timer_trace(feed_model(s, p), evs).runs.len() > 0 ==> timer_trace(
            feed_model(s, p),
            evs,
        ).runs[0].1 == Some(p),
{
    lemma_fed_param_held(s, p, evs);
}

/// `touch` keeps the timer from firing for a whole timeout, across any
/// steps (in any phase), new parameters and `stop_repeat` calls.
pub proof fn law_touch_holds_for_a_timeout<T>(s: TimerView<T>, at: u64, evs: Seq<TimerEvent<T>>)
    requires
        forall|i: int|
            0 <= i < evs.len() ==> !(#[trigger] evs[i] is Touch) && !(evs[i] is OnceMore) && (
            evs[i] is Step ==> evs[i]->Step_0 <= at + s.timeout),
    ensures
        timer_trace(touch_model(s, at), evs).runs.len() == 0,
        timer_trace(touch_model(s, at), evs).state.last_tick == at,
        timer_trace(touch_model(s, at), evs).state.timeout == s.timeout,
    decreases evs.len(),
{
    if evs.len() > 0 {
        let pre = evs.drop_last();
        assert forall|i: int| 0 <= i < pre.len() implies !(#[trigger] pre[i] is Touch) && !(
        pre[i] is OnceMore) && (pre[i] is Step ==> pre[i]->Step_0 <= at + s.timeout) by {
            assert(pre[i] == evs[i]);
        }
        law_touch_holds_for_a_timeout(s, at, pre);
        let e = evs[evs.len() - 1];
        assert(!(e is Touch) && !(e is OnceMore) && (e is Step ==> e->Step_0 <= at + s.timeout));
    }
}

/// Whether all of `evs` are steps of the timer thread or `stop_repeat` calls.
pub open spec fn steps_or_stop<T>(evs: Seq<TimerEvent<T>>) -> bool {
    forall|i: int| 0 <= i < evs.len() ==> #[trigger] evs[i] is Step || evs[i] is StopRepeat
}

/// The invariant behind `law_once_more_runs_once_more`.
pub proof fn lemma_once_more_run<T>(s: TimerView<T>, p: T, at: u64, evs: Seq<TimerEvent<T>>)
    requires
        s.kind == TimeoutType::OnceMore,
        s.phase == TimerPhase::Parked,
        steps_or_stop(evs),
    ensures
        ({
            let t = timer_trace(once_more_model(s, p, at).0, evs);
            &&& t.state.kind == TimeoutType::OnceMore
            &&& t.state.timeout == s.timeout
            &&& t.runs.len() == 0 ==> {
                &&& t.state.phase == TimerPhase::Parked || t.state.phase == TimerPhase::Timing
                &&& t.state.last_tick == at
                &&& t.state.param == Some(p)
            }
            &&& t.runs.len() > 0 ==> {
                &&& t.state.param is None
                &&& t.runs[0].0 > at + s.timeout
                &&& t.runs[0].1 == Some(p)
            }
            &&& forall|i: int| 0 < i < t.runs.len() ==> (#[trigger] t.runs[i]).1 is None
            &&& (exists|i: int| 0 <= i < evs.len() && (#[trigger] evs[i]) is Step && evs[i]->Step_0 > at + s.timeout)
                ==> t.runs.len() > 0
        }),
    decreases evs.len(),
{
    if evs.len() > 0 {
        let pre = evs.drop_last();
        assert forall|i: int| 0 <= i < pre.len() implies #[trigger] pre[i] is Step || pre[i] is StopRepeat by {
            assert(pre[i] == evs[i]);
        }
        lemma_once_more_run(s, p, at, pre);
        assert(evs[evs.len() - 1] is Step || evs[evs.len() - 1] is StopRepeat);
        let before = timer_trace(once_more_model(s, p, at).0, pre);
        let last = timer_apply(before.state, evs.last());
        let t = timer_trace(once_more_model(s, p, at).0, evs);
        assert(t.runs == before.runs + last.runs);
        let n = before.runs.len();
        if n > 0 {
            assert(t.runs[0] == before.runs[0]);
        }
        assert forall|i: int| 0 < i < t.runs.len() implies (#[trigger] t.runs[i]).1 is None by {
            if i < n {
                assert(t.runs[i] == before.runs[i]);
            }
        }
        if exists|i: int| 0 <= i < evs.len() && (#[trigger] evs[i]) is Step && evs[i]->Step_0 > at + s.timeout {
            let i = choose|i: int| 0 <= i < evs.len() && (#[trigger] evs[i]) is Step && evs[i]->Step_0 > at + s.timeout;
            if i < pre.len() {
                assert(pre[i] == evs[i]);
            }
        }
    }
}

/// `once_more_with_param` on a parked `OnceMore` timer gives exactly one
/// more run of the task: the first firing comes strictly more than a timeout
/// after the request, with the new parameter, and any later firing (after a
/// wake with no new request) has no parameter to run with. A step past the
/// timeout does fire. Calls of `stop_repeat` in between change nothing.
pub proof fn law_once_more_runs_once_more<T>(s: TimerView<T>, p: T, at: u64, evs: Seq<TimerEvent<T>>)
    requires
        s.kind == TimeoutType::OnceMore,
        s.phase == TimerPhase::Parked,
        steps_or_stop(evs),
    ensures
        ({
            let t = timer_trace(once_more_model(s, p, at).0, evs);
            &&& t.runs.len() > 0 ==> t.runs[0].0 > at + s.timeout && t.runs[0].1 == Some(p)
            &&& forall|i: int| 0 < i < t.runs.len() ==> (#[trigger] t.runs[i]).1 is None
            &&& (exists|i: int| 0 <= i < evs.len() && (#[trigger] evs[i]) is Step && evs[i]->Step_0 > at + s.timeout)
                ==> t.runs.len() > 0
        }),
{
    lemma_once_more_run(s, p, at, evs);
}


/// Whether a timer in this phase is waiting to fire (not settling after a
/// single shot, and not ended).
pub open spec fn waiting(phase: TimerPhase) -> bool {
    phase == TimerPhase::Starting || phase == TimerPhase::Parked || phase == TimerPhase::Timing
}

/// `feed_param` changes only the parameter: the phase, the clock, the kind
/// and the timeout stay as they were, so a parked or timing timer that is
/// fed stays waiting.
pub proof fn law_feed_changes_only_the_param<T>(s: TimerView<T>, p: T)
    ensures
        feed_model(s, p).param == Some(p),
        feed_model(s, p).phase == s.phase,
        feed_model(s, p).last_tick == s.last_tick,
        feed_model(s, p).kind == s.kind,
        feed_model(s, p).timeout == s.timeout,
{
}

/// A timer holding a parameter, left to its steps (and `stop_repeat`
/// calls): its first run comes more than a timeout after its last tick and
/// hands out that parameter; and, while it is waiting, a step more than a
/// timeout after its last tick makes it fire.
pub proof fn lemma_waiting_with_param<T>(w: TimerView<T>, p: T, evs: Seq<TimerEvent<T>>)
    requires
        w.param == Some(p),
        steps_or_stop(evs),
    ensures
        ({
            let t = timer_trace(w, evs);
            &&& t.state.timeout == w.timeout
            &&& t.runs.len() == 0 ==> {
                &&& t.state.last_tick == w.last_tick
                &&& t.state.param == Some(p)
                &&& waiting(w.phase) ==> waiting(t.state.phase)
            }
            &&& t.runs.len() > 0 ==> {
                &&& t.runs[0].0 > w.last_tick + w.timeout
                &&& t.runs[0].1 == Some(p)
            }
            &&& waiting(w.phase) && (exists|i: int|
                0 <= i < evs.len() && (#[trigger] evs[i]) is Step && elapsed_since(
                    w.last_tick,
                    evs[i]->Step_0,
                ) > w.timeout) ==> t.runs.len() > 0
        }),
    decreases evs.len(),
{
    if evs.len() > 0 {
        let pre = evs.drop_last();
        assert forall|i: int| 0 <= i < pre.len() implies #[trigger] pre[i] is Step || pre[i] is StopRepeat by {
            assert(pre[i] == evs[i]);
        }
        lemma_waiting_with_param(w, p, pre);
        assert(evs[evs.len() - 1] is Step || evs[evs.len() - 1] is StopRepeat);
        let before = timer_trace(w, pre);
        let last = timer_apply(before.state, evs.last());
        let t = timer_trace(w, evs);
        assert(t.runs == before.runs + last.runs);
        if before.runs.len() > 0 {
            assert(t.runs[0] == before.runs[0]);
        }
        if waiting(w.phase) && exists|i: int|
            0 <= i < evs.len() && (#[trigger] evs[i]) is Step && elapsed_since(
                w.last_tick,
                evs[i]->Step_0,
            ) > w.timeout {
            let i = choose|i: int|
                0 <= i < evs.len() && (#[trigger] evs[i]) is Step && elapsed_since(
                    w.last_tick,
                    evs[i]->Step_0,
                ) > w.timeout;
            if i < pre.len() {
                assert(pre[i] == evs[i]);
            }
        }
    }
}

/// A fed timer runs with the fed parameter: a timer that was waiting (parked,
/// timing or just started, a `OnceMore` timer parked for lack of a parameter
/// included) fires at the first step more than a timeout after its last
/// tick, and its first run hands out the fed parameter.
pub proof fn law_fed_timer_runs_when_due<T>(s: TimerView<T>, p: T, evs: Seq<TimerEvent<T>>)
    requires
        waiting(s.phase),
        steps_or_stop(evs),
    ensures
        ({
            let t = timer_trace(feed_model(s, p), evs);
            &&& t.runs.len() > 0 ==> t.runs[0].0 > s.last_tick + s.timeout && t.runs[0].1 == Some(p)
            &&& (exists|i: int|
                0 <= i < evs.len() && (#[trigger] evs[i]) is Step && elapsed_since(
                    s.last_tick,
                    evs[i]->Step_0,
                ) > s.timeout) ==> t.runs.len() > 0
        }),
{
    lemma_waiting_with_param(feed_model(s, p), p, evs);
}

/// For a `OnceMore` timer in any phase, `once_more_with_param` is taken, sets
/// the parameter to the new one and the last tick to the call time, and
/// leaves the phase, the kind and the timeout alone.
pub proof fn law_once_more_sets_param_and_clock<T>(s: TimerView<T>, p: T, at: u64)
    requires
        s.kind == TimeoutType::OnceMore,
    ensures
        once_more_model(s, p, at).1,
        once_more_model(s, p, at).0.param == Some(p),
        once_more_model(s, p, at).0.last_tick == at,
        once_more_model(s, p, at).0.phase == s.phase,
        once_more_model(s, p, at).0.kind == s.kind,
        once_more_model(s, p, at).0.timeout == s.timeout,
{
}

/// After `once_more_with_param` on a `OnceMore` timer, in whatever phase its
/// thread is, the next firing comes more than a timeout after the call and
/// runs with the new parameter; a timer that was waiting fires at the first
/// step past that timeout.
pub proof fn law_once_more_next_run_after_full_timeout<T>(
    s: TimerView<T>,
    p: T,
    at: u64,
    evs: Seq<TimerEvent<T>>,
)
    requires
        s.kind == TimeoutType::OnceMore,
        steps_or_stop(evs),
    ensures
        ({
            let t = timer_trace(once_more_model(s, p, at).0, evs);
            &&& t.runs.len() > 0 ==> t.runs[0].0 > at + s.timeout && t.runs[0].1 == Some(p)
            &&& waiting(s.phase) && (exists|i: int|
                0 <= i < evs.len() && (#[trigger] evs[i]) is Step && elapsed_since(
                    at,
                    evs[i]->Step_0,
                ) > s.timeout) ==> t.runs.len() > 0
        }),
{
    lemma_waiting_with_param(once_more_model(s, p, at).0, p, evs);
}

} // verus!

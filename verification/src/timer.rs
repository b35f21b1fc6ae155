//! The elapsed-time accumulator: it measures how long it has been in its
//! running phase, across any number of start/stop (pause/resume) cycles.
//!
//! All operations take `now_ms`, the caller's current monotonic-clock reading
//! in milliseconds. Elapsed time is `accumulated_ms` plus, while running, the
//! time since the recorded start point.

use vstd::prelude::*;

verus! {

/// A minimal stopwatch timer. `accumulated_ms` holds the time accrued during
/// completed running phases; `running_since` holds the clock reading at which
/// the current running phase began, and is `None` while paused or reset.
pub struct Timer {
    accumulated_ms: u64,
    running_since: Option<u64>,
}

/// The mathematical shape of a timer: accumulated time and, while running,
/// the clock reading at which the open phase began.
pub ghost struct TimerModel {
    pub acc: int,
    pub run: Option<int>,
}

/// One user action on a timer, at a given clock reading.
pub ghost enum TimerEvent {
    Start { at: int },
    Stop { at: int },
}

/// How a single event moves the timer model: `Start` opens a phase when none
/// is open, `Stop` closes an open phase and adds its span; anything else is
/// a no-op.
pub open spec fn step(m: TimerModel, e: TimerEvent) -> TimerModel {
    match e {
        TimerEvent::Start { at } => match m.run {
            Some(_) => m,
            None => TimerModel { acc: m.acc, run: Some(at) },
        },
        TimerEvent::Stop { at } => match m.run {
            Some(since) => TimerModel { acc: m.acc + (at - since), run: None },
            None => m,
        },
    }
}

/// The timer model after a whole sequence of events.
pub open spec fn run_events(m: TimerModel, events: Seq<TimerEvent>) -> TimerModel
    decreases events.len(),
{
    if events.len() == 0 {
        m
    } else {
        run_events(step(m, events[0]), events.drop_first())
    }
}

/// The running intervals that a sequence of events completes, as
/// (start, stop) pairs of clock readings; `pending` is the start of a phase
/// already open before the sequence begins.
pub open spec fn completed_intervals(events: Seq<TimerEvent>, pending: Option<int>) -> Seq<(
    int,
    int,
)>
    decreases events.len(),
{
    if events.len() == 0 {
        Seq::empty()
    } else {
        let rest = events.drop_first();
        match events[0] {
            TimerEvent::Start { at } => match pending {
                Some(_) => completed_intervals(rest, pending),
                None => completed_intervals(rest, Some(at)),
            },
            TimerEvent::Stop { at } => match pending {
                Some(since) => seq![(since, at)] + completed_intervals(rest, None),
                None => completed_intervals(rest, None),
            },
        }
    }
}

/// The total span of a sequence of (start, stop) intervals.
pub open spec fn span_sum(intervals: Seq<(int, int)>) -> int
    decreases intervals.len(),
{
    if intervals.len() == 0 {
        0
    } else {
        (intervals[0].1 - intervals[0].0) + span_sum(intervals.drop_first())
    }
}

/// Generalisation for the induction: from any starting model, a sequence of
/// events adds to the accumulated total exactly the span of the running
/// intervals it completes.
proof fn lemma_acc_counts_completed_spans(m: TimerModel, events: Seq<TimerEvent>)
    ensures
        run_events(m, events).acc == m.acc + span_sum(completed_intervals(events, m.run)),
    decreases events.len(),
{
    if events.len() == 0 {
    } else {
        let rest = events.drop_first();
        match events[0] {
            TimerEvent::Start { .. } => {
                lemma_acc_counts_completed_spans(step(m, events[0]), rest);
            }
            TimerEvent::Stop { at } => {
                lemma_acc_counts_completed_spans(step(m, events[0]), rest);
                match m.run {
                    Some(since) => {
                        let tail = completed_intervals(rest, None);
                        let whole = seq![(since, at)] + tail;
                        assert(whole.drop_first() =~= tail);
                    }
                    None => {}
                }
            }
        }
    }
}

/// After any sequence of start/stop events on a fresh timer, the accumulated
/// total equals the sum of the durations of the completed running intervals:
/// pause/resume cycles neither lose nor double-count time.
pub proof fn lemma_elapsed_is_sum_of_run_intervals(events: Seq<TimerEvent>)
    ensures
        run_events(TimerModel { acc: 0, run: None }, events).acc == span_sum(
            completed_intervals(events, None),
        ),
{
    lemma_acc_counts_completed_spans(TimerModel { acc: 0, run: None }, events);
}

impl Timer {
    /// Milliseconds accrued during completed running phases.
    pub closed spec fn acc(self) -> int {
        self.accumulated_ms as int
    }

    /// Whether the timer is currently in a running phase.
    pub closed spec fn is_running(self) -> bool {
        self.running_since is Some
    }

    /// The clock reading at which the current running phase began
    /// (meaningful only while running).
    pub closed spec fn started_at(self) -> int {
        match self.running_since {
            Some(t) => t as int,
            None => 0,
        }
    }

    /// The timer as a value of the event model.
    pub open spec fn model(self) -> TimerModel {
        TimerModel {
            acc: self.acc(),
            run: if self.is_running() {
                Some(self.started_at())
            } else {
                None
            },
        }
    }

    /// The elapsed time the timer reports when the clock reads `now`:
    /// the accumulated total, plus the still-open running phase if any.
    pub open spec fn elapsed_at(self, now: int) -> int {
        if self.is_running() {
            self.acc() + (now - self.started_at())
        } else {
            self.acc()
        }
    }

    /// A freshly created timer: zero accumulated time, not running.
    pub fn new() -> (t: Timer)
        ensures
            t.acc() == 0,
            !t.is_running(),
            forall|now: int| t.elapsed_at(now) == 0,
    {
        Timer { accumulated_ms: 0, running_since: None }
    }

    /// Begin a running phase at clock reading `now_ms`. Starting an already
    /// running timer changes nothing: in particular it does not reset the
    /// accumulated total.
    pub fn start(&mut self, now_ms: u64)
        ensures
            old(self).is_running() ==> *final(self) == *old(self),
            !old(self).is_running() ==> {
                &&& final(self).is_running()
                &&& final(self).acc() == old(self).acc()
                &&& final(self).started_at() == now_ms as int
            },
            final(self).model() == step(
                old(self).model(),
                (TimerEvent::Start { at: now_ms as int }),
            ),
    {
        if self.running_since.is_none() {
            self.running_since = Some(now_ms);
        }
    }

    /// Close the current running phase at clock reading `now_ms`, folding its
    /// span into the accumulated total. Stopping an already stopped timer
    /// changes nothing, so the elapsed total is unaffected.
    pub fn stop(&mut self, now_ms: u64)
        requires
            old(self).is_running() ==> old(self).started_at() <= now_ms as int,
            old(self).elapsed_at(now_ms as int) <= u64::MAX,
        ensures
            !final(self).is_running(),
            final(self).acc() == old(self).elapsed_at(now_ms as int),
            !old(self).is_running() ==> *final(self) == *old(self),
            forall|now: int| final(self).elapsed_at(now) == old(self).elapsed_at(now_ms as int),
            final(self).model() == step(
                old(self).model(),
                (TimerEvent::Stop { at: now_ms as int }),
            ),
    {
        match self.running_since {
            Some(t) => {
                self.accumulated_ms = self.accumulated_ms + (now_ms - t);
                self.running_since = None;
            }
            None => {}
        }
    }

    /// Discard all accumulated time and any running phase, whatever the
    /// current state; afterwards the timer reports zero at every clock
    /// reading.
    pub fn reset(&mut self)
        ensures
            final(self).acc() == 0,
            !final(self).is_running(),
            forall|now: int| final(self).elapsed_at(now) == 0,
    {
        self.accumulated_ms = 0;
        self.running_since = None;
    }

    /// Report the elapsed time at clock reading `now_ms`. A pure query: safe
    /// to call at any frequency.
    pub fn elapsed(&self, now_ms: u64) -> (r: u64)
        requires
            self.is_running() ==> self.started_at() <= now_ms as int,
            self.elapsed_at(now_ms as int) <= u64::MAX,
        ensures
            r as int == self.elapsed_at(now_ms as int),
    {
        match self.running_since {
            Some(t) => self.accumulated_ms + (now_ms - t),
            None => self.accumulated_ms,
        }
    }
}

} // verus!

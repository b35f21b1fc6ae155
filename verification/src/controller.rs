//! The stopwatch controller: a three-state machine that owns the timer, the
//! lap ledger and the lap counter, and answers each user action with a
//! presentation directive for the UI shell to apply.
//!
//! The primary action toggles start/pause; the secondary action is
//! contextual: it records a lap while running and clears everything
//! otherwise. As everywhere in this crate, the clock is handed in: every
//! action takes `now_ms`, the caller's current monotonic-clock reading.

use vstd::prelude::*;

use crate::timer::Timer;

verus! {

/// The machine's three states. `Stopped` means paused after running and
/// resumable; `Reset` means cleared with zero elapsed time; `Running` means
/// actively accumulating.
#[derive(Clone, Copy, PartialEq, Eq, Structural, Debug)]
pub enum State {
    Stopped,
    Reset,
    Running,
}

impl Default for State {
    /// A freshly constructed, never-started stopwatch reports `Stopped`.
    fn default() -> (s: Self)
        ensures
            s is Stopped,
    {
        State::Stopped
    }
}

/// One recorded lap: the split duration in milliseconds (this lap alone, not
/// cumulative) and a 1-based chronological sequence number.
#[derive(Clone, Copy, PartialEq, Eq, Structural, Debug)]
pub struct Lap {
    pub duration_ms: u64,
    pub index: i32,
}

/// The accent colours a directive can ask of the two buttons.
#[derive(Clone, Copy, PartialEq, Eq, Structural, Debug)]
pub enum AccentColor {
    Purple,
    Yellow,
    Red,
}

/// The style class a directive puts on the time display container.
#[derive(Clone, Copy, PartialEq, Eq, Structural, Debug)]
pub enum StyleClass {
    Running,
    Paused,
    Stopped,
}

/// What the UI shell should show after a transition: labels, accent colours
/// and the container's style class. The shell applies this verbatim; the
/// core never touches rendering.
#[derive(Clone, Copy)]
pub struct PresentationDirective {
    pub primary_label: &'static str,
    pub primary_color: AccentColor,
    pub secondary_label: &'static str,
    pub secondary_enabled: bool,
    pub secondary_color: AccentColor,
    pub style_class: StyleClass,
}

/// The primary button's label in a given state.
pub open spec fn spec_primary_label(s: State) -> Seq<char> {
    match s {
        State::Running => "Pause"@,
        State::Stopped => "Resume"@,
        State::Reset => "Start"@,
    }
}

/// The primary button's accent colour in a given state.
pub open spec fn spec_primary_color(s: State) -> AccentColor {
    match s {
        State::Running => AccentColor::Yellow,
        State::Stopped => AccentColor::Purple,
        State::Reset => AccentColor::Purple,
    }
}

/// The secondary button's label in a given state: "Lap" wherever pressing it
/// would record or eventually record a lap, "Clear" while paused.
pub open spec fn spec_secondary_label(s: State) -> Seq<char> {
    match s {
        State::Running => "Lap"@,
        State::Stopped => "Clear"@,
        State::Reset => "Lap"@,
    }
}

/// Whether the secondary button is enabled: everywhere but in `Reset`, where
/// there is nothing to lap and nothing to clear.
pub open spec fn spec_secondary_enabled(s: State) -> bool {
    !(s is Reset)
}

/// The secondary button's accent colour in a given state.
pub open spec fn spec_secondary_color(s: State) -> AccentColor {
    match s {
        State::Running => AccentColor::Purple,
        State::Stopped => AccentColor::Red,
        State::Reset => AccentColor::Purple,
    }
}

/// The container's style class in a given state.
pub open spec fn spec_style_class(s: State) -> StyleClass {
    match s {
        State::Running => StyleClass::Running,
        State::Stopped => StyleClass::Paused,
        State::Reset => StyleClass::Stopped,
    }
}

/// A directive is exactly the presentation owed to a state.
pub open spec fn directive_matches(d: PresentationDirective, s: State) -> bool {
    &&& d.primary_label@ == spec_primary_label(s)
    &&& d.primary_color == spec_primary_color(s)
    &&& d.secondary_label@ == spec_secondary_label(s)
    &&& d.secondary_enabled == spec_secondary_enabled(s)
    &&& d.secondary_color == spec_secondary_color(s)
    &&& d.style_class == spec_style_class(s)
}

/// The state the primary (start/pause) action moves to.
pub open spec fn primary_target(s: State) -> State {
    match s {
        State::Running => State::Stopped,
        State::Stopped => State::Running,
        State::Reset => State::Running,
    }
}

/// The state the secondary (lap/clear) action moves to.
pub open spec fn secondary_target(s: State) -> State {
    match s {
        State::Running => State::Running,
        State::Stopped => State::Reset,
        State::Reset => State::Reset,
    }
}

/// The presentation owed after a transition, as a pure function of the
/// transition's states. The original and target are both given so the shell
/// need not remember either; the stopwatch's presentation is determined by
/// the state being entered.
pub fn presentation(old_state: State, new_state: State) -> (d: PresentationDirective)
    ensures
        directive_matches(d, new_state),
{
    let _ = old_state;
    match new_state {
        State::Running => PresentationDirective {
            primary_label: "Pause",
            primary_color: AccentColor::Yellow,
            secondary_label: "Lap",
            secondary_enabled: true,
            secondary_color: AccentColor::Purple,
            style_class: StyleClass::Running,
        },
        State::Stopped => PresentationDirective {
            primary_label: "Resume",
            primary_color: AccentColor::Purple,
            secondary_label: "Clear",
            secondary_enabled: true,
            secondary_color: AccentColor::Red,
            style_class: StyleClass::Paused,
        },
        State::Reset => PresentationDirective {
            primary_label: "Start",
            primary_color: AccentColor::Purple,
            secondary_label: "Lap",
            secondary_enabled: false,
            secondary_color: AccentColor::Purple,
            style_class: StyleClass::Stopped,
        },
    }
}

/// Whether the periodic display tick should recompute the shown time in a
/// given state: yes while running, and in the cleared state so the zeroed
/// display appears; no while paused, where the display freezes.
pub fn should_refresh(state: State) -> (r: bool)
    ensures
        r <==> (state is Running || state is Reset),
{
    match state {
        State::Running => true,
        State::Reset => true,
        State::Stopped => false,
    }
}

/// The total of a sequence of lap split durations, in milliseconds.
pub open spec fn laps_sum(laps: Seq<Lap>) -> int
    decreases laps.len(),
{
    if laps.len() == 0 {
        0
    } else {
        laps[0].duration_ms + laps_sum(laps.drop_first())
    }
}

/// Lap durations are non-negative, so their total is too.
pub proof fn lemma_laps_sum_nonneg(laps: Seq<Lap>)
    ensures
        laps_sum(laps) >= 0,
    decreases laps.len(),
{
    if laps.len() > 0 {
        lemma_laps_sum_nonneg(laps.drop_first());
    }
}

/// Peeling one lap off the front of the remaining suffix.
proof fn lemma_laps_sum_skip(laps: Seq<Lap>, i: int)
    requires
        0 <= i < laps.len(),
    ensures
        laps_sum(laps.skip(i)) == laps[i].duration_ms + laps_sum(laps.skip(i + 1)),
{
    assert(laps.skip(i)[0] == laps[i]);
    assert(laps.skip(i).drop_first() =~= laps.skip(i + 1));
}

/// The owning controller: timer, state, lap ledger (newest lap first) and
/// the lap counter. `last_seen` is the latest clock reading any operation
/// has been given; callers owe monotonically non-decreasing readings, which
/// is what any monotonic clock provides.
pub struct StopwatchController {
    timer: Timer,
    state: State,
    laps: Vec<Lap>,
    current_lap: i32,
    last_seen: Ghost<int>,
}

impl StopwatchController {
    /// The machine's current state.
    pub closed spec fn spec_state(self) -> State {
        self.state
    }

    /// The owned timer.
    pub closed spec fn timer(self) -> Timer {
        self.timer
    }

    /// The lap ledger, newest lap first.
    pub closed spec fn laps_seq(self) -> Seq<Lap> {
        self.laps@
    }

    /// How many laps have been recorded since the last clear.
    pub closed spec fn lap_count(self) -> int {
        self.current_lap as int
    }

    /// The latest clock reading any operation has been given.
    pub closed spec fn last_seen(self) -> int {
        self.last_seen@
    }

    /// The elapsed time reported when the clock reads `now`.
    pub open spec fn elapsed_at(self, now: int) -> int {
        self.timer().elapsed_at(now)
    }

    /// The controller's invariant, established by the constructor and kept
    /// by every action:
    /// - the machine is in `Running` exactly when the timer has an open
    ///   running phase, and that phase began no later than the latest clock
    ///   reading seen;
    /// - elapsed time never exceeds the clock reading itself, so no
    ///   arithmetic on it can overflow a `u64`;
    /// - the lap splits total at most the elapsed time;
    /// - the ledger holds laps newest first, their indices descending from
    ///   the lap counter down to 1;
    /// - the cleared state really is cleared.
    pub open spec fn wf(self) -> bool {
        &&& self.spec_state() is Running <==> self.timer().is_running()
        &&& self.timer().is_running() ==> self.timer().started_at() <= self.last_seen()
        &&& 0 <= self.last_seen() <= u64::MAX
        &&& self.timer().elapsed_at(self.last_seen()) <= self.last_seen()
        &&& laps_sum(self.laps_seq()) <= self.timer().elapsed_at(self.last_seen())
        &&& self.lap_count() == self.laps_seq().len()
        &&& self.laps_seq().len() <= i32::MAX
        &&& forall|i: int|
            0 <= i < self.laps_seq().len() ==> (#[trigger] self.laps_seq()[i]).index as int
                == self.laps_seq().len() - i
        &&& self.spec_state() is Reset ==> self.timer().acc() == 0 && self.laps_seq().len() == 0
    }

    /// A fresh controller: paused at zero, no laps, no clock reading seen.
    pub fn new() -> (c: StopwatchController)
        ensures
            c.wf(),
            c.spec_state() is Stopped,
            c.laps_seq().len() == 0,
            c.lap_count() == 0,
            c.last_seen() == 0,
            forall|now: int| c.elapsed_at(now) == 0,
    {
        StopwatchController {
            timer: Timer::new(),
            state: State::Stopped,
            laps: Vec::new(),
            current_lap: 0,
            last_seen: Ghost(0),
        }
    }

    /// The machine's current state, for the shell to gate the display tick
    /// and the secondary button.
    pub fn current_state(&self) -> (s: State)
        ensures
            s == self.spec_state(),
    {
        self.state
    }

    /// The elapsed time at clock reading `now_ms`. A pure query, safe at any
    /// frequency.
    pub fn elapsed(&self, now_ms: u64) -> (r: u64)
        requires
            self.wf(),
            self.last_seen() <= now_ms as int,
        ensures
            r as int == self.elapsed_at(now_ms as int),
    {
        self.timer.elapsed(now_ms)
    }

    /// A copy of the lap ledger, newest lap first.
    pub fn laps(&self) -> (v: Vec<Lap>)
        ensures
            v@ == self.laps_seq(),
    {
        let mut v: Vec<Lap> = Vec::new();
        let mut i: usize = 0;
        proof {
            assert(self.laps@.take(0) =~= Seq::<Lap>::empty());
        }
        while i < self.laps.len()
            invariant
                0 <= i <= self.laps@.len(),
                v@ == self.laps@.take(i as int),
            decreases self.laps@.len() - i,
        {
            v.push(self.laps[i]);
            proof {
                assert(self.laps@.take(i as int + 1) =~= self.laps@.take(i as int).push(
                    self.laps@[i as int],
                ));
            }
            i = i + 1;
        }
        proof {
            assert(self.laps@.take(self.laps@.len() as int) =~= self.laps@);
        }
        v
    }

    /// The total of the recorded lap splits, in milliseconds.
    pub fn total_laps_duration(&self) -> (total: u64)
        requires
            laps_sum(self.laps_seq()) <= u64::MAX,
        ensures
            total as int == laps_sum(self.laps_seq()),
    {
        let mut total: u64 = 0;
        let mut i: usize = 0;
        proof {
            assert(self.laps@.skip(0) =~= self.laps@);
        }
        while i < self.laps.len()
            invariant
                0 <= i <= self.laps@.len(),
                laps_sum(self.laps@) <= u64::MAX,
                total as int + laps_sum(self.laps@.skip(i as int)) == laps_sum(self.laps@),
            decreases self.laps@.len() - i,
        {
            proof {
                lemma_laps_sum_skip(self.laps@, i as int);
                lemma_laps_sum_nonneg(self.laps@.skip(i as int + 1));
            }
            total = total + self.laps[i].duration_ms;
            i = i + 1;
        }
        proof {
            assert(self.laps@.skip(self.laps@.len() as int) =~= Seq::<Lap>::empty());
        }
        total
    }

    /// Enter `Running` at clock reading `now_ms`, opening a running phase on
    /// the timer. If the timer is somehow already running, it is left alone:
    /// accumulated time is never reset here.
    fn start(&mut self, now_ms: u64)
        requires
            old(self).wf(),
            old(self).last_seen() <= now_ms as int,
        ensures
            final(self).wf(),
            final(self).spec_state() is Running,
            final(self).last_seen() == now_ms as int,
            final(self).laps_seq() == old(self).laps_seq(),
            final(self).lap_count() == old(self).lap_count(),
            final(self).elapsed_at(now_ms as int) == old(self).elapsed_at(now_ms as int),
    {
        self.timer.start(now_ms);
        self.state = State::Running;
        self.last_seen = Ghost(now_ms as int);
    }

    /// Enter `Stopped` at clock reading `now_ms`, folding the open running
    /// phase into the timer's total. Afterwards the reported elapsed time no
    /// longer advances with the clock.
    fn stop(&mut self, now_ms: u64)
        requires
            old(self).wf(),
            old(self).last_seen() <= now_ms as int,
        ensures
            final(self).wf(),
            final(self).spec_state() is Stopped,
            final(self).last_seen() == now_ms as int,
            final(self).laps_seq() == old(self).laps_seq(),
            final(self).lap_count() == old(self).lap_count(),
            forall|now: int| final(self).elapsed_at(now) == old(self).elapsed_at(now_ms as int),
    {
        self.timer.stop(now_ms);
        self.state = State::Stopped;
        self.last_seen = Ghost(now_ms as int);
    }

    /// Enter `Reset` at clock reading `now_ms`: discard all accumulated
    /// time, whatever the state (even mid-run), empty the ledger and zero
    /// the lap counter.
    fn clear(&mut self, now_ms: u64)
        requires
            old(self).wf(),
            old(self).last_seen() <= now_ms as int,
        ensures
            final(self).wf(),
            final(self).spec_state() is Reset,
            final(self).last_seen() == now_ms as int,
            final(self).laps_seq().len() == 0,
            final(self).lap_count() == 0,
            forall|now: int| final(self).elapsed_at(now) == 0,
    {
        self.timer.reset();
        self.state = State::Reset;
        self.laps.clear();
        self.current_lap = 0;
        self.last_seen = Ghost(now_ms as int);
    }

    /// Record a lap at clock reading `now_ms`: the new split is the elapsed
    /// time minus the splits already recorded, its index the incremented lap
    /// counter, and it goes to the front of the ledger. The timer itself is
    /// untouched.
    fn lap(&mut self, now_ms: u64)
        requires
            old(self).wf(),
            old(self).spec_state() is Running,
            old(self).last_seen() <= now_ms as int,
            old(self).lap_count() < i32::MAX,
        ensures
            final(self).wf(),
            final(self).spec_state() is Running,
            final(self).last_seen() == now_ms as int,
            final(self).timer() == old(self).timer(),
            final(self).lap_count() == old(self).lap_count() + 1,
            final(self).laps_seq() == seq![
                (Lap {
                    duration_ms: (old(self).elapsed_at(now_ms as int) - laps_sum(
                        old(self).laps_seq(),
                    )) as u64,
                    index: (old(self).lap_count() + 1) as i32,
                }),
            ] + old(self).laps_seq(),
            laps_sum(final(self).laps_seq()) == old(self).elapsed_at(now_ms as int),
    {
        proof {
            lemma_laps_sum_nonneg(self.laps@);
        }
        self.current_lap = self.current_lap + 1;
        let time = self.timer.elapsed(now_ms);
        let total = self.total_laps_duration();
        let duration = time - total;
        let lap = Lap { duration_ms: duration, index: self.current_lap };
        self.laps.insert(0, lap);
        self.last_seen = Ghost(now_ms as int);
        proof {
            let sold = old(self).laps_seq();
            let snew = self.laps@;
            assert(snew =~= seq![lap] + sold);
            assert(snew.drop_first() =~= sold);
            assert(laps_sum(snew) == lap.duration_ms + laps_sum(sold));
            assert forall|i: int|
                0 <= i < snew.len() implies (#[trigger] snew[i]).index as int == snew.len()
                - i by {
                if i > 0 {
                    assert(snew[i] == sold[i - 1]);
                }
            }
        }
    }

    /// The primary (start/pause) action: from `Reset` or `Stopped` the
    /// stopwatch starts running; from `Running` it pauses, and the elapsed
    /// time freezes at its value now. The ledger and counter are untouched,
    /// and no elapsed time is gained or lost by the transition itself.
    pub fn on_primary_action(&mut self, now_ms: u64) -> (d: PresentationDirective)
        requires
            old(self).wf(),
            old(self).last_seen() <= now_ms as int,
        ensures
            final(self).wf(),
            final(self).spec_state() == primary_target(old(self).spec_state()),
            final(self).last_seen() == now_ms as int,
            final(self).laps_seq() == old(self).laps_seq(),
            final(self).lap_count() == old(self).lap_count(),
            final(self).elapsed_at(now_ms as int) == old(self).elapsed_at(now_ms as int),
            old(self).spec_state() is Running ==> forall|now: int|
                final(self).elapsed_at(now) == old(self).elapsed_at(now_ms as int),
            directive_matches(d, final(self).spec_state()),
    {
        let from = self.state;
        match from {
            State::Reset | State::Stopped => {
                self.start(now_ms);
                presentation(from, State::Running)
            }
            State::Running => {
                self.stop(now_ms);
                presentation(from, State::Stopped)
            }
        }
    }

    /// The secondary (lap/clear) action: while `Running` it records exactly
    /// one lap and stays in `Running`; in `Stopped` or `Reset` it clears
    /// everything and enters `Reset` (clearing an already cleared stopwatch
    /// changes nothing it reports).
    pub fn on_secondary_action(&mut self, now_ms: u64) -> (d: PresentationDirective)
        requires
            old(self).wf(),
            old(self).last_seen() <= now_ms as int,
            old(self).spec_state() is Running ==> old(self).lap_count() < i32::MAX,
        ensures
            final(self).wf(),
            final(self).spec_state() == secondary_target(old(self).spec_state()),
            final(self).last_seen() == now_ms as int,
            directive_matches(d, final(self).spec_state()),
            old(self).spec_state() is Running ==> {
                &&& final(self).timer() == old(self).timer()
                &&& final(self).lap_count() == old(self).lap_count() + 1
                &&& final(self).laps_seq() == seq![
                    (Lap {
                        duration_ms: (old(self).elapsed_at(now_ms as int) - laps_sum(
                            old(self).laps_seq(),
                        )) as u64,
                        index: (old(self).lap_count() + 1) as i32,
                    }),
                ] + old(self).laps_seq()
                &&& laps_sum(final(self).laps_seq()) == old(self).elapsed_at(now_ms as int)
            },
            !(old(self).spec_state() is Running) ==> {
                &&& final(self).laps_seq().len() == 0
                &&& final(self).lap_count() == 0
                &&& forall|now: int| final(self).elapsed_at(now) == 0
            },
    {
        let from = self.state;
        match from {
            State::Running => {
                self.lap(now_ms);
                presentation(from, State::Running)
            }
            State::Stopped | State::Reset => {
                self.clear(now_ms);
                presentation(from, State::Reset)
            }
        }
    }
}

impl Default for StopwatchController {
    /// Same as `new`: paused at zero with an empty ledger.
    fn default() -> (c: Self)
        ensures
            c.wf(),
            c.spec_state() is Stopped,
            c.laps_seq().len() == 0,
            c.lap_count() == 0,
            c.last_seen() == 0,
            forall|now: int| c.elapsed_at(now) == 0,
    {
        StopwatchController::new()
    }
}

/// The lap ledger's invariant, read off a well-formed controller: the
/// recorded splits total at most the elapsed time at any clock reading from
/// now on, and the ledger runs newest-first, its indices strictly
/// decreasing from front to back.
pub proof fn lemma_lap_ledger_invariant(c: StopwatchController, now: int)
    requires
        c.wf(),
        c.last_seen() <= now,
    ensures
        laps_sum(c.laps_seq()) <= c.elapsed_at(now),
        forall|i: int| 0 <= i < c.laps_seq().len() ==> (#[trigger] c.laps_seq()[i]).duration_ms >= 0,
        forall|i: int|
            0 <= i < c.laps_seq().len() ==> (#[trigger] c.laps_seq()[i]).index as int == c.laps_seq().len() - i,
        forall|i: int, j: int|
            0 <= i < j < c.laps_seq().len() ==> c.laps_seq()[i].index > c.laps_seq()[j].index,
{
    assert forall|i: int, j: int|
        0 <= i < j < c.laps_seq().len() implies c.laps_seq()[i].index > c.laps_seq()[j].index by {
        assert(c.laps_seq()[i].index as int == c.laps_seq().len() - i);
        assert(c.laps_seq()[j].index as int == c.laps_seq().len() - j);
    }
}

} // verus!

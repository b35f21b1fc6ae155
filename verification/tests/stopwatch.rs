//! Tests drive the stopwatch core with synthetic monotonic-clock readings
//! (milliseconds), so every expected value is exact.

use stopwatch_core::controller::AccentColor;
use stopwatch_core::controller::State;
use stopwatch_core::controller::StopwatchController;
use stopwatch_core::controller::StyleClass;
use stopwatch_core::display::time_parts;
use stopwatch_core::timer::Timer;

#[test]
fn new_controller_is_stopped_at_zero() {
    let c = StopwatchController::new();
    assert_eq!(c.current_state(), State::Stopped);
    assert_eq!(c.elapsed(0), 0);
    assert_eq!(c.elapsed(12345), 0);
    assert!(c.laps().is_empty());
    assert_eq!(c.total_laps_duration(), 0);
}

#[test]
fn default_state_is_stopped() {
    assert_eq!(State::default(), State::Stopped);
    let c = StopwatchController::default();
    assert_eq!(c.current_state(), State::Stopped);
    assert_eq!(c.elapsed(0), 0);
}

#[test]
fn pause_resume_accumulates_each_run() {
    // Two 1.0 s runs separated by a pause: the pause loses nothing.
    let mut c = StopwatchController::new();
    c.on_primary_action(0);
    c.on_primary_action(1000);
    assert_eq!(c.elapsed(1000), 1000);
    c.on_primary_action(5000);
    c.on_primary_action(6000);
    assert_eq!(c.current_state(), State::Stopped);
    assert_eq!(c.elapsed(6000), 2000);
}

#[test]
fn timer_start_while_running_keeps_accumulated() {
    let mut t = Timer::new();
    t.start(0);
    t.stop(400);
    t.start(1000);
    // A second start while already running must not reset anything.
    t.start(1500);
    assert_eq!(t.elapsed(2000), 1400);
}

#[test]
fn timer_stop_while_stopped_keeps_elapsed() {
    let mut t = Timer::new();
    t.start(0);
    t.stop(400);
    t.stop(900);
    assert_eq!(t.elapsed(900), 400);
}

#[test]
fn timer_reset_mid_run_reports_zero() {
    let mut t = Timer::new();
    t.start(0);
    t.reset();
    assert_eq!(t.elapsed(500), 0);
    t.stop(700);
    assert_eq!(t.elapsed(700), 0);
}

#[test]
fn clear_wipes_elapsed_and_ledger() {
    let mut c = StopwatchController::new();
    c.on_primary_action(0);
    c.on_secondary_action(300);
    c.on_primary_action(800);
    assert_eq!(c.laps().len(), 1);
    c.on_secondary_action(800);
    assert_eq!(c.current_state(), State::Reset);
    assert_eq!(c.elapsed(800), 0);
    assert_eq!(c.elapsed(99999), 0);
    assert!(c.laps().is_empty());
    // Clearing an already cleared stopwatch changes nothing it reports.
    c.on_secondary_action(900);
    assert_eq!(c.current_state(), State::Reset);
    assert_eq!(c.elapsed(900), 0);
}

#[test]
fn scenario_lap_then_stop() {
    // reset, start, wait 1.5 s, lap, wait 0.5 s, stop.
    let mut c = StopwatchController::new();
    c.on_secondary_action(0);
    assert_eq!(c.current_state(), State::Reset);
    c.on_primary_action(0);
    assert_eq!(c.current_state(), State::Running);
    c.on_secondary_action(1500);
    let laps = c.laps();
    assert_eq!(laps.len(), 1);
    assert_eq!(laps[0].duration_ms, 1500);
    assert_eq!(laps[0].index, 1);
    c.on_primary_action(2000);
    assert_eq!(c.elapsed(2000), 2000);
}

#[test]
fn scenario_two_laps_without_time_advance() {
    let mut c = StopwatchController::new();
    c.on_secondary_action(0);
    c.on_primary_action(0);
    c.on_secondary_action(700);
    c.on_secondary_action(700);
    let laps = c.laps();
    assert_eq!(laps.len(), 2);
    // Newest first: the second lap sits at the front with duration zero.
    assert_eq!(laps[0].index, 2);
    assert_eq!(laps[0].duration_ms, 0);
    assert_eq!(laps[1].index, 1);
    assert_eq!(laps[1].duration_ms, 700);
}

#[test]
fn transition_table_is_followed() {
    let mut c = StopwatchController::new();
    c.on_secondary_action(0);
    assert_eq!(c.current_state(), State::Reset);
    c.on_primary_action(0);
    assert_eq!(c.current_state(), State::Running);
    c.on_secondary_action(400);
    assert_eq!(c.current_state(), State::Running);
    assert_eq!(c.laps().len(), 1);
    c.on_primary_action(1000);
    assert_eq!(c.current_state(), State::Stopped);
    // Once stopped, the reported time no longer advances with the clock.
    assert_eq!(c.elapsed(1000), 1000);
    assert_eq!(c.elapsed(50000), 1000);
    c.on_primary_action(60000);
    assert_eq!(c.current_state(), State::Running);
    assert_eq!(c.elapsed(60500), 1500);
}

#[test]
fn laps_are_newest_first_and_total_matches() {
    let mut c = StopwatchController::new();
    c.on_primary_action(0);
    c.on_secondary_action(500);
    c.on_secondary_action(1200);
    c.on_secondary_action(2000);
    let laps = c.laps();
    assert_eq!(laps.len(), 3);
    assert_eq!(laps[0].index, 3);
    assert_eq!(laps[0].duration_ms, 800);
    assert_eq!(laps[1].index, 2);
    assert_eq!(laps[1].duration_ms, 700);
    assert_eq!(laps[2].index, 1);
    assert_eq!(laps[2].duration_ms, 500);
    assert_eq!(c.total_laps_duration(), 2000);
}

#[test]
fn directive_for_running() {
    let mut c = StopwatchController::new();
    let d = c.on_primary_action(0);
    assert_eq!(d.primary_label, "Pause");
    assert_eq!(d.primary_color, AccentColor::Yellow);
    assert_eq!(d.secondary_label, "Lap");
    assert!(d.secondary_enabled);
    assert_eq!(d.secondary_color, AccentColor::Purple);
    assert_eq!(d.style_class, StyleClass::Running);
}

#[test]
fn directive_for_paused() {
    let mut c = StopwatchController::new();
    c.on_primary_action(0);
    let d = c.on_primary_action(250);
    assert_eq!(d.primary_label, "Resume");
    assert_eq!(d.primary_color, AccentColor::Purple);
    assert_eq!(d.secondary_label, "Clear");
    assert!(d.secondary_enabled);
    assert_eq!(d.secondary_color, AccentColor::Red);
    assert_eq!(d.style_class, StyleClass::Paused);
}

#[test]
fn directive_for_cleared() {
    let mut c = StopwatchController::new();
    let d = c.on_secondary_action(0);
    assert_eq!(d.primary_label, "Start");
    assert_eq!(d.primary_color, AccentColor::Purple);
    assert_eq!(d.secondary_label, "Lap");
    assert!(!d.secondary_enabled);
    assert_eq!(d.secondary_color, AccentColor::Purple);
    assert_eq!(d.style_class, StyleClass::Stopped);
}

#[test]
fn lap_directive_keeps_running_presentation() {
    let mut c = StopwatchController::new();
    c.on_primary_action(0);
    let d = c.on_secondary_action(300);
    assert_eq!(d.primary_label, "Pause");
    assert_eq!(d.style_class, StyleClass::Running);
}

#[test]
fn display_fields_are_running_totals() {
    // 1 h 2 min 3.456 s: the display shows totals, not remainders.
    let t = time_parts(3_723_456);
    assert_eq!(t.hours, 1);
    assert_eq!(t.minutes, 62);
    assert_eq!(t.seconds, 3723);
    assert_eq!(t.tenths, 4);
}

#[test]
fn display_fields_at_zero() {
    let t = time_parts(0);
    assert_eq!(t.hours, 0);
    assert_eq!(t.minutes, 0);
    assert_eq!(t.seconds, 0);
    assert_eq!(t.tenths, 0);
}

#[test]
fn display_fields_sub_second() {
    let t = time_parts(999);
    assert_eq!(t.hours, 0);
    assert_eq!(t.minutes, 0);
    assert_eq!(t.seconds, 0);
    assert_eq!(t.tenths, 9);
}

#[test]
fn display_fields_minute_boundary() {
    let t = time_parts(90_000);
    assert_eq!(t.hours, 0);
    assert_eq!(t.minutes, 1);
    assert_eq!(t.seconds, 90);
    assert_eq!(t.tenths, 0);
}

#[test]
fn refresh_only_while_running_or_cleared() {
    assert!(stopwatch_core::controller::should_refresh(State::Running));
    assert!(stopwatch_core::controller::should_refresh(State::Reset));
    assert!(!stopwatch_core::controller::should_refresh(State::Stopped));
}

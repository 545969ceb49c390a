use blinder::app_state::AppState;
use blinder::compositor::fill_frame;
use blinder::signal::ActivitySignal;
use blinder::trigger_set::TriggerSet;

fn triggers(v: &[&str]) -> TriggerSet {
    let raw: Vec<String> = v.iter().map(|s| s.to_string()).collect();
    TriggerSet::new(&raw)
}

const OPAQUE: [u8; 4] = [0, 0, 0, 255];
const TRANSPARENT: [u8; 4] = [0, 0, 0, 0];

#[test]
fn polarity_boundary_is_exact() {
    let state = AppState::new(triggers(&["w"]), 500, false, 0);
    assert_eq!(state.render_color(0), OPAQUE);
    assert_eq!(state.render_color(500), OPAQUE);
    assert_eq!(state.render_color(501), TRANSPARENT);
    assert_eq!(state.render_color(600), TRANSPARENT);
}

#[test]
fn end_to_end_reveal_and_rearm() {
    // duration 0.5 s; a configured trigger fires at t = 0
    let mut state = AppState::new(triggers(&["w"]), 500, false, 0);
    state.update("w", 0);
    assert_eq!(state.render_color(100), OPAQUE);
    assert_eq!(state.render_color(600), TRANSPARENT);
    state.update("w", 600);
    assert_eq!(state.render_color(700), OPAQUE);
}

#[test]
fn clock_is_monotonic_over_updates() {
    let mut state = AppState::new(triggers(&["w", "a"]), 500, false, 0);
    let mut prev = state.last_input();
    let events = [("w", 10u64), ("x", 20), ("a", 20), ("x", 30), ("w", 31)];
    for (label, now) in events {
        state.update(label, now);
        assert!(state.last_input() >= prev);
        prev = state.last_input();
    }
    assert_eq!(state.last_input(), 31);
}

#[test]
fn unmatched_labels_never_advance_the_clock() {
    let mut state = AppState::new(triggers(&["w"]), 500, false, 0);
    state.update("q", 100);
    assert_eq!(state.last_input(), 0);
    state.update("space", 200);
    assert_eq!(state.last_input(), 0);
    state.update("w", 300);
    assert_eq!(state.last_input(), 300);
}

#[test]
fn matching_is_case_insensitive() {
    let mut state = AppState::new(triggers(&["W", "LeftButton"]), 500, false, 0);
    state.update("w", 50);
    assert_eq!(state.last_input(), 50);
    state.update("LEFTBUTTON", 80);
    assert_eq!(state.last_input(), 80);
}

#[test]
fn coalesced_events_advance_the_clock_once() {
    // N events within one frame interval: one drain, one advance.
    let mut sig = ActivitySignal::new();
    let mut state = AppState::new(triggers(&["w"]), 500, false, 0);
    sig.record();
    sig.record();
    sig.record();
    let fired = sig.take();
    assert!(fired);
    state.update_signal(fired, 100);
    assert_eq!(state.last_input(), 100);
    // the next frame sees no new activity: no second advance
    let fired = sig.take();
    assert!(!fired);
    state.update_signal(fired, 150);
    assert_eq!(state.last_input(), 100);
}

#[test]
fn draw_fills_whole_pixels() {
    let state = AppState::new(triggers(&["w"]), 500, false, 0);
    let mut frame: Vec<u8> = vec![7u8; 16];
    state.draw(&mut frame, 100);
    assert_eq!(frame, vec![0, 0, 0, 255, 0, 0, 0, 255, 0, 0, 0, 255, 0, 0, 0, 255]);
    state.draw(&mut frame, 501);
    assert_eq!(frame, vec![0u8; 16]);
}

#[test]
fn compositor_fills_four_pixels() {
    let mut frame: Vec<u8> = vec![9u8; 16];
    fill_frame(&mut frame, [0, 0, 0, 255]);
    assert_eq!(frame, vec![0, 0, 0, 255, 0, 0, 0, 255, 0, 0, 0, 255, 0, 0, 0, 255]);
}

#[test]
fn compositor_leaves_trailing_bytes() {
    let mut frame: Vec<u8> = vec![9u8; 10];
    fill_frame(&mut frame, [1, 2, 3, 4]);
    assert_eq!(frame, vec![1, 2, 3, 4, 1, 2, 3, 4, 9, 9]);
}

#[test]
fn getters_report_configuration() {
    let state = AppState::new(triggers(&["w"]), 750, true, 42);
    assert_eq!(state.last_input(), 42);
    assert_eq!(state.dark_duration(), 750);
    assert!(state.is_debugging());
}

#[test]
fn trigger_set_collapses_duplicates() {
    let ts = triggers(&["W", "w", " w", "a"]);
    // " w" is stored as its own label: trimming happens in config parsing
    assert!(ts.contains("w"));
    assert!(ts.contains("A"));
    assert!(!ts.contains("s"));
    assert_eq!(ts.labels().iter().filter(|l| l.as_str() == "w").count(), 1);
}

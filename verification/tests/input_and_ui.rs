use launcher::gameinput::{
    guide_rising_edge, succeeded, GamepadEvents, PadTracker, PressCounters, COMBO_MASK, GUIDE,
    XINPUT_A, XINPUT_B, XINPUT_BACK, XINPUT_DPAD_DOWN, XINPUT_DPAD_UP, XINPUT_X,
};
use launcher::launcher::{
    debounce_elapsed, on_combo, ComboAction, KeyPresses, LauncherApp, LibraryEntry, Panel,
    DEBOUNCE_NANOS,
};

fn pad(up: u32, down: u32, left: u32, right: u32, a: u32) -> GamepadEvents {
    GamepadEvents { dpad_up: up, dpad_down: down, dpad_left: left, dpad_right: right, a, x: 0 }
}

fn keys(left: bool, right: bool, up: bool, down: bool, enter: bool) -> KeyPresses {
    KeyPresses { left, right, up, down, enter }
}

#[test]
fn hresult_success() {
    assert!(succeeded(0));
    assert!(succeeded(1));
    assert!(!succeeded(-2147467259));
}

#[test]
fn guide_presses_are_rising_edges() {
    assert!(guide_rising_edge(GUIDE, 0));
    assert!(!guide_rising_edge(GUIDE, GUIDE));
    assert!(!guide_rising_edge(0, GUIDE));
    assert!(guide_rising_edge(GUIDE | 0x10, 0x10));
}

#[test]
fn combo_fires_once_per_press() {
    assert_eq!(COMBO_MASK, XINPUT_BACK | XINPUT_B);
    let mut t = PadTracker::new();
    assert!(!t.step(XINPUT_BACK).combo_fired);
    assert!(t.step(COMBO_MASK).combo_fired);
    let held = t.step(COMBO_MASK | XINPUT_A);
    assert!(!held.combo_fired);
    assert!(held.a);
    assert!(!t.step(COMBO_MASK).combo_fired);
    assert!(!t.step(XINPUT_B).combo_fired);
    assert!(t.step(COMBO_MASK).combo_fired);
    assert_eq!(t.prev_buttons, COMBO_MASK);
    assert!(t.prev_combo_held);
}

#[test]
fn buttons_fire_on_their_rising_edge() {
    let mut t = PadTracker::new();
    let e = t.step(XINPUT_DPAD_UP | XINPUT_X);
    assert!(e.dpad_up && e.x && !e.dpad_down && !e.a && !e.combo_fired);
    let e = t.step(XINPUT_DPAD_UP | XINPUT_DPAD_DOWN);
    assert!(!e.dpad_up && e.dpad_down && !e.x);
    let e = t.step(0);
    assert!(!e.dpad_up && !e.dpad_down && !e.dpad_left && !e.dpad_right && !e.a && !e.x);
}

#[test]
fn counters_are_drained() {
    let mut c = PressCounters::new();
    let mut t = PadTracker::new();
    let e = t.step(COMBO_MASK | XINPUT_DPAD_DOWN);
    c.record(&e);
    c.record_guide();
    c.record_guide();
    let e = t.step(XINPUT_DPAD_UP);
    c.record(&e);
    let e = t.step(XINPUT_DPAD_DOWN);
    c.record(&e);
    assert_eq!(c.drain_guide_presses(), 2);
    assert_eq!(c.drain_guide_presses(), 0);
    assert_eq!(c.drain_combo_presses(), 1);
    let ev = c.drain_gamepad_events();
    assert_eq!((ev.dpad_up, ev.dpad_down, ev.dpad_left, ev.dpad_right, ev.a, ev.x), (1, 2, 0, 0, 0, 0));
    let ev = c.drain_gamepad_events();
    assert_eq!(ev, GamepadEvents::default());
    let mut full = PressCounters::new();
    full.guide = u32::MAX;
    full.record_guide();
    assert_eq!(full.guide, 0);
}

#[test]
fn hotkey_decisions() {
    assert_eq!(on_combo(0, false, true), ComboAction::Nothing);
    assert_eq!(on_combo(1, false, false), ComboAction::Show);
    assert_eq!(on_combo(2, true, true), ComboAction::Hide);
    assert_eq!(on_combo(1, true, false), ComboAction::Nothing);
    assert!(debounce_elapsed(None));
    assert!(debounce_elapsed(Some(DEBOUNCE_NANOS)));
    assert!(!debounce_elapsed(Some(DEBOUNCE_NANOS - 1)));
    assert_eq!(DEBOUNCE_NANOS, 500_000_000);
}

#[test]
fn new_launcher_state() {
    let hidden = LauncherApp::new(false);
    assert!(!hidden.visible && !hidden.windowed && !hidden.initialized);
    assert_eq!(hidden.active_panel, Panel::Steam);
    assert_eq!(hidden.library_len(), 0);
    assert!(LauncherApp::new(true).visible);
}

#[test]
fn refresh_clamps_selections() {
    let mut app = LauncherApp::new(true);
    app.refresh(3, 2, 1, 4);
    assert_eq!(app.library_len(), 6);
    app.apply_clicks(None, Some(5), Some(3), None);
    app.refresh(1, 1, 0, 2);
    assert_eq!(app.selected_steam, 1);
    assert_eq!(app.selected_window, 1);
    app.refresh(0, 0, 0, 0);
    assert_eq!(app.selected_steam, 0);
    assert_eq!(app.selected_window, 0);
}

#[test]
fn gamepad_navigation_stays_in_the_lists() {
    let mut app = LauncherApp::new(true);
    app.refresh(2, 1, 0, 2);
    assert_eq!(app.apply_pad(&pad(1, 0, 0, 0, 0)), None);
    assert_eq!(app.selected_steam, 0);
    app.apply_pad(&pad(0, 1, 0, 0, 0));
    app.apply_pad(&pad(0, 1, 0, 0, 0));
    app.apply_pad(&pad(0, 1, 0, 0, 0));
    assert_eq!(app.selected_steam, 2);
    assert!(app.scroll_to_steam);
    assert_eq!(app.apply_pad(&pad(0, 0, 0, 0, 1)), Some(2));
    assert_eq!(app.apply_pad(&pad(0, 1, 1, 0, 1)), None);
    assert_eq!(app.active_panel, Panel::Windows);
    assert_eq!(app.selected_window, 1);
    assert_eq!(app.selected_steam, 2);
    app.apply_pad(&pad(0, 0, 1, 1, 0));
    assert_eq!(app.active_panel, Panel::Steam);
}

#[test]
fn keyboard_navigation_and_enter() {
    let mut app = LauncherApp::new(true);
    assert_eq!(app.apply_keys(&keys(false, false, false, true, true)), None);
    app.refresh(0, 0, 3, 0);
    assert_eq!(app.apply_keys(&keys(false, false, false, true, true)), Some(1));
    assert_eq!(app.apply_keys(&keys(true, false, false, true, true)), None);
    assert_eq!(app.active_panel, Panel::Windows);
    assert_eq!(app.selected_window, 0);
}

#[test]
fn library_indices_name_games_in_store_order() {
    let mut app = LauncherApp::new(true);
    app.refresh(2, 1, 2, 0);
    assert_eq!(app.library_entry(0), Some(LibraryEntry::Steam(0)));
    assert_eq!(app.library_entry(1), Some(LibraryEntry::Steam(1)));
    assert_eq!(app.library_entry(2), Some(LibraryEntry::Epic(0)));
    assert_eq!(app.library_entry(3), Some(LibraryEntry::Gog(0)));
    assert_eq!(app.library_entry(4), Some(LibraryEntry::Gog(1)));
    assert_eq!(app.library_entry(5), None);
}

#[test]
fn hiding_resumes_what_showing_suspended() {
    let mut app = LauncherApp::new(false);
    app.mark_shown(Some(4242));
    assert!(app.visible);
    assert_eq!(app.suspended_pid, Some(4242));
    app.mark_shown(None);
    assert_eq!(app.suspended_pid, Some(4242));
    assert_eq!(app.mark_hidden(), Some(4242));
    assert!(!app.visible);
    assert_eq!(app.mark_hidden(), None);
}

#[test]
fn resuming_a_window_by_click_forgets_it() {
    let mut app = LauncherApp::new(true);
    app.refresh(1, 0, 0, 2);
    app.mark_shown(Some(7));
    app.apply_clicks(Some(Panel::Windows), None, Some(1), Some(8));
    assert_eq!(app.suspended_pid, Some(7));
    assert_eq!(app.active_panel, Panel::Windows);
    assert_eq!(app.selected_window, 1);
    app.apply_clicks(None, None, None, Some(7));
    assert_eq!(app.suspended_pid, None);
}

#[test]
fn frame_input_reads_keys_only_without_a_pad_launch() {
    let mut app = LauncherApp::new(true);
    app.refresh(3, 0, 0, 0);
    assert_eq!(app.frame_input(&pad(0, 1, 0, 0, 1), &keys(false, false, false, true, true)), Some(1));
    assert_eq!(app.selected_steam, 1);
    assert_eq!(app.frame_input(&pad(0, 1, 0, 0, 0), &keys(false, false, false, true, true)), Some(2));
    assert_eq!(app.selected_steam, 2);
    assert_eq!(app.frame_input(&pad(0, 0, 0, 0, 0), &keys(false, false, true, false, false)), None);
    assert_eq!(app.selected_steam, 1);
}

#[test]
fn restoring_the_window_shows_the_launcher() {
    let mut app = LauncherApp::new(false);
    assert!(!app.sync_restored(true, false));
    assert!(!app.sync_restored(false, true));
    assert!(!app.visible);
    assert!(app.sync_restored(false, false));
    assert!(app.visible);
    assert!(!app.sync_restored(false, false));
    assert!(app.mark_initialized());
    assert!(!app.mark_initialized());
}

#[test]
fn clicks_are_applied_as_given() {
    let mut app = LauncherApp::new(true);
    app.refresh(5, 0, 0, 3);
    app.refresh(2, 0, 0, 1);
    app.apply_clicks(Some(Panel::Steam), Some(4), Some(2), None);
    assert_eq!(app.selected_steam, 4);
    assert_eq!(app.selected_window, 2);
    assert_eq!(app.apply_pad(&pad(0, 1, 0, 0, 0)), None);
    assert_eq!(app.selected_steam, 4);
    app.apply_pad(&pad(1, 0, 0, 0, 0));
    assert_eq!(app.selected_steam, 3);
    assert_eq!(app.library_entry(3), None);
    app.refresh(2, 0, 0, 1);
    assert_eq!(app.selected_steam, 1);
    assert_eq!(app.selected_window, 0);
}

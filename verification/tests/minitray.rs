use bigecho::minitray::{MinitrayState, MIN_PUSH_INTERVAL_NS};
use bigecho::settings::PublicSettings;

fn settings_with_overlay(on: bool) -> PublicSettings {
    let mut settings = PublicSettings::default();
    settings.show_minitray_overlay = on;
    settings
}

#[test]
fn show_if_enabled_is_noop_when_setting_is_off() {
    let mut state = MinitrayState::new();
    let settings = settings_with_overlay(false);
    let mut calls = 0;
    if state.show_if_enabled(&settings) {
        calls += 1;
    }
    assert_eq!(calls, 0);
    assert!(!state.is_visible());
}

#[test]
fn show_if_enabled_calls_sink_when_setting_is_on() {
    let mut state = MinitrayState::new();
    let settings = settings_with_overlay(true);
    let mut calls = 0;
    if state.show_if_enabled(&settings) {
        calls += 1;
    }
    assert_eq!(calls, 1);
    assert!(state.is_visible());
}

#[test]
fn show_if_enabled_is_idempotent() {
    let mut state = MinitrayState::new();
    let settings = settings_with_overlay(true);
    let mut calls = 0;
    for _ in 0..3 {
        if state.show_if_enabled(&settings) {
            calls += 1;
        }
    }
    assert_eq!(calls, 1);
}

#[test]
fn hide_resets_visibility_and_calls_sink_once() {
    let mut state = MinitrayState::new();
    let settings = settings_with_overlay(true);
    assert!(state.show_if_enabled(&settings));
    assert!(state.is_visible());

    let mut hide_calls = 0;
    if state.hide_overlay() {
        hide_calls += 1;
    }
    assert!(!state.is_visible());
    assert_eq!(hide_calls, 1);

    if state.hide_overlay() {
        hide_calls += 1;
    }
    assert_eq!(hide_calls, 1);
}

#[test]
fn update_level_throttles_high_frequency_pushes() {
    let mut state = MinitrayState::new();
    let settings = settings_with_overlay(true);
    state.show_if_enabled(&settings);
    let mut pushes = 0;
    for i in 0..1000u64 {
        if state.update_level(1_000_000_000 + i * 1_000) {
            pushes += 1;
        }
    }
    assert_eq!(pushes, 1);
}

#[test]
fn update_level_is_noop_when_not_visible() {
    let mut state = MinitrayState::new();
    assert!(!state.update_level(5));
    assert_eq!(state.last_push_nanos, None);
}

#[test]
fn update_level_passes_again_after_interval() {
    let mut state = MinitrayState::new();
    state.show_if_enabled(&settings_with_overlay(true));
    assert!(state.update_level(100));
    assert!(!state.update_level(100 + MIN_PUSH_INTERVAL_NS - 1));
    assert!(state.update_level(100 + MIN_PUSH_INTERVAL_NS));
    assert_eq!(state.last_push_nanos, Some(100 + MIN_PUSH_INTERVAL_NS));
}

#[test]
fn show_again_after_hide() {
    let mut state = MinitrayState::new();
    let settings = settings_with_overlay(true);
    assert!(state.show_if_enabled(&settings));
    assert!(state.hide_overlay());
    assert!(state.show_if_enabled(&settings));
}

use bigecho::resample::resample_i16;
use bigecho::audio::{
    apply_recording_input_mute, ensure_macos_system_audio_permission, map_permission_code,
    resolve_system_source_name, score_system_source_name, select_best_system_source,
    MacosSystemAudioPermissionKind, MacosSystemAudioPermissionStatus, RecordingMuteState,
    SharedRecordingControl,
};

#[test]
fn detects_best_system_source_by_name() {
    let items = vec![
        "Built-in Microphone".to_string(),
        "BlackHole 2ch".to_string(),
        "Stereo Mix (Realtek)".to_string(),
    ];
    let best = select_best_system_source(&items, "linux");
    assert!(best.is_some());
    let picked = best.unwrap_or_default().to_lowercase();
    assert!(picked.contains("blackhole") || picked.contains("stereo mix"));
}

#[test]
fn prefers_blackhole_on_macos_profile() {
    let blackhole = score_system_source_name("BlackHole 2ch", "macos");
    let stereo_mix = score_system_source_name("Stereo Mix (Realtek)", "macos");
    assert!(blackhole >= stereo_mix);
}

#[test]
fn prefers_stereo_mix_on_windows_profile() {
    let blackhole = score_system_source_name("BlackHole 2ch", "windows");
    let stereo_mix = score_system_source_name("Stereo Mix (Realtek)", "windows");
    assert!(stereo_mix >= blackhole);
}

#[test]
fn prefers_explicit_system_source_when_present() {
    let items = vec![
        "Built-in Microphone".to_string(),
        "BlackHole 2ch".to_string(),
        "Stereo Mix (Realtek)".to_string(),
    ];
    let selected = resolve_system_source_name(
        Some("Stereo Mix (Realtek)"),
        Some("Built-in Microphone"),
        &items,
        "macos",
    );
    assert_eq!(selected.as_deref(), Some("Stereo Mix (Realtek)"));
}

#[test]
fn falls_back_to_detected_source_when_preferred_missing() {
    let items = vec![
        "Built-in Microphone".to_string(),
        "BlackHole 2ch".to_string(),
        "MacBook Pro Microphone".to_string(),
    ];
    let selected =
        resolve_system_source_name(Some("Missing Device"), Some("Built-in Microphone"), &items, "macos");
    assert_eq!(selected.as_deref(), Some("BlackHole 2ch"));
}

#[test]
fn does_not_select_microphone_as_system_source() {
    let items = vec![
        "Built-in Microphone".to_string(),
        "External Mic".to_string(),
    ];
    let selected = resolve_system_source_name(
        Some("Built-in Microphone"),
        Some("Built-in Microphone"),
        &items,
        "macos",
    );
    assert!(selected.is_none());
}

#[test]
fn shared_recording_control_tracks_and_resets_channel_mutes() {
    let mut control = SharedRecordingControl::new();
    assert_eq!(control.snapshot(), RecordingMuteState::default());
    control.set_channel("mic", true).expect("mute mic");
    control.set_channel("system", true).expect("mute system");
    assert_eq!(
        control.snapshot(),
        RecordingMuteState {
            mic_muted: true,
            system_muted: true,
        }
    );
    control.reset();
    assert_eq!(control.snapshot(), RecordingMuteState::default());
}

#[test]
fn maps_permission_codes_to_public_status() {
    let status = map_permission_code(0);
    assert!(matches!(status.kind, MacosSystemAudioPermissionKind::NotDetermined));
    assert!(status.can_request);

    let status = map_permission_code(1);
    assert!(matches!(status.kind, MacosSystemAudioPermissionKind::Granted));
    assert!(!status.can_request);

    let status = map_permission_code(2);
    assert!(matches!(status.kind, MacosSystemAudioPermissionKind::Denied));
    assert!(!status.can_request);

    let status = map_permission_code(99);
    assert!(matches!(status.kind, MacosSystemAudioPermissionKind::Unsupported));
    assert!(!status.can_request);
}

#[test]
fn allows_start_attempt_for_non_granted_macos_system_audio_permission_state() {
    let status = MacosSystemAudioPermissionStatus {
        kind: MacosSystemAudioPermissionKind::Denied,
        can_request: false,
    };
    assert!(
        ensure_macos_system_audio_permission(&status).is_ok(),
        "permission status should not short-circuit a native capture start attempt"
    );
}

#[test]
fn accepts_granted_macos_system_audio_permission() {
    let status = MacosSystemAudioPermissionStatus {
        kind: MacosSystemAudioPermissionKind::Granted,
        can_request: false,
    };
    assert!(
        ensure_macos_system_audio_permission(&status).is_ok(),
        "granted permission should pass"
    );
}

#[test]
fn apply_recording_input_mute_rejects_unknown_channel() {
    let mut control = SharedRecordingControl::new();
    let error = apply_recording_input_mute(&mut control, "other", true).unwrap_err();
    assert_eq!(error, "Unsupported recording input channel");
}

#[test]
fn apply_recording_input_mute_reports_new_state() {
    let mut control = SharedRecordingControl::new();
    let state = apply_recording_input_mute(&mut control, "system", true).expect("mute system");
    assert_eq!(state, RecordingMuteState { mic_muted: false, system_muted: true });
    let state = apply_recording_input_mute(&mut control, "system", false).expect("unmute");
    assert_eq!(state, RecordingMuteState::default());
}

#[test]
fn scoring_uses_unicode_lowercase() {
    // "LOOPBACK" lowercases to "loopback": ten points, sixteen more on Linux.
    assert_eq!(score_system_source_name("LOOPBACK", "linux"), 26);
    assert_eq!(score_system_source_name("Default Microphone", "linux"), -5);
}

#[test]
fn no_positive_scoring_device_selects_none() {
    let items = vec!["Built-in Microphone".to_string(), "USB Headset".to_string()];
    assert_eq!(select_best_system_source(&items, "macos"), None);
}

#[test]
fn resample_keeps_non_empty_signal() {
    let src = vec![0_i16, 1200, -1200, 400, -400, 0];
    let dst = resample_i16(&src, 24_000, 48_000);
    assert!(!dst.is_empty());
}

#[test]
fn resample_interpolates_between_samples() {
    let src = vec![0_i16, 1200, -1200, 400, -400, 0];
    assert_eq!(
        resample_i16(&src, 24_000, 48_000),
        vec![0, 600, 1200, 0, -1200, -400, 400, 0, -400, -200, 0, 0]
    );
    assert_eq!(resample_i16(&src, 48_000, 24_000), vec![0, -1200, -400]);
    assert_eq!(resample_i16(&src, 48_000, 48_000), src);
    assert_eq!(resample_i16(&src, 0, 48_000), src);
    assert_eq!(resample_i16(&[], 24_000, 48_000), Vec::<i16>::new());
    assert_eq!(resample_i16(&[0, -1], 2, 4), vec![0, -1, -1, -1]);
    assert_eq!(resample_i16(&[5], 48_000, 1), vec![5]);
}

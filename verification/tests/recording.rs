use bigecho::audio::{RecordingMuteState, SharedRecordingControl};
use bigecho::recording::{
    apply_recording_input_mute_for_state, capture_failure_message, check_mute_target,
    checked_secret_name, configured_device, encoding_failure_message, ensure_no_active_recording,
    finish_stopped_session, join_strings, new_recording_meta, recovery_file_names,
    source_after_start, write_failure_message,
};
use bigecho::session::SessionStatus;
use bigecho::session_commands::{session_relative_dir, summary_name, transcript_name, StartRecordingRequest};

fn request() -> StartRecordingRequest {
    StartRecordingRequest {
        source: " zoom ".to_string(),
        topic: "Weekly".to_string(),
        tags: vec!["zoom".to_string(), "team".to_string()],
        notes: "n".to_string(),
    }
}

#[test]
fn apply_recording_input_mute_rejects_when_no_recording_is_active() {
    let mut control = SharedRecordingControl::new();
    let error = check_mute_target(None, "missing-session").unwrap_err();
    assert_eq!(error, "No active recording session");
    let error = apply_recording_input_mute_for_state(None, "missing-session", Ok(()), &mut control, "mic", true)
        .unwrap_err();
    assert_eq!(error, "No active recording session");
    assert_eq!(control.snapshot(), RecordingMuteState::default());
}

#[test]
fn apply_recording_input_mute_rejects_session_mismatch() {
    let mut control = SharedRecordingControl::new();
    let error = check_mute_target(Some("active-session"), "stale-session").unwrap_err();
    assert_eq!(error, "Recording session mismatch");
    let error = apply_recording_input_mute_for_state(
        Some("active-session"),
        "stale-session",
        Ok(()),
        &mut control,
        "mic",
        true,
    )
    .unwrap_err();
    assert_eq!(error, "Recording session mismatch");
    assert_eq!(control.snapshot(), RecordingMuteState::default());
}

#[test]
fn apply_recording_input_mute_preserves_shared_state_when_capture_update_fails() {
    let mut control = SharedRecordingControl::new();
    assert!(check_mute_target(Some("active-session"), "active-session").is_ok());
    let error = apply_recording_input_mute_for_state(
        Some("active-session"),
        "active-session",
        Err("native system mute failed".to_string()),
        &mut control,
        "system",
        true,
    )
    .unwrap_err();
    assert_eq!(error, "native system mute failed");
    assert_eq!(control.snapshot(), RecordingMuteState::default());
}

#[test]
fn apply_recording_input_mute_for_active_session_updates_flags() {
    let mut control = SharedRecordingControl::new();
    let state = apply_recording_input_mute_for_state(
        Some("active-session"),
        "active-session",
        Ok(()),
        &mut control,
        "system",
        true,
    )
    .expect("muted");
    assert_eq!(state, RecordingMuteState { mic_muted: false, system_muted: true });
    assert_eq!(control.snapshot(), state);
}

#[test]
fn builds_russian_date_layout() {
    let p = session_relative_dir("10.03.2026", "15-06-07");
    assert!(p.ends_with("10.03.2026/meeting_15-06-07"));
    assert!(!p.contains("zoom_team"));
}

#[test]
fn builds_artifact_names_in_ru_date() {
    assert_eq!(transcript_name("10.03.2026"), "transcript_10.03.2026.txt");
    assert_eq!(summary_name("10.03.2026"), "summary_10.03.2026.md");
}

#[test]
fn start_checks() {
    assert_eq!(checked_secret_name("  KEY "), Ok("KEY"));
    assert_eq!(checked_secret_name("  "), Err("Secret name must not be empty".to_string()));
    assert!(ensure_no_active_recording(false).is_ok());
    assert_eq!(ensure_no_active_recording(true), Err("Recording already active".to_string()));
    assert_eq!(source_after_start(&vec!["telegram".to_string()]), "telegram");
    assert_eq!(source_after_start(&vec![]), "zoom");
    assert_eq!(configured_device("  "), None);
    assert_eq!(configured_device("USB Mic"), Some("USB Mic".to_string()));
}

#[test]
fn new_recording_meta_names_files_after_the_date() {
    let meta = new_recording_meta(
        "s1".to_string(),
        request(),
        "2026-03-10T15:06:07+03:00".to_string(),
        "10.03.2026".to_string(),
        "10.03.2026",
        "mp3",
    );
    assert_eq!(meta.session_id, "s1");
    assert_eq!(meta.source, "zoom");
    assert_eq!(meta.tags, vec!["zoom".to_string(), "team".to_string()]);
    assert_eq!(meta.status, SessionStatus::Recording);
    assert_eq!(meta.artifacts.audio_file, "audio.mp3");
    assert_eq!(meta.artifacts.transcript_file, "transcript_10.03.2026.txt");
    assert_eq!(meta.artifacts.summary_file, "summary_10.03.2026.md");
    assert_eq!(meta.artifacts.meta_file, "meta.json");
}

#[test]
fn failure_messages() {
    assert_eq!(recovery_file_names(), ("audio_recovery_mic.raw", "audio_recovery_system.raw"));
    assert_eq!(
        encoding_failure_message("ffmpeg died", &vec!["/s/a.raw".to_string(), "/s/b.raw".to_string()]),
        "Audio encoding failed: ffmpeg died. Raw capture preserved: /s/a.raw, /s/b.raw"
    );
    assert_eq!(write_failure_message("disk full"), "Audio encoding failed: disk full");
    assert_eq!(capture_failure_message("x"), "Audio capture finalization failed: x");
    assert_eq!(join_strings(&vec![], ", "), "");
}

#[test]
fn stopping_records_outcome() {
    let mut meta = new_recording_meta("s1".to_string(), request(), "t0".into(), "d".into(), "d", "opus");
    assert!(finish_stopped_session(&mut meta, "t1".to_string(), None).is_ok());
    assert_eq!(meta.status, SessionStatus::Recorded);
    assert_eq!(meta.ended_at_iso.as_deref(), Some("t1"));

    let mut meta = new_recording_meta("s2".to_string(), request(), "t0".into(), "d".into(), "d", "opus");
    let err = finish_stopped_session(&mut meta, "t2".to_string(), Some("boom".to_string())).unwrap_err();
    assert_eq!(err, "boom");
    assert_eq!(meta.status, SessionStatus::Failed);
    assert_eq!(meta.errors, vec!["boom".to_string()]);
}

use bigecho::catalog::{
    audio_duration_hms, audio_format_from_file_name, brain_upload_is_fresh,
    checked_prompt_upsert, db_path, derive_brain_upload_state, format_hms, next_retry_attempt,
    next_run_epoch, prompt_in_use_error, prompt_not_found_error, retry_delay_seconds,
    upload_was_interrupted, BrainUploadStatus, SessionEvent,
};
use bigecho::session::SessionMeta;

fn event(id: i64, session_id: &str, event_type: &str, detail: &str, at: &str) -> SessionEvent {
    SessionEvent {
        id,
        session_id: session_id.to_string(),
        at_iso: at.to_string(),
        event_type: event_type.to_string(),
        detail: detail.to_string(),
    }
}

const SEC: i128 = 1_000_000_000;

fn nanos_of(secs: i64) -> i128 {
    secs as i128 * SEC
}

#[test]
fn list_brain_upload_states_shows_failed_retry_after_success() {
    let uploaded = vec![
        event(1, "s-uploaded", "brain_upload_failed", "old failure", "2026-05-01T10:00:00Z"),
        event(2, "s-uploaded", "brain_upload_succeeded", "ok", "2026-05-01T10:01:00Z"),
        event(3, "s-uploaded", "brain_upload_failed", "retry failed", "2026-05-01T10:02:00Z"),
    ];
    let state = derive_brain_upload_state(&uploaded);
    assert_eq!(state.status, BrainUploadStatus::Failed);
    assert!(state.server_ingested_once);

    let failed = vec![
        event(4, "s-failed", "brain_upload_started", "started", "2026-05-01T11:00:00Z"),
        event(5, "s-failed", "brain_upload_failed", "latest failure", "2026-05-01T11:01:00Z"),
    ];
    let state = derive_brain_upload_state(&failed);
    assert_eq!(state.status, BrainUploadStatus::Failed);
    assert_eq!(state.last_error.as_deref(), Some("latest failure"));

    let ignored = vec![event(6, "s-ignored", "transcription_succeeded", "not a Brain status", "x")];
    let state = derive_brain_upload_state(&ignored);
    assert_eq!(state.status, BrainUploadStatus::NotUploaded);
    assert!(state.updated_at_iso.is_none());
}

#[test]
fn succeeded_upload_clears_error_and_records_time() {
    let events = vec![
        event(1, "s", "brain_upload_failed", "boom", "2026-05-01T10:00:00Z"),
        event(2, "s", "brain_upload_started", "go", "2026-05-01T10:05:00Z"),
        event(3, "s", "brain_upload_succeeded", "ok", "2026-05-01T10:06:00Z"),
        event(4, "s", "brain_upload_skipped", "skip", "2026-05-01T10:07:00Z"),
    ];
    let state = derive_brain_upload_state(&events);
    assert_eq!(state.status, BrainUploadStatus::Uploaded);
    assert!(state.last_error.is_none());
    assert_eq!(state.updated_at_iso.as_deref(), Some("2026-05-01T10:06:00Z"));
}

#[test]
fn interrupted_upload_reads_as_failed() {
    let events = vec![
        event(1, "s", "brain_upload_started", "go", "2026-05-01T10:05:00Z"),
        event(2, "s", "brain_upload_interrupted", "gone", "2026-05-01T11:05:00Z"),
    ];
    let state = derive_brain_upload_state(&events);
    assert_eq!(state.status, BrainUploadStatus::Failed);
    assert_eq!(state.last_error.as_deref(), Some("gone"));
}

#[test]
fn upload_freshness_window_is_thirty_minutes() {
    // 2026-05-01T10:00:00Z is 1777629600 seconds after the epoch.
    let start = nanos_of(1_777_629_600);
    let at = Some("2026-05-01T10:00:00Z");
    assert!(brain_upload_is_fresh(at, start));
    assert!(brain_upload_is_fresh(at, start + 29 * 60 * SEC));
    assert!(!brain_upload_is_fresh(at, start + 30 * 60 * SEC));
    assert!(!brain_upload_is_fresh(at, start - SEC));
    assert!(!brain_upload_is_fresh(Some("not a time"), start));
    assert!(!brain_upload_is_fresh(None, start));
    // The offset is honoured.
    assert!(brain_upload_is_fresh(Some("2026-05-01T13:00:00+03:00"), start));
}

#[test]
fn stale_running_upload_is_interrupted() {
    let events = vec![event(1, "s", "brain_upload_started", "go", "2026-05-01T10:00:00Z")];
    let state = derive_brain_upload_state(&events);
    let start = nanos_of(1_777_629_600);
    assert!(!upload_was_interrupted(&state, start + 60 * SEC));
    assert!(upload_was_interrupted(&state, start + 31 * 60 * SEC));
    let done = derive_brain_upload_state(&[event(2, "s", "brain_upload_succeeded", "", "2026-05-01T10:00:00Z")]);
    assert!(!upload_was_interrupted(&done, start + 31 * 60 * SEC));
}

#[test]
fn audio_duration_is_formatted_as_hh_mm_ss() {
    let mut meta = SessionMeta::new(
        "s-duration".to_string(),
        "slack".to_string(),
        vec!["slack".to_string()],
        "".to_string(),
        String::new(),
    );
    meta.started_at_iso = "2026-03-11T10:00:00+03:00".to_string();
    meta.ended_at_iso = Some("2026-03-11T11:02:03+03:00".to_string());
    assert_eq!(audio_duration_hms(&meta), "01:02:03");
}

#[test]
fn audio_duration_defaults_to_zero() {
    let mut meta = SessionMeta::new("s".to_string(), "x".to_string(), vec![], "".to_string(), String::new());
    meta.started_at_iso = "2026-03-11T10:00:00+03:00".to_string();
    meta.ended_at_iso = None;
    assert_eq!(audio_duration_hms(&meta), "00:00:00");
    meta.ended_at_iso = Some("garbage".to_string());
    assert_eq!(audio_duration_hms(&meta), "00:00:00");
    meta.ended_at_iso = Some("2026-03-11T09:00:00+03:00".to_string());
    assert_eq!(audio_duration_hms(&meta), "00:00:00");
}

#[test]
fn format_hms_pads_and_clamps() {
    assert_eq!(format_hms(0), "00:00:00");
    assert_eq!(format_hms(3723), "01:02:03");
    assert_eq!(format_hms(-5), "00:00:00");
    assert_eq!(format_hms(360_000), "100:00:00");
}

#[test]
fn audio_format_comes_from_extension() {
    assert_eq!(audio_format_from_file_name("audio.OPUS"), "opus");
    assert_eq!(audio_format_from_file_name("audio"), "unknown");
    assert_eq!(audio_format_from_file_name("audio."), "unknown");
}

#[test]
fn retry_delays_grow_then_cap() {
    assert_eq!(retry_delay_seconds(1), 30);
    assert_eq!(retry_delay_seconds(2), 120);
    assert_eq!(retry_delay_seconds(3), 600);
    assert_eq!(retry_delay_seconds(4), 1800);
    assert_eq!(retry_delay_seconds(9), 1800);
    assert_eq!(next_run_epoch(1000, 2), 1120);
}

#[test]
fn stops_scheduling_after_max_attempts() {
    let max_attempts = 2;
    let r1 = next_retry_attempt(0, max_attempts);
    let r2 = next_retry_attempt(1, max_attempts);
    let r3 = next_retry_attempt(2, max_attempts);
    assert_eq!(r1, Some(1));
    assert_eq!(r2, Some(2));
    assert_eq!(r3, None);
}

#[test]
fn summary_prompt_name_and_prompt_are_required() {
    assert_eq!(
        checked_prompt_upsert("   ", "Prompt").expect_err("empty name"),
        "Prompt name is required"
    );
    assert_eq!(
        checked_prompt_upsert("Name", "   ").expect_err("empty prompt"),
        "Prompt text is required"
    );
    assert_eq!(
        checked_prompt_upsert(" Name ", " Prompt "),
        Ok(("Name".to_string(), "Prompt".to_string()))
    );
}

#[test]
fn prompt_errors_name_the_prompt() {
    assert_eq!(prompt_in_use_error(1, "Actions"), "Summary prompt is used by 1 session(s): Actions");
    assert_eq!(prompt_not_found_error("X"), "Summary prompt not found: X");
}

#[test]
fn catalog_database_location() {
    assert_eq!(db_path("/data/app"), "/data/app/bigecho.sqlite3");
}

#[test]
fn schedules_retry_with_incremental_attempts_and_delays() {
    let max_attempts = 4;
    let a1 = next_retry_attempt(0, max_attempts).expect("attempt #1");
    let a2 = next_retry_attempt(a1, max_attempts).expect("attempt #2");
    assert_eq!(a1, 1);
    assert_eq!(a2, 2);
    let now = 1_777_636_800;
    let due = next_run_epoch(now, a2);
    assert!(due > now);
    assert!(due <= now + 10_000);
    assert_eq!(due, now + 120);
}

#[test]
fn retry_waits_grow_and_stay_within_half_an_hour() {
    let delays: Vec<i64> = (1..=6).map(bigecho::catalog::retry_delay_seconds).collect();
    assert_eq!(delays, vec![30, 120, 600, 1800, 1800, 1800]);
    assert!(delays.windows(2).all(|w| w[0] <= w[1]));
}

use bigecho::archive::{
    archive_error, archive_finished_detail, archive_order, archive_sort_key,
    archive_started_detail, derive_brain_upload_status, fresh_uploading, is_archive_candidate,
    new_archive_summary, progress_from_summary, record_archive_outcome, relative_audio_file,
    SessionUploadStatus, MAX_ARCHIVE_ERRORS,
};
use bigecho::brain::BrainUploadResponse;
use bigecho::catalog::SessionEvent;
use bigecho::session::SessionMeta;

fn event(event_type: &str, at: &str) -> SessionEvent {
    SessionEvent {
        id: 1,
        session_id: "s".to_string(),
        at_iso: at.to_string(),
        event_type: event_type.to_string(),
        detail: String::new(),
    }
}

fn reply(duplicate: Option<bool>) -> BrainUploadResponse {
    BrainUploadResponse {
        ok: true,
        job_id: None,
        status: None,
        principal_id: None,
        workspace_id: None,
        workspace_slug: None,
        inbox_path: None,
        meta_path: None,
        duplicate,
        error: None,
    }
}

const NOON: i128 = 1_777_636_800 * 1_000_000_000; // 2026-05-01T12:00:00Z

#[test]
fn last_upload_event_decides_status() {
    assert!(matches!(derive_brain_upload_status(&[]), SessionUploadStatus::NotUploaded));
    let events = vec![
        event("brain_upload_started", "2026-05-01T10:00:00Z"),
        event("brain_upload_succeeded", "2026-05-01T10:01:00Z"),
        event("pipeline_done", "2026-05-01T10:02:00Z"),
    ];
    assert!(matches!(derive_brain_upload_status(&events), SessionUploadStatus::Uploaded));
    let events = vec![
        event("brain_upload_succeeded", "2026-05-01T10:01:00Z"),
        event("brain_upload_started", "2026-05-01T11:45:00Z"),
    ];
    match derive_brain_upload_status(&events) {
        SessionUploadStatus::Uploading { at_iso } => assert_eq!(at_iso, "2026-05-01T11:45:00Z"),
        _ => panic!("expected uploading"),
    }
}

#[test]
fn archive_upload_skips_fresh_uploading_session() {
    let fresh = SessionUploadStatus::Uploading { at_iso: "2026-05-01T11:45:00Z".to_string() };
    assert!(fresh_uploading(&fresh, NOON));
    assert!(!is_archive_candidate(&fresh, NOON));
}

#[test]
fn archive_upload_includes_stale_uploading_session() {
    let stale = SessionUploadStatus::Uploading { at_iso: "2026-05-01T11:00:00Z".to_string() };
    assert!(!fresh_uploading(&stale, NOON));
    assert!(is_archive_candidate(&stale, NOON));
    let unreadable = SessionUploadStatus::Uploading { at_iso: "yesterday".to_string() };
    assert!(is_archive_candidate(&unreadable, NOON));
}

#[test]
fn archive_upload_skips_uploaded_sessions() {
    assert!(!is_archive_candidate(&SessionUploadStatus::Uploaded, NOON));
    assert!(is_archive_candidate(&SessionUploadStatus::Failed, NOON));
    assert!(is_archive_candidate(&SessionUploadStatus::NotUploaded, NOON));
}

#[test]
fn archive_upload_includes_failed_and_not_uploaded_sessions_oldest_first() {
    let keys = vec![
        "2026-05-03T10:00:00Z".to_string(),
        "2026-05-01T10:00:00Z".to_string(),
        "2026-05-02T10:00:00Z".to_string(),
        "2026-05-01T10:00:00Z".to_string(),
    ];
    assert_eq!(archive_order(&keys), vec![1, 3, 2, 0]);
}

#[test]
fn sort_key_falls_back_to_creation_time() {
    let mut meta = SessionMeta::new("s".into(), "zoom".into(), vec![], "t".into(), String::new());
    meta.started_at_iso = "  ".to_string();
    meta.created_at_iso = "2026-01-01T00:00:00Z".to_string();
    assert_eq!(archive_sort_key(&meta), "2026-01-01T00:00:00Z");
    meta.started_at_iso = "2026-02-01T00:00:00Z".to_string();
    assert_eq!(archive_sort_key(&meta), "2026-02-01T00:00:00Z");
}

#[test]
fn archive_upload_counts_duplicate_response_as_skipped() {
    let mut s = new_archive_summary(3);
    record_archive_outcome(&mut s, "s1", Ok(reply(Some(true))), "tok");
    record_archive_outcome(&mut s, "s2", Ok(reply(None)), "tok");
    assert_eq!((s.uploaded, s.skipped, s.failed), (1, 1, 0));
    assert_eq!(s.errors, vec!["s1: already_uploaded".to_string()]);
}

#[test]
fn archive_upload_continues_after_one_upload_failure() {
    let mut s = new_archive_summary(2);
    record_archive_outcome(&mut s, "s1", Err("network error: tok leaked".to_string()), "tok");
    record_archive_outcome(&mut s, "s2", Ok(reply(Some(false))), "tok");
    assert_eq!((s.uploaded, s.skipped, s.failed), (1, 0, 1));
    assert_eq!(s.errors, vec!["network error: [redacted] leaked".to_string()]);
}

#[test]
fn archive_upload_caps_errors() {
    let mut s = new_archive_summary(25);
    for i in 0..25 {
        record_archive_outcome(&mut s, &format!("s{i}"), Err(format!("e{i}")), "tok");
    }
    assert_eq!(s.failed, 25);
    assert_eq!(s.errors.len(), MAX_ARCHIVE_ERRORS);
    let mut errors = vec![];
    for i in 0..21 {
        archive_error(&mut errors, format!("x{i}"));
    }
    assert_eq!(errors.len(), 20);
}

#[test]
fn archive_upload_progress_includes_counters() {
    let mut s = new_archive_summary(2);
    record_archive_outcome(&mut s, "s1", Ok(reply(None)), "tok");
    let p = progress_from_summary(2, 1, &s, Some("s2".to_string()), Some("Weekly".to_string()));
    assert_eq!((p.total, p.processed, p.uploaded, p.skipped, p.failed), (2, 1, 1, 0, 0));
    assert_eq!(p.current_session_id.as_deref(), Some("s2"));
    assert_eq!(p.current_title.as_deref(), Some("Weekly"));
    assert_eq!(archive_started_detail(2), "Uploading 2 archived Brain sessions");
    assert_eq!(archive_finished_detail(&s), "uploaded=1, skipped=0, failed=0");
}

#[test]
fn archive_upload_skips_empty_audio_file_name() {
    assert_eq!(relative_audio_file("   "), None);
}

#[test]
fn archive_upload_skips_absolute_audio_path() {
    assert_eq!(relative_audio_file("/etc/passwd"), None);
    assert_eq!(relative_audio_file("../audio.opus"), None);
    assert_eq!(relative_audio_file("a/../../audio.opus"), None);
    assert_eq!(relative_audio_file("./audio.opus"), None);
    assert_eq!(relative_audio_file(" audio.opus "), Some("audio.opus".to_string()));
    assert_eq!(relative_audio_file("raw/audio.opus"), Some("raw/audio.opus".to_string()));
}

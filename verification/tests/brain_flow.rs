use bigecho::brain::{BrainUploadError, BrainUploadResponse};
use bigecho::brain_flow::{
    archive_step, upload_step, ArchiveAction, ArchiveEvent, ArchiveStage, UploadAction, UploadEvent, UploadStage,
};

fn request(respect_enabled: bool, enabled: bool, url: &str, token: Option<&str>) -> UploadEvent {
    UploadEvent::Requested {
        respect_enabled,
        enabled,
        raw_url: url.to_string(),
        stored_token: token.map(str::to_string),
    }
}

fn accepted() -> BrainUploadResponse {
    BrainUploadResponse {
        ok: true,
        job_id: Some(7),
        status: Some("queued".to_string()),
        principal_id: None,
        workspace_id: None,
        workspace_slug: None,
        inbox_path: None,
        meta_path: None,
        duplicate: None,
        error: None,
    }
}

fn recorded(action: &UploadAction) -> (String, String) {
    match action {
        UploadAction::Record { kind, detail } => (kind.clone(), detail.clone()),
        _ => panic!("expected an event to record"),
    }
}

#[test]
fn disabled_sync_skips_without_events() {
    let step = upload_step(UploadStage::Planning, request(true, false, "https://brain.example/upload", Some("t")));
    assert!(matches!(step.stage, UploadStage::Finished));
    match step.action {
        UploadAction::Finish(Ok(reply)) => {
            assert!(reply.ok);
            assert_eq!(reply.status.as_deref(), Some("skipped"));
        }
        _ => panic!("expected the skipped reply"),
    }
}

#[test]
fn missing_token_is_recorded_as_failure() {
    let step = upload_step(UploadStage::Planning, request(false, false, " https://brain.example/upload ", Some("  ")));
    assert_eq!(
        recorded(&step.action),
        ("brain_upload_failed".to_string(), "Brain sync token is not configured".to_string())
    );
    let done = upload_step(step.stage, UploadEvent::Recorded(Err("db is locked".to_string())));
    assert!(matches!(done.stage, UploadStage::Finished));
    assert!(matches!(done.action, UploadAction::Finish(Err(m)) if m == "Brain sync token is not configured"));
}

#[test]
fn bad_url_is_recorded_as_failure() {
    let step = upload_step(UploadStage::Planning, request(false, true, "ftp://brain.example", Some("tok")));
    assert_eq!(recorded(&step.action), ("brain_upload_failed".to_string(), "Invalid Brain sync URL".to_string()));
}

#[test]
fn accepted_upload_records_start_then_success() {
    let step = upload_step(UploadStage::Planning, request(true, true, " https://brain.example/upload ", Some(" tok-123 ")));
    assert_eq!(
        recorded(&step.action),
        ("brain_upload_started".to_string(), "Uploading audio to Brain".to_string())
    );
    let step = upload_step(step.stage, UploadEvent::Recorded(Ok(())));
    match &step.action {
        UploadAction::Send { url, token } => {
            assert_eq!(url, "https://brain.example/upload");
            assert_eq!(token, "tok-123");
        }
        _ => panic!("expected the upload to be sent"),
    }
    let step = upload_step(step.stage, UploadEvent::Sent(Ok(accepted())));
    assert_eq!(
        recorded(&step.action),
        ("brain_upload_succeeded".to_string(), "Brain upload accepted".to_string())
    );
    let done = upload_step(step.stage, UploadEvent::Recorded(Ok(())));
    assert!(matches!(done.action, UploadAction::Finish(Ok(r)) if r.job_id == Some(7)));
}

#[test]
fn failed_upload_records_error_without_token() {
    let token = "raw-auth-AAAAAAAAAAAA";
    let step = upload_step(UploadStage::Sending { token: token.to_string() }, UploadEvent::Sent(Err(
        BrainUploadError::Network(format!("connection reset while sending {token}")),
    )));
    let (kind, detail) = recorded(&step.action);
    assert_eq!(kind, "brain_upload_failed");
    assert_eq!(detail, "network error: connection reset while sending [redacted]");
    let done = upload_step(step.stage, UploadEvent::Recorded(Ok(())));
    assert!(matches!(done.action, UploadAction::Finish(Err(m)) if m == detail));
}

#[test]
fn failed_start_event_ends_the_upload() {
    let stage = UploadStage::RecordingStart { url: "https://b".to_string(), token: "t".to_string() };
    let done = upload_step(stage, UploadEvent::Recorded(Err("disk full".to_string())));
    assert!(matches!(done.action, UploadAction::Finish(Err(m)) if m == "disk full"));
}

#[test]
fn unrelated_report_changes_nothing() {
    let step = upload_step(UploadStage::Sending { token: "t".to_string() }, UploadEvent::Recorded(Ok(())));
    assert!(matches!(step.action, UploadAction::Wait));
    assert!(matches!(step.stage, UploadStage::Sending { token } if token == "t"));
}

fn archive_record(action: &ArchiveAction) -> (String, String) {
    match action {
        ArchiveAction::Record { kind, detail } => (kind.clone(), detail.clone()),
        _ => panic!("expected a run event to record"),
    }
}

fn shown(action: &ArchiveAction) -> (usize, usize, usize, usize, Option<String>) {
    match action {
        ArchiveAction::Show(p) => (p.processed, p.uploaded, p.skipped, p.failed, p.current_session_id.clone()),
        _ => panic!("expected a tally to show"),
    }
}

#[test]
fn archive_run_counts_each_session_and_records_start_and_end() {
    let step = archive_step(ArchiveStage::Planning, ArchiveEvent::Requested {
        raw_url: "https://brain.example/upload".to_string(),
        stored_token: Some(" tok-123456789 ".to_string()),
    });
    assert!(matches!(step.action, ArchiveAction::List));
    let step = archive_step(step.stage, ArchiveEvent::Listed(Ok(2)));
    assert_eq!(
        archive_record(&step.action),
        ("brain_archive_upload_started".to_string(), "Uploading 2 archived Brain sessions".to_string())
    );
    let step = archive_step(step.stage, ArchiveEvent::Recorded(Err("busy".to_string())));
    assert_eq!(shown(&step.action), (0, 0, 0, 0, None));
    let step = archive_step(step.stage, ArchiveEvent::Shown(Ok(())));
    assert!(matches!(step.action, ArchiveAction::Upload(0)));
    let mut dup = accepted();
    dup.duplicate = Some(true);
    let step = archive_step(step.stage, ArchiveEvent::Uploaded {
        session_id: "s1".to_string(),
        title: "Weekly".to_string(),
        outcome: Ok(dup),
    });
    assert_eq!(shown(&step.action), (1, 0, 1, 0, Some("s1".to_string())));
    let step = archive_step(step.stage, ArchiveEvent::Shown(Ok(())));
    assert!(matches!(step.action, ArchiveAction::Upload(1)));
    let step = archive_step(step.stage, ArchiveEvent::Uploaded {
        session_id: "s2".to_string(),
        title: "s2".to_string(),
        outcome: Err("rejected tok-123456789".to_string()),
    });
    assert_eq!(shown(&step.action), (2, 0, 1, 1, Some("s2".to_string())));
    let step = archive_step(step.stage, ArchiveEvent::Shown(Ok(())));
    assert_eq!(
        archive_record(&step.action),
        ("brain_archive_upload_finished".to_string(), "uploaded=0, skipped=1, failed=1".to_string())
    );
    let done = archive_step(step.stage, ArchiveEvent::Recorded(Ok(())));
    match done.action {
        ArchiveAction::Finish(Ok(summary)) => {
            assert_eq!(summary.total, 2);
            assert_eq!(summary.errors, vec!["s1: already_uploaded".to_string(), "rejected [redacted]".to_string()]);
        }
        _ => panic!("expected the tally"),
    }
}

#[test]
fn archive_run_without_token_fails_before_listing() {
    let step = archive_step(ArchiveStage::Planning, ArchiveEvent::Requested {
        raw_url: "https://brain.example/upload".to_string(),
        stored_token: None,
    });
    assert!(matches!(step.stage, ArchiveStage::Finished));
    assert!(matches!(step.action, ArchiveAction::Finish(Err(m)) if m == "Brain sync token is not configured"));
}

#[test]
fn empty_archive_goes_straight_to_the_end() {
    let step = archive_step(ArchiveStage::Listing { token: "t".to_string() }, ArchiveEvent::Listed(Ok(0)));
    let step = archive_step(step.stage, ArchiveEvent::Recorded(Ok(())));
    let step = archive_step(step.stage, ArchiveEvent::Shown(Ok(())));
    assert_eq!(
        archive_record(&step.action),
        ("brain_archive_upload_finished".to_string(), "uploaded=0, skipped=0, failed=0".to_string())
    );
}

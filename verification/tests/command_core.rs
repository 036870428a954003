use bigecho::command_core::{
    ensure_stop_session_matches, root_recordings_dir, should_auto_run_pipeline_after_stop,
    should_schedule_retry, validate_start_request, PipelineInvocation,
};
use bigecho::session::{
    mark_pipeline_audio_missing, mark_pipeline_done, mark_pipeline_summary_failed,
    mark_pipeline_transcribed, mark_pipeline_transcription_failed, SessionMeta, SessionStatus,
};
use bigecho::settings::PublicSettings;

fn sample_meta() -> SessionMeta {
    SessionMeta::new(
        "s1".to_string(),
        "slack".to_string(),
        vec!["slack".to_string()],
        "Topic".to_string(),
        String::new(),
    )
}

#[test]
fn start_validation_allows_empty_topic() {
    let participants = vec!["Alice".to_string()];
    let result = validate_start_request("", &participants);
    assert_eq!(result, Ok(()));
}

#[test]
fn start_validation_allows_empty_participants() {
    let participants: Vec<String> = Vec::new();
    let result = validate_start_request("Planning", &participants);
    assert_eq!(result, Ok(()));
}

#[test]
fn start_validation_rejects_too_long_topic() {
    let topic = "x".repeat(201);
    let result = validate_start_request(&topic, &[]);
    assert_eq!(result, Err("Topic is too long (max 200 chars)".to_string()));
}

#[test]
fn start_validation_rejects_too_many_participants() {
    let participants: Vec<String> = (0..33).map(|i| format!("P{i}")).collect();
    let result = validate_start_request("Planning", &participants);
    assert_eq!(result, Err("Too many participants (max 32)".to_string()));
}

#[test]
fn start_validation_counts_characters_not_bytes() {
    let topic = "ж".repeat(200);
    assert_eq!(validate_start_request(&topic, &[]), Ok(()));
}

#[test]
fn stop_validation_rejects_session_mismatch() {
    let result = ensure_stop_session_matches("session-1", Some("session-2"));
    assert_eq!(result, Err("Session id mismatch".to_string()));
}

#[test]
fn stop_validation_accepts_matching_or_unnamed_session() {
    assert_eq!(ensure_stop_session_matches("session-1", Some("session-1")), Ok(()));
    assert_eq!(ensure_stop_session_matches("session-1", None), Ok(()));
}

#[test]
fn worker_retry_does_not_schedule_followup_retry() {
    assert!(!should_schedule_retry(PipelineInvocation::WorkerRetry));
}

#[test]
fn run_and_retry_schedule_followup_retry() {
    assert!(should_schedule_retry(PipelineInvocation::Run));
    assert!(should_schedule_retry(PipelineInvocation::Retry));
}

#[test]
fn audio_missing_marks_failed_and_records_error() {
    let mut meta = sample_meta();
    let err = mark_pipeline_audio_missing(&mut meta);
    assert_eq!(err, "Audio file is missing");
    assert_eq!(meta.status, SessionStatus::Failed);
    assert!(meta.errors.iter().any(|e| e == "Audio file is missing"));
}

#[test]
fn transcription_failure_adds_detailed_error() {
    let mut meta = sample_meta();
    let detail = mark_pipeline_transcription_failed(&mut meta, "timeout");
    assert_eq!(detail, "Transcription error: timeout");
    assert_eq!(meta.status, SessionStatus::Failed);
    assert!(meta.errors.iter().any(|e| e == "Transcription error: timeout"));
}

#[test]
fn summary_failure_adds_detailed_error() {
    let mut meta = sample_meta();
    let detail = mark_pipeline_summary_failed(&mut meta, "upstream 500");
    assert_eq!(detail, "Summary error: upstream 500");
    assert_eq!(meta.status, SessionStatus::Failed);
    assert!(meta.errors.iter().any(|e| e == "Summary error: upstream 500"));
}

#[test]
fn successful_steps_advance_status() {
    let mut meta = sample_meta();
    mark_pipeline_transcribed(&mut meta);
    assert_eq!(meta.status, SessionStatus::Transcribed);
    mark_pipeline_done(&mut meta);
    assert_eq!(meta.status, SessionStatus::Done);
    assert!(meta.errors.is_empty());
}

#[test]
fn auto_pipeline_after_stop_requires_toggle_and_urls() {
    let disabled = PublicSettings::default();
    assert!(!should_auto_run_pipeline_after_stop(&disabled));

    let no_urls = PublicSettings {
        auto_run_pipeline_on_stop: true,
        transcription_url: String::new(),
        summary_url: String::new(),
        ..PublicSettings::default()
    };
    assert!(!should_auto_run_pipeline_after_stop(&no_urls));

    let ready = PublicSettings {
        transcription_url: "https://example.com/transcribe".to_string(),
        summary_url: "https://example.com/summary".to_string(),
        summary_prompt: "Есть стенограмма встречи. Подготовь краткое саммари.".to_string(),
        auto_run_pipeline_on_stop: true,
        ..PublicSettings::default()
    };
    assert!(should_auto_run_pipeline_after_stop(&ready));
}

#[test]
fn salute_speech_needs_no_transcription_url_for_auto_run() {
    let salute = PublicSettings {
        transcription_provider: "salute_speech".to_string(),
        summary_url: "https://example.com/summary".to_string(),
        auto_run_pipeline_on_stop: true,
        ..PublicSettings::default()
    };
    assert!(should_auto_run_pipeline_after_stop(&salute));
}

#[test]
fn relative_recording_root_is_under_app_data() {
    let settings = PublicSettings::default();
    assert_eq!(root_recordings_dir("/data/app", &settings), "/data/app/./recordings");
    let absolute = PublicSettings { recording_root: "/rec".to_string(), ..PublicSettings::default() };
    assert_eq!(root_recordings_dir("/data/app", &absolute), "/rec");
}

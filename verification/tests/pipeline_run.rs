use bigecho::command_core::PipelineInvocation;
use bigecho::pipeline::PipelineMode;
use bigecho::pipeline_run::{pipeline_step, PipelineEffect, PipelineEvent, PipelineNext, PipelineRun};
use bigecho::session::{SessionMeta, SessionStatus};

fn meta() -> SessionMeta {
    SessionMeta::new_at(
        "s1".to_string(),
        "zoom".to_string(),
        vec!["zoom".to_string()],
        "Weekly".to_string(),
        String::new(),
        "2026-03-10T15:06:07+03:00".to_string(),
        "10.03.2026".to_string(),
    )
}

fn run(mode: PipelineMode, invocation: PipelineInvocation) -> PipelineRun {
    PipelineRun {
        mode,
        invocation,
        provider: "nexara".to_string(),
        secret: String::new(),
        lookup_error: Some("no entry".to_string()),
    }
}

fn log(event_type: &str, detail: &str) -> PipelineEffect {
    PipelineEffect::LogEvent { event_type: event_type.to_string(), detail: detail.to_string() }
}

#[test]
fn missing_audio_fails_the_run_and_schedules_a_retry() {
    let mut m = meta();
    let step = pipeline_step(&run(PipelineMode::Full, PipelineInvocation::Run), &mut m, PipelineEvent::AudioChecked { exists: false });
    assert_eq!(m.status, SessionStatus::Failed);
    assert_eq!(m.errors, vec!["Audio file is missing".to_string()]);
    assert_eq!(
        step.effects,
        vec![
            PipelineEffect::SaveRecord,
            log("pipeline_failed", "Audio file is missing"),
            PipelineEffect::ScheduleRetry("Audio file is missing".to_string()),
        ]
    );
    assert_eq!(step.next, PipelineNext::Return(Err("Audio file is missing".to_string())));
}

#[test]
fn manual_runs_do_not_schedule_retries() {
    let mut m = meta();
    let step = pipeline_step(
        &run(PipelineMode::SummaryOnly, PipelineInvocation::Manual),
        &mut m,
        PipelineEvent::Summarized(Err("HTTP 500".to_string())),
    );
    assert_eq!(m.errors, vec!["Summary error: HTTP 500".to_string()]);
    assert_eq!(step.effects, vec![PipelineEffect::SaveRecord, log("pipeline_failed", "Summary error: HTTP 500")]);
    assert_eq!(step.next, PipelineNext::Return(Err("HTTP 500".to_string())));
}

#[test]
fn transcription_failure_explains_the_missing_token() {
    let mut m = meta();
    let step = pipeline_step(
        &run(PipelineMode::Full, PipelineInvocation::WorkerRetry),
        &mut m,
        PipelineEvent::Transcribed(Err("No token specified".to_string())),
    );
    let explained = "No token specified. keyring lookup error for NEXARA_API_KEY: no entry";
    assert_eq!(step.next, PipelineNext::Return(Err(explained.to_string())));
    assert_eq!(m.errors, vec![format!("Transcription error: {explained}")]);
    assert_eq!(step.effects.len(), 2);
}

#[test]
fn a_full_run_goes_from_audio_to_summary() {
    let r = run(PipelineMode::Full, PipelineInvocation::Run);
    let mut m = meta();
    let step = pipeline_step(&r, &mut m, PipelineEvent::AudioChecked { exists: true });
    assert!(step.effects.is_empty());
    assert_eq!(step.next, PipelineNext::Transcribe);

    let step = pipeline_step(&r, &mut m, PipelineEvent::Transcribed(Ok("hello".to_string())));
    assert_eq!(m.status, SessionStatus::Transcribed);
    assert_eq!(
        step.effects,
        vec![
            PipelineEffect::WriteTranscript("hello".to_string()),
            PipelineEffect::SaveRecord,
            log("transcribed", "Transcript created"),
        ]
    );
    assert_eq!(step.next, PipelineNext::Summarize("hello".to_string()));

    let step = pipeline_step(&r, &mut m, PipelineEvent::Summarized(Ok("summary".to_string())));
    assert_eq!(m.status, SessionStatus::Done);
    assert_eq!(
        step.effects,
        vec![
            PipelineEffect::WriteSummary("summary".to_string()),
            PipelineEffect::SaveRecord,
            log("pipeline_done", "Summary created"),
            PipelineEffect::ClearRetry,
        ]
    );
    assert_eq!(step.next, PipelineNext::Return(Ok("done".to_string())));
    assert!(m.errors.is_empty());
}

#[test]
fn transcription_only_runs_stop_after_the_transcript() {
    let mut m = meta();
    let step = pipeline_step(
        &run(PipelineMode::TranscriptionOnly, PipelineInvocation::Manual),
        &mut m,
        PipelineEvent::Transcribed(Ok("text".to_string())),
    );
    assert_eq!(step.effects.len(), 3);
    assert_eq!(step.next, PipelineNext::Return(Ok("transcribed".to_string())));
}

#[test]
fn summary_only_runs_read_the_stored_transcript() {
    let r = run(PipelineMode::SummaryOnly, PipelineInvocation::Manual);
    let mut m = meta();
    assert_eq!(pipeline_step(&r, &mut m, PipelineEvent::AudioChecked { exists: true }).next, PipelineNext::ReadStoredTranscript);
    assert_eq!(
        pipeline_step(&r, &mut m, PipelineEvent::StoredTranscriptRead(Some("  text \n".to_string()))).next,
        PipelineNext::Summarize("text".to_string())
    );
    assert_eq!(
        pipeline_step(&r, &mut m, PipelineEvent::StoredTranscriptRead(Some("   ".to_string()))).next,
        PipelineNext::Return(Err("Transcript file is empty".to_string()))
    );
    assert_eq!(
        pipeline_step(&r, &mut m, PipelineEvent::StoredTranscriptRead(None)).next,
        PipelineNext::Return(Err("Transcript file is missing".to_string()))
    );
    assert_eq!(m.status, SessionStatus::Recording);
}

//! Checks shared by the recording commands, and the decision of whether a
//! failed pipeline run schedules a retry.
use crate::paths;
use crate::settings::PublicSettings;
use crate::text::{self, is_blank, str_eq};
use vstd::prelude::*;

verus! {

broadcast use vstd::string::group_string_axioms;

/// Who started a pipeline run.
#[derive(Clone, Copy, Debug, PartialEq, Eq, Structural)]
pub enum PipelineInvocation {
    Run,
    Retry,
    WorkerRetry,
    Manual,
}

pub open spec fn start_request_error(topic: Seq<char>, participants: nat) -> Option<Seq<char>> {
    if topic.len() > 200 {
        Some("Topic is too long (max 200 chars)"@)
    } else if participants > 32 {
        Some("Too many participants (max 32)"@)
    } else {
        None
    }
}

/// A new recording accepts a topic of at most 200 characters and at most 32
/// participants.
pub fn validate_start_request(topic: &str, participants: &[String]) -> (r: Result<(), String>)
    ensures
        match r {
            Ok(()) => start_request_error(topic@, participants@.len()) is None,
            Err(e) => start_request_error(topic@, participants@.len()) == Some(e@),
        },
{
    if topic.unicode_len() > 200 {
        return Err("Topic is too long (max 200 chars)".to_string());
    }
    if participants.len() > 32 {
        return Err("Too many participants (max 32)".to_string());
    }
    Ok(())
}

/// A stop request naming a session must name the active one.
pub fn ensure_stop_session_matches(active_session_id: &str, requested_session_id: Option<&str>) -> (r: Result<(), String>)
    ensures
        match r {
            Ok(()) => requested_session_id matches Some(req) ==> req@ == active_session_id@,
            Err(e) => e@ == "Session id mismatch"@ && (requested_session_id matches Some(req)
                && req@ != active_session_id@),
        },
{
    match requested_session_id {
        Some(requested) => {
            if !str_eq(requested, active_session_id) {
                return Err("Session id mismatch".to_string());
            }
            Ok(())
        },
        None => Ok(()),
    }
}

pub open spec fn schedules_retry(invocation: PipelineInvocation) -> bool {
    !(invocation == PipelineInvocation::WorkerRetry || invocation == PipelineInvocation::Manual)
}

/// Runs started by the user or by an automatic run schedule a retry on
/// failure; retries made by the worker and manual single steps do not.
pub fn should_schedule_retry(invocation: PipelineInvocation) -> (b: bool)
    ensures
        b == schedules_retry(invocation),
{
    match invocation {
        PipelineInvocation::WorkerRetry | PipelineInvocation::Manual => false,
        _ => true,
    }
}

/// Whether stopping a recording starts the pipeline on its own: the toggle
/// must be on, a transcription endpoint must be known (SalutSpeech has a
/// fixed one) and a summary URL must be set.
pub open spec fn auto_runs_after_stop(s: PublicSettings) -> bool {
    let transcription_ready = if s.transcription_provider@ == "salute_speech"@ {
        true
    } else {
        text::trim(s.transcription_url@).len() > 0
    };
    s.auto_run_pipeline_on_stop && transcription_ready && text::trim(s.summary_url@).len() > 0
}

pub fn should_auto_run_pipeline_after_stop(settings: &PublicSettings) -> (b: bool)
    ensures
        b == auto_runs_after_stop(*settings),
{
    let transcription_ready = if str_eq(settings.transcription_provider.as_str(), "salute_speech") {
        true
    } else {
        !is_blank(settings.transcription_url.as_str())
    };
    settings.auto_run_pipeline_on_stop && transcription_ready && !is_blank(
        settings.summary_url.as_str(),
    )
}

/// Directory holding the recordings: the configured root, resolved against
/// the application data directory when it is relative.
pub fn root_recordings_dir(app_data_dir: &str, settings: &PublicSettings) -> (r: String)
    ensures
        r@ == paths::join(app_data_dir@, settings.recording_root@),
{
    paths::join_path(app_data_dir, settings.recording_root.as_str())
}

} // verus!

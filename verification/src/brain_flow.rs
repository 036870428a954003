//! The upload of one session to Brain, as a sequence of decisions: what the
//! request turns into, which session events are written and in what order,
//! when the audio is sent, and what the caller is finally told. The caller
//! performs each action and reports what came of it.
use crate::archive::{
    archive_finished_detail, archive_started_detail, counts_outcome, new_archive_summary,
    progress_from_summary, record_archive_outcome, BrainArchiveUploadProgress, BrainArchiveUploadSummary,
};
use crate::brain::{
    error_text, plan_upload, skipped_response, token_missing_message, upload_failure_message,
    upload_url_check, BrainUploadError, BrainUploadResponse, UploadPlan,
};
use crate::redaction::{lemma_sanitized_text_hides_long_token, without_token};
use crate::paths::string_views;
use crate::text::{self, contains_char, contains_seq};
use vstd::prelude::*;

verus! {

broadcast use vstd::string::group_string_axioms;

/// Where the upload of one session stands.
pub enum UploadStage {
    /// Nothing has been decided yet.
    Planning,
    /// The start of the upload is being written; sending follows.
    RecordingStart { url: String, token: String },
    /// The audio is on its way, sent with this token.
    Sending { token: String },
    /// The accepted upload is being written.
    RecordingSuccess { response: BrainUploadResponse },
    /// A failure is being written; this message is the result.
    RecordingFailure { message: String },
    /// The result has been handed out.
    Finished,
}

/// What the caller reports.
pub enum UploadEvent {
    /// The request: whether the sync switch counts, the switch, the configured
    /// URL, and what the secret store gave for the token.
    Requested { respect_enabled: bool, enabled: bool, raw_url: String, stored_token: Option<String> },
    /// The session event was written, or why it was not.
    Recorded(Result<(), String>),
    /// What sending the audio gave.
    Sent(Result<BrainUploadResponse, BrainUploadError>),
}

/// What the caller does next.
pub enum UploadAction {
    /// Write a session event of this kind and detail, then report `Recorded`.
    Record { kind: String, detail: String },
    /// Send the audio to `url` with `token`, then report `Sent`.
    Send { url: String, token: String },
    /// The upload is over, with this result.
    Finish(Result<BrainUploadResponse, String>),
    /// Nothing: the report did not answer what the stage waits for.
    Wait,
}

pub struct UploadStep {
    pub stage: UploadStage,
    pub action: UploadAction,
}

pub open spec fn opt_view(o: Option<String>) -> Option<Seq<char>> {
    match o {
        Some(s) => Some(s@),
        None => None,
    }
}

/// What a request turns into: `None` to skip, an error message to record,
/// or the URL and token to upload with.
pub open spec fn planned(respect_enabled: bool, enabled: bool, raw_url: Seq<char>, stored_token: Option<Seq<char>>) -> Option<
    Result<(Seq<char>, Seq<char>), Seq<char>>,
> {
    if respect_enabled && !enabled {
        None
    } else {
        match upload_url_check(raw_url) {
            Err(e) => Some(Err(e)),
            Ok(u) => match stored_token {
                Some(t) => if text::trim(t).len() > 0 {
                    Some(Ok((u, text::trim(t))))
                } else {
                    Some(Err(token_missing_message()))
                },
                None => Some(Err(token_missing_message())),
            },
        }
    }
}

/// The reply handed out for a skipped upload.
pub open spec fn is_skipped_reply(p: BrainUploadResponse) -> bool {
    &&& p.ok
    &&& p.status matches Some(s) && s@ == "skipped"@
    &&& p.job_id is None && p.principal_id is None && p.workspace_id is None && p.workspace_slug is None
    &&& p.inbox_path is None && p.meta_path is None && p.duplicate is None && p.error is None
}

pub open spec fn records(a: UploadAction, kind: Seq<char>, detail: Seq<char>) -> bool {
    a matches UploadAction::Record { kind: k, detail: d } && k@ == kind && d@ == detail
}

pub open spec fn finishes_with_error(r: UploadStep, message: Seq<char>) -> bool {
    r.stage is Finished && (r.action matches UploadAction::Finish(Err(m)) && m@ == message)
}

pub open spec fn waits(stage: UploadStage, r: UploadStep) -> bool {
    r.stage == stage && r.action is Wait
}

/// One step of an upload. Skipped uploads finish at once with the skipped
/// reply and write nothing. A refused request writes `brain_upload_failed`
/// with its message and fails with it. Otherwise `brain_upload_started` is
/// written (a write error ends the upload with that error), the audio is
/// sent, and then either `brain_upload_succeeded` is written and the reply
/// handed out (again, a write error ends it), or `brain_upload_failed` is
/// written with the error's text, token removed, and that text is the error
/// (whether or not the failure could be written).
pub open spec fn upload_step_spec(stage: UploadStage, event: UploadEvent, r: UploadStep) -> bool {
    match stage {
        UploadStage::Planning => match event {
            UploadEvent::Requested { respect_enabled, enabled, raw_url, stored_token } => match planned(
                respect_enabled,
                enabled,
                raw_url@,
                opt_view(stored_token),
            ) {
                None => r.stage is Finished && (r.action matches UploadAction::Finish(Ok(p)) && is_skipped_reply(p)),
                Some(Err(m)) => (r.stage matches UploadStage::RecordingFailure { message } && message@ == m)
                    && records(r.action, "brain_upload_failed"@, m),
                Some(Ok((u, t))) => (r.stage matches UploadStage::RecordingStart { url, token } && url@ == u
                    && token@ == t) && records(r.action, "brain_upload_started"@, "Uploading audio to Brain"@),
            },
            _ => waits(stage, r),
        },
        UploadStage::RecordingStart { url, token } => match event {
            UploadEvent::Recorded(Ok(())) => (r.stage matches UploadStage::Sending { token: t } && t@ == token@)
                && (r.action matches UploadAction::Send { url: u2, token: t2 } && u2@ == url@ && t2@ == token@),
            UploadEvent::Recorded(Err(e)) => finishes_with_error(r, e@),
            _ => waits(stage, r),
        },
        UploadStage::Sending { token } => match event {
            UploadEvent::Sent(Ok(reply)) => (r.stage matches UploadStage::RecordingSuccess { response }
                && response == reply) && records(r.action, "brain_upload_succeeded"@, "Brain upload accepted"@),
            UploadEvent::Sent(Err(err)) => (r.stage matches UploadStage::RecordingFailure { message }
                && message@ == without_token(error_text(err), token@)) && records(
                r.action,
                "brain_upload_failed"@,
                without_token(error_text(err), token@),
            ),
            _ => waits(stage, r),
        },
        UploadStage::RecordingSuccess { response } => match event {
            UploadEvent::Recorded(Ok(())) => r.stage is Finished && (r.action matches UploadAction::Finish(Ok(p))
                && p == response),
            UploadEvent::Recorded(Err(e)) => finishes_with_error(r, e@),
            _ => waits(stage, r),
        },
        UploadStage::RecordingFailure { message } => match event {
            UploadEvent::Recorded(_) => finishes_with_error(r, message@),
            _ => waits(stage, r),
        },
        UploadStage::Finished => waits(stage, r),
    }
}

fn record(kind: &str, detail: String) -> (a: UploadAction)
    ensures
        records(a, kind@, detail@),
{
    UploadAction::Record { kind: kind.to_string(), detail }
}

/// Takes the upload one step further (see [`upload_step_spec`]).
pub fn upload_step(stage: UploadStage, event: UploadEvent) -> (r: UploadStep)
    ensures
        upload_step_spec(stage, event, r),
{
    proof {
        reveal_strlit("brain_upload_failed");
        reveal_strlit("brain_upload_started");
        reveal_strlit("brain_upload_succeeded");
    }
    match stage {
        UploadStage::Planning => match event {
            UploadEvent::Requested { respect_enabled, enabled, raw_url, stored_token } => {
                let stored = match &stored_token {
                    Some(t) => Some(t.as_str()),
                    None => None,
                };
                match plan_upload(respect_enabled, enabled, raw_url.as_str(), stored) {
                    UploadPlan::Skip => UploadStep {
                        stage: UploadStage::Finished,
                        action: UploadAction::Finish(Ok(skipped_response())),
                    },
                    UploadPlan::Reject(m) => {
                        let action = record("brain_upload_failed", m.clone());
                        UploadStep { stage: UploadStage::RecordingFailure { message: m }, action }
                    },
                    UploadPlan::Upload { url, token } => {
                        let action = record("brain_upload_started", "Uploading audio to Brain".to_string());
                        UploadStep { stage: UploadStage::RecordingStart { url, token }, action }
                    },
                }
            },
            _ => UploadStep { stage: UploadStage::Planning, action: UploadAction::Wait },
        },
        UploadStage::RecordingStart { url, token } => match event {
            UploadEvent::Recorded(Ok(())) => {
                let sending = token.clone();
                UploadStep { stage: UploadStage::Sending { token: sending }, action: UploadAction::Send { url, token } }
            },
            UploadEvent::Recorded(Err(e)) => UploadStep {
                stage: UploadStage::Finished,
                action: UploadAction::Finish(Err(e)),
            },
            _ => UploadStep { stage: UploadStage::RecordingStart { url, token }, action: UploadAction::Wait },
        },
        UploadStage::Sending { token } => match event {
            UploadEvent::Sent(Ok(reply)) => {
                let action = record("brain_upload_succeeded", "Brain upload accepted".to_string());
                UploadStep { stage: UploadStage::RecordingSuccess { response: reply }, action }
            },
            UploadEvent::Sent(Err(err)) => {
                let message = upload_failure_message(&err, token.as_str());
                let action = record("brain_upload_failed", message.clone());
                UploadStep { stage: UploadStage::RecordingFailure { message }, action }
            },
            _ => UploadStep { stage: UploadStage::Sending { token }, action: UploadAction::Wait },
        },
        UploadStage::RecordingSuccess { response } => match event {
            UploadEvent::Recorded(Ok(())) => UploadStep {
                stage: UploadStage::Finished,
                action: UploadAction::Finish(Ok(response)),
            },
            UploadEvent::Recorded(Err(e)) => UploadStep {
                stage: UploadStage::Finished,
                action: UploadAction::Finish(Err(e)),
            },
            _ => UploadStep { stage: UploadStage::RecordingSuccess { response }, action: UploadAction::Wait },
        },
        UploadStage::RecordingFailure { message } => match event {
            UploadEvent::Recorded(_) => UploadStep {
                stage: UploadStage::Finished,
                action: UploadAction::Finish(Err(message)),
            },
            _ => UploadStep { stage: UploadStage::RecordingFailure { message }, action: UploadAction::Wait },
        },
        UploadStage::Finished => UploadStep { stage: UploadStage::Finished, action: UploadAction::Wait },
    }
}

/// A failed upload's recorded failure never shows a token longer than eight
/// characters that holds no square bracket.
pub proof fn lemma_recorded_failure_hides_token(token: String, err: BrainUploadError, r: UploadStep)
    requires
        token@.len() > 8,
        !contains_char(token@, '['),
        !contains_char(token@, ']'),
        upload_step_spec(UploadStage::Sending { token }, UploadEvent::Sent(Err(err)), r),
    ensures
        r.action matches UploadAction::Record { detail, .. } && !contains_seq(detail@, token@),
        r.stage matches UploadStage::RecordingFailure { message } && !contains_seq(message@, token@),
{
    lemma_sanitized_text_hides_long_token(error_text(err), token@);
}

// ------------------------------------------------------------ archive run

/// Where an upload of the whole archive stands. The sessions to upload are
/// the caller's, numbered from zero in the order they go.
pub enum ArchiveStage {
    /// Nothing has been decided yet.
    Planning,
    /// The sessions that are due are being listed.
    Listing { token: String },
    /// The start of the run is being written.
    RecordingStart { token: String, summary: BrainArchiveUploadSummary },
    /// The empty tally is being shown.
    Announcing { token: String, summary: BrainArchiveUploadSummary },
    /// Session `index` is being uploaded.
    Uploading { token: String, summary: BrainArchiveUploadSummary, index: usize },
    /// The tally after session `index` is being shown.
    Reporting { token: String, summary: BrainArchiveUploadSummary, index: usize },
    /// The end of the run is being written.
    RecordingEnd { summary: BrainArchiveUploadSummary },
    /// The result has been handed out.
    Finished,
}

/// What the caller reports during an archive run.
pub enum ArchiveEvent {
    /// The request: the configured URL and what the secret store gave.
    Requested { raw_url: String, stored_token: Option<String> },
    /// How many sessions are due, or why they could not be listed.
    Listed(Result<usize, String>),
    /// The run's event was written, or why it was not.
    Recorded(Result<(), String>),
    /// The tally was shown, or why it could not be.
    Shown(Result<(), String>),
    /// How the upload of the current session ended.
    Uploaded { session_id: String, title: String, outcome: Result<BrainUploadResponse, String> },
}

/// What the caller does next during an archive run.
pub enum ArchiveAction {
    /// List the sessions that are due, then report `Listed`.
    List,
    /// Write a run event of this kind and detail, then report `Recorded`.
    Record { kind: String, detail: String },
    /// Show this tally, then report `Shown`.
    Show(BrainArchiveUploadProgress),
    /// Upload the session with this number, then report `Uploaded`.
    Upload(usize),
    /// The run is over, with this result.
    Finish(Result<BrainArchiveUploadSummary, String>),
    /// Nothing: the report did not answer what the stage waits for.
    Wait,
}

pub struct ArchiveStep {
    pub stage: ArchiveStage,
    pub action: ArchiveAction,
}

/// `p` shows `s` after `processed` sessions, naming the current session.
pub open spec fn shows(
    p: BrainArchiveUploadProgress,
    processed: int,
    s: BrainArchiveUploadSummary,
    session_id: Option<String>,
    title: Option<String>,
) -> bool {
    &&& p.total == s.total && p.processed == processed
    &&& p.uploaded == s.uploaded && p.skipped == s.skipped && p.failed == s.failed
    &&& p.current_session_id == session_id && p.current_title == title
    &&& string_views(p.errors@) == string_views(s.errors@)
}

pub open spec fn archive_records(a: ArchiveAction, kind: Seq<char>, detail: Seq<char>) -> bool {
    a matches ArchiveAction::Record { kind: k, detail: d } && k@ == kind && d@ == detail
}

pub open spec fn archive_fails(r: ArchiveStep, message: Seq<char>) -> bool {
    r.stage is Finished && (r.action matches ArchiveAction::Finish(Err(m)) && m@ == message)
}

pub open spec fn archive_waits(stage: ArchiveStage, r: ArchiveStep) -> bool {
    r.stage == stage && r.action is Wait
}

pub open spec fn started_detail(total: usize) -> Seq<char> {
    "Uploading "@ + text::decimal(total as nat) + " archived Brain sessions"@
}

pub open spec fn finished_detail(s: BrainArchiveUploadSummary) -> Seq<char> {
    "uploaded="@ + text::decimal(s.uploaded as nat) + ", skipped="@ + text::decimal(s.skipped as nat)
        + ", failed="@ + text::decimal(s.failed as nat)
}

/// After the tally is shown: the next session, or the end of the run.
pub open spec fn moves_on(token: String, summary: BrainArchiveUploadSummary, next: int, r: ArchiveStep) -> bool {
    if next < summary.total {
        (r.stage matches ArchiveStage::Uploading { token: t, summary: s, index } && t == token && s == summary
            && index == next) && r.action == ArchiveAction::Upload(next as usize)
    } else {
        (r.stage matches ArchiveStage::RecordingEnd { summary: s } && s == summary) && archive_records(
            r.action,
            "brain_archive_upload_finished"@,
            finished_detail(summary),
        )
    }
}

/// One step of an archive run. The URL and token are checked first (a bad
/// one ends the run with its message, nothing written); then the due
/// sessions are listed, `brain_archive_upload_started` is written (whether
/// or not that works), the empty tally is shown, and each session in turn is
/// uploaded, counted and shown with its id and title; at the end
/// `brain_archive_upload_finished` is written with the counts and the tally
/// is the result. A listing or showing error ends the run with that error;
/// a tally whose counts are at the limit of `usize` takes no more sessions.
pub open spec fn archive_step_spec(stage: ArchiveStage, event: ArchiveEvent, r: ArchiveStep) -> bool {
    match stage {
        ArchiveStage::Planning => match event {
            ArchiveEvent::Requested { raw_url, stored_token } => match planned(
                false,
                true,
                raw_url@,
                opt_view(stored_token),
            ) {
                Some(Ok((u, t))) => (r.stage matches ArchiveStage::Listing { token } && token@ == t) && r.action
                    is List,
                Some(Err(m)) => archive_fails(r, m),
                None => r.stage is Finished,
            },
            _ => archive_waits(stage, r),
        },
        ArchiveStage::Listing { token } => match event {
            ArchiveEvent::Listed(Ok(total)) => (r.stage matches ArchiveStage::RecordingStart { token: t, summary }
                && t == token && summary.total == total && summary.uploaded == 0 && summary.skipped == 0
                && summary.failed == 0 && summary.errors@.len() == 0) && archive_records(
                r.action,
                "brain_archive_upload_started"@,
                started_detail(total),
            ),
            ArchiveEvent::Listed(Err(e)) => archive_fails(r, e@),
            _ => archive_waits(stage, r),
        },
        ArchiveStage::RecordingStart { token, summary } => match event {
            ArchiveEvent::Recorded(_) => (r.stage matches ArchiveStage::Announcing { token: t, summary: s }
                && t == token && s == summary) && (r.action matches ArchiveAction::Show(p) && shows(
                p,
                0,
                summary,
                None,
                None,
            )),
            _ => archive_waits(stage, r),
        },
        ArchiveStage::Announcing { token, summary } => match event {
            ArchiveEvent::Shown(Ok(())) => moves_on(token, summary, 0, r),
            ArchiveEvent::Shown(Err(e)) => archive_fails(r, e@),
            _ => archive_waits(stage, r),
        },
        ArchiveStage::Uploading { token, summary, index } => match event {
            ArchiveEvent::Uploaded { session_id, title, outcome } => {
                let done = summary.uploaded + summary.skipped + summary.failed;
                if done < usize::MAX {
                    (r.stage matches ArchiveStage::Reporting { token: t, summary: s, index: i } && t == token
                        && i == index && counts_outcome(summary, s, session_id@, outcome, token@)
                        && (r.action matches ArchiveAction::Show(p) && shows(
                        p,
                        done + 1,
                        s,
                        Some(session_id),
                        Some(title),
                    )))
                } else {
                    (r.stage matches ArchiveStage::RecordingEnd { summary: s } && s == summary) && archive_records(
                        r.action,
                        "brain_archive_upload_finished"@,
                        finished_detail(summary),
                    )
                }
            },
            _ => archive_waits(stage, r),
        },
        ArchiveStage::Reporting { token, summary, index } => match event {
            ArchiveEvent::Shown(Ok(())) => moves_on(token, summary, index + 1, r),
            ArchiveEvent::Shown(Err(e)) => archive_fails(r, e@),
            _ => archive_waits(stage, r),
        },
        ArchiveStage::RecordingEnd { summary } => match event {
            ArchiveEvent::Recorded(_) => r.stage is Finished && r.action == ArchiveAction::Finish(Ok(summary)),
            _ => archive_waits(stage, r),
        },
        ArchiveStage::Finished => archive_waits(stage, r),
    }
}

fn archive_record(kind: &str, detail: String) -> (a: ArchiveAction)
    ensures
        archive_records(a, kind@, detail@),
{
    ArchiveAction::Record { kind: kind.to_string(), detail }
}

fn move_on(token: String, summary: BrainArchiveUploadSummary, next: usize) -> (r: ArchiveStep)
    ensures
        moves_on(token, summary, next as int, r),
{
    proof {
        reveal_strlit("brain_archive_upload_finished");
    }
    if next < summary.total {
        ArchiveStep { stage: ArchiveStage::Uploading { token, summary, index: next }, action: ArchiveAction::Upload(next) }
    } else {
        let action = archive_record("brain_archive_upload_finished", archive_finished_detail(&summary));
        ArchiveStep { stage: ArchiveStage::RecordingEnd { summary }, action }
    }
}

/// Takes an archive run one step further (see [`archive_step_spec`]).
pub fn archive_step(stage: ArchiveStage, event: ArchiveEvent) -> (r: ArchiveStep)
    ensures
        archive_step_spec(stage, event, r),
{
    proof {
        reveal_strlit("brain_archive_upload_started");
        reveal_strlit("brain_archive_upload_finished");
    }
    match stage {
        ArchiveStage::Planning => match event {
            ArchiveEvent::Requested { raw_url, stored_token } => {
                let stored = match &stored_token {
                    Some(t) => Some(t.as_str()),
                    None => None,
                };
                match plan_upload(false, true, raw_url.as_str(), stored) {
                    UploadPlan::Upload { url, token } => ArchiveStep {
                        stage: ArchiveStage::Listing { token },
                        action: ArchiveAction::List,
                    },
                    UploadPlan::Reject(m) => ArchiveStep {
                        stage: ArchiveStage::Finished,
                        action: ArchiveAction::Finish(Err(m)),
                    },
                    UploadPlan::Skip => ArchiveStep { stage: ArchiveStage::Finished, action: ArchiveAction::Wait },
                }
            },
            _ => ArchiveStep { stage: ArchiveStage::Planning, action: ArchiveAction::Wait },
        },
        ArchiveStage::Listing { token } => match event {
            ArchiveEvent::Listed(Ok(total)) => {
                let summary = new_archive_summary(total);
                let action = archive_record("brain_archive_upload_started", archive_started_detail(total));
                ArchiveStep { stage: ArchiveStage::RecordingStart { token, summary }, action }
            },
            ArchiveEvent::Listed(Err(e)) => ArchiveStep {
                stage: ArchiveStage::Finished,
                action: ArchiveAction::Finish(Err(e)),
            },
            _ => ArchiveStep { stage: ArchiveStage::Listing { token }, action: ArchiveAction::Wait },
        },
        ArchiveStage::RecordingStart { token, summary } => match event {
            ArchiveEvent::Recorded(_) => {
                let p = progress_from_summary(summary.total, 0, &summary, None, None);
                ArchiveStep { stage: ArchiveStage::Announcing { token, summary }, action: ArchiveAction::Show(p) }
            },
            _ => ArchiveStep { stage: ArchiveStage::RecordingStart { token, summary }, action: ArchiveAction::Wait },
        },
        ArchiveStage::Announcing { token, summary } => match event {
            ArchiveEvent::Shown(Ok(())) => move_on(token, summary, 0),
            ArchiveEvent::Shown(Err(e)) => ArchiveStep {
                stage: ArchiveStage::Finished,
                action: ArchiveAction::Finish(Err(e)),
            },
            _ => ArchiveStep { stage: ArchiveStage::Announcing { token, summary }, action: ArchiveAction::Wait },
        },
        ArchiveStage::Uploading { token, summary, index } => match event {
            ArchiveEvent::Uploaded { session_id, title, outcome } => {
                let done: u128 = summary.uploaded as u128 + summary.skipped as u128 + summary.failed as u128;
                if done < usize::MAX as u128 {
                    let mut counted = summary;
                    record_archive_outcome(&mut counted, session_id.as_str(), outcome, token.as_str());
                    let p = progress_from_summary(
                        counted.total,
                        (done + 1) as usize,
                        &counted,
                        Some(session_id),
                        Some(title),
                    );
                    ArchiveStep {
                        stage: ArchiveStage::Reporting { token, summary: counted, index },
                        action: ArchiveAction::Show(p),
                    }
                } else {
                    let action = archive_record("brain_archive_upload_finished", archive_finished_detail(&summary));
                    ArchiveStep { stage: ArchiveStage::RecordingEnd { summary }, action }
                }
            },
            _ => ArchiveStep { stage: ArchiveStage::Uploading { token, summary, index }, action: ArchiveAction::Wait },
        },
        ArchiveStage::Reporting { token, summary, index } => match event {
            ArchiveEvent::Shown(Ok(())) => {
                if index < usize::MAX {
                    move_on(token, summary, index + 1)
                } else {
                    let action = archive_record(
                        "brain_archive_upload_finished",
                        archive_finished_detail(&summary),
                    );
                    ArchiveStep { stage: ArchiveStage::RecordingEnd { summary }, action }
                }
            },
            ArchiveEvent::Shown(Err(e)) => ArchiveStep {
                stage: ArchiveStage::Finished,
                action: ArchiveAction::Finish(Err(e)),
            },
            _ => ArchiveStep { stage: ArchiveStage::Reporting { token, summary, index }, action: ArchiveAction::Wait },
        },
        ArchiveStage::RecordingEnd { summary } => match event {
            ArchiveEvent::Recorded(_) => ArchiveStep {
                stage: ArchiveStage::Finished,
                action: ArchiveAction::Finish(Ok(summary)),
            },
            _ => ArchiveStep { stage: ArchiveStage::RecordingEnd { summary }, action: ArchiveAction::Wait },
        },
        ArchiveStage::Finished => ArchiveStep { stage: ArchiveStage::Finished, action: ArchiveAction::Wait },
    }
}

/// Each session an archive run uploads adds exactly one to the tally's
/// counts, and the progress then shown counts it as processed.
pub proof fn lemma_archive_session_counted_once(
    token: String,
    summary: BrainArchiveUploadSummary,
    index: usize,
    session_id: String,
    title: String,
    outcome: Result<BrainUploadResponse, String>,
    r: ArchiveStep,
)
    requires
        summary.uploaded + summary.skipped + summary.failed < usize::MAX,
        archive_step_spec(
            ArchiveStage::Uploading { token, summary, index },
            ArchiveEvent::Uploaded { session_id, title, outcome },
            r,
        ),
    ensures
        r.stage matches ArchiveStage::Reporting { summary: s, .. } && s.total == summary.total && s.uploaded
            + s.skipped + s.failed == summary.uploaded + summary.skipped + summary.failed + 1 && (
        r.action matches ArchiveAction::Show(p) && p.processed == p.uploaded + p.skipped + p.failed),
{
}

} // verus!

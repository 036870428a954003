//! The session catalog kept in SQLite: its row types, the Brain upload state
//! derived from a session's event log, the retry schedule of failed pipeline
//! runs, and the fields derived for the session list.
use crate::paths;
use crate::session::{SessionMeta, SessionStatus};
use crate::text::{self, ascii_lowercase, decimal_string, is_blank, str_eq, to_owned_string, trim_string};
use vstd::prelude::*;

verus! {

broadcast use vstd::string::group_string_axioms;

#[derive(Clone, Copy, Debug, PartialEq, Eq, Structural)]
pub enum BrainUploadStatus {
    NotUploaded,
    Uploading,
    Uploaded,
    Failed,
}

/// Where a session stands with respect to the Brain server.
pub struct BrainUploadState {
    pub status: BrainUploadStatus,
    pub server_ingested_once: bool,
    pub last_error: Option<String>,
    pub updated_at_iso: Option<String>,
}

/// The editable fields of a session, as listed.
pub struct SessionListMeta {
    pub session_id: String,
    pub source: String,
    pub notes: String,
    pub custom_summary_prompt: String,
    pub custom_summary_prompt_name: String,
    pub topic: String,
    pub tags: Vec<String>,
    pub num_speakers: Option<u32>,
}

/// One row of the session list shown in the main window.
pub struct SessionListItem {
    pub session_id: String,
    pub status: String,
    pub primary_tag: String,
    pub topic: String,
    pub display_date_ru: String,
    pub started_at_iso: String,
    pub session_dir: String,
    pub audio_file: String,
    pub audio_format: String,
    pub audio_duration_hms: String,
    pub has_transcript_text: bool,
    pub has_summary_text: bool,
    pub brain_upload_status: BrainUploadStatus,
    pub brain_server_ingested_once: bool,
    pub brain_upload_last_error: Option<String>,
    pub brain_upload_updated_at_iso: Option<String>,
    pub meta: Option<SessionListMeta>,
}

/// A scheduled retry of a failed pipeline run.
pub struct RetryJob {
    pub session_id: String,
    pub attempts: i64,
    pub next_run_epoch: i64,
    pub last_error: String,
}

/// One entry of a session's event log.
pub struct SessionEvent {
    pub id: i64,
    pub session_id: String,
    pub at_iso: String,
    pub event_type: String,
    pub detail: String,
}

/// A stored custom summary prompt.
pub struct SummaryPromptView {
    pub name: String,
    pub prompt: String,
    pub created_at_iso: String,
    pub updated_at_iso: String,
}

/// An upload that started less than this long ago is considered in progress.
pub const BRAIN_UPLOAD_FRESH_MINUTES: i64 = 30;

/// Ghost view of an upload state.
pub struct UploadStateView {
    pub status: BrainUploadStatus,
    pub ingested: bool,
    pub last_error: Option<Seq<char>>,
    pub updated_at: Option<Seq<char>>,
}

pub open spec fn opt_view(o: Option<String>) -> Option<Seq<char>> {
    match o {
        Some(s) => Some(s@),
        None => None,
    }
}

pub open spec fn state_view(s: BrainUploadState) -> UploadStateView {
    UploadStateView {
        status: s.status,
        ingested: s.server_ingested_once,
        last_error: opt_view(s.last_error),
        updated_at: opt_view(s.updated_at_iso),
    }
}

pub open spec fn initial_upload_state() -> UploadStateView {
    UploadStateView {
        status: BrainUploadStatus::NotUploaded,
        ingested: false,
        last_error: None,
        updated_at: None,
    }
}

/// Effect of one logged event on the upload state.
pub open spec fn apply_upload_event(s: UploadStateView, e: SessionEvent) -> UploadStateView {
    if e.event_type@ == "brain_upload_started"@ {
        UploadStateView {
            status: BrainUploadStatus::Uploading,
            last_error: None,
            updated_at: Some(e.at_iso@),
            ..s
        }
    } else if e.event_type@ == "brain_upload_succeeded"@ {
        UploadStateView {
            status: BrainUploadStatus::Uploaded,
            ingested: true,
            last_error: None,
            updated_at: Some(e.at_iso@),
        }
    } else if e.event_type@ == "brain_upload_failed"@ || e.event_type@
        == "brain_upload_interrupted"@ {
        UploadStateView {
            status: BrainUploadStatus::Failed,
            last_error: Some(e.detail@),
            updated_at: Some(e.at_iso@),
            ..s
        }
    } else {
        s
    }
}

/// The upload state after the events, applied in log order.
pub open spec fn upload_state_after(events: Seq<SessionEvent>) -> UploadStateView
    decreases events.len(),
{
    if events.len() == 0 {
        initial_upload_state()
    } else {
        apply_upload_event(upload_state_after(events.drop_last()), events.last())
    }
}

fn clone_opt(o: &Option<String>) -> (r: Option<String>)
    ensures
        opt_view(r) == opt_view(*o),
{
    match o {
        Some(s) => Some(s.clone()),
        None => None,
    }
}

/// Replays a session's event log into its Brain upload state.
pub fn derive_brain_upload_state(events: &[SessionEvent]) -> (r: BrainUploadState)
    ensures
        state_view(r) == upload_state_after(events@),
{
    let mut state = BrainUploadState {
        status: BrainUploadStatus::NotUploaded,
        server_ingested_once: false,
        last_error: None,
        updated_at_iso: None,
    };
    let mut i: usize = 0;
    while i < events.len()
        invariant
            i <= events@.len(),
            state_view(state) == upload_state_after(events@.subrange(0, i as int)),
        decreases events@.len() - i,
    {
        let event = &events[i];
        let kind = event.event_type.as_str();
        if str_eq(kind, "brain_upload_started") {
            state.status = BrainUploadStatus::Uploading;
            state.last_error = None;
            state.updated_at_iso = Some(event.at_iso.clone());
        } else if str_eq(kind, "brain_upload_succeeded") {
            state.server_ingested_once = true;
            state.status = BrainUploadStatus::Uploaded;
            state.last_error = None;
            state.updated_at_iso = Some(event.at_iso.clone());
        } else if str_eq(kind, "brain_upload_failed") || str_eq(kind, "brain_upload_interrupted") {
            state.status = BrainUploadStatus::Failed;
            state.last_error = Some(event.detail.clone());
            state.updated_at_iso = Some(event.at_iso.clone());
        }
        i = i + 1;
        proof {
            assert(events@.subrange(0, i as int).drop_last() =~= events@.subrange(0, i - 1));
        }
    }
    proof {
        assert(events@.subrange(0, events@.len() as int) =~= events@);
    }
    state
}

/// A successful upload is never forgotten: once a `succeeded` event is in the
/// log, later events leave the session marked as ingested.
pub proof fn lemma_ingested_is_sticky(events: Seq<SessionEvent>, later: Seq<SessionEvent>)
    requires
        upload_state_after(events).ingested,
    ensures
        upload_state_after(events + later).ingested,
    decreases later.len(),
{
    if later.len() > 0 {
        lemma_ingested_is_sticky(events, later.drop_last());
        assert((events + later).drop_last() =~= events + later.drop_last());
    } else {
        assert(events + later =~= events);
    }
}

/// The instant an RFC 3339 timestamp names, as `chrono::DateTime::parse_from_rfc3339`
/// reads it: whole seconds since the Unix epoch and the nanoseconds past them.
pub uninterp spec fn spec_rfc3339_instant(text: Seq<char>) -> Option<(int, int)>;

/// `chrono::DateTime::parse_from_rfc3339`, taken apart into `timestamp` (an `i64`)
/// and `timestamp_subsec_nanos` (a `u32`); `None` when the text does not parse.
/// Only the naming of the result is claimed.
#[verifier::external_body]
fn rfc3339_instant(text: &str) -> (r: Option<(i64, u32)>)
    ensures
        match r {
            Some((secs, nanos)) => spec_rfc3339_instant(text@) == Some((secs as int, nanos as int)),
            None => spec_rfc3339_instant(text@) is None,
        },
{
    match chrono::DateTime::parse_from_rfc3339(text) {
        Ok(t) => Some((t.timestamp(), t.timestamp_subsec_nanos())),
        Err(_) => None,
    }
}

/// Nanoseconds since the epoch of a parsed RFC 3339 timestamp.
pub open spec fn rfc3339_nanos(text: Seq<char>) -> Option<int> {
    match spec_rfc3339_instant(text) {
        Some((secs, nanos)) => Some(secs * 1_000_000_000 + nanos),
        None => None,
    }
}

pub(crate) fn instant_nanos(text: &str) -> (r: Option<i128>)
    ensures
        match r {
            Some(n) => rfc3339_nanos(text@) == Some(n as int) && -10_000_000_000_000_000_000_000_000_000i128
                <= n <= 10_000_000_000_000_000_000_000_000_000i128,
            None => rfc3339_nanos(text@) is None,
        },
{
    match rfc3339_instant(text) {
        Some((secs, nanos)) => {
            let s: i128 = secs as i128;
            let n: i128 = nanos as i128;
            assert(-10_000_000_000_000_000_000_000_000_000i128 <= s * 1_000_000_000 + n
                <= 10_000_000_000_000_000_000_000_000_000i128) by (nonlinear_arith)
                requires
                    -9_223_372_036_854_775_808i128 <= s <= 9_223_372_036_854_775_807i128,
                    0 <= n <= 4_294_967_295i128,
            ;
            Some(s * 1_000_000_000 + n)
        },
        None => None,
    }
}

pub open spec fn fresh_window_nanos() -> int {
    1_800_000_000_000int
}

/// An upload recorded as started at `updated_at` is still running at `now`
/// (nanoseconds since the epoch) when it began at most thirty minutes ago and
/// not in the future.
pub open spec fn upload_is_fresh(updated_at: Option<Seq<char>>, now_nanos: int) -> bool {
    match updated_at {
        Some(t) => match rfc3339_nanos(t) {
            Some(start) => 0 <= now_nanos - start < fresh_window_nanos(),
            None => false,
        },
        None => false,
    }
}

/// Whether a Brain upload that started at `updated_at_iso` counts as still
/// running at `now_nanos`.
pub fn brain_upload_is_fresh(updated_at_iso: Option<&str>, now_nanos: i128) -> (b: bool)
    ensures
        b == upload_is_fresh(
            match updated_at_iso {
                Some(s) => Some(s@),
                None => None,
            },
            now_nanos as int,
        ),
{
    match updated_at_iso {
        None => false,
        Some(at) => match instant_nanos(at) {
            Some(start) => start <= now_nanos && now_nanos < start + 1_800_000_000_000,
            None => false,
        },
    }
}

/// An upload still marked as running that started too long ago (or at an
/// unreadable time) was interrupted; the catalog records that it ended.
pub fn upload_was_interrupted(state: &BrainUploadState, now_nanos: i128) -> (b: bool)
    ensures
        b == (state.status == BrainUploadStatus::Uploading && !upload_is_fresh(
            opt_view(state.updated_at_iso),
            now_nanos as int,
        )),
{
    if state.status != BrainUploadStatus::Uploading {
        return false;
    }
    let fresh = match &state.updated_at_iso {
        Some(at) => brain_upload_is_fresh(Some(at.as_str()), now_nanos),
        None => brain_upload_is_fresh(None, now_nanos),
    };
    !fresh
}

/// The detail of the event that closes an interrupted upload.
pub fn interrupted_upload_detail() -> (d: &'static str)
    ensures
        d@ == "Предыдущая загрузка Brain не завершилась. Можно повторить."@,
{
    "Предыдущая загрузка Brain не завершилась. Можно повторить."
}

pub open spec fn file_audio_format(file_name: Seq<char>) -> Seq<char> {
    match paths::extension(file_name) {
        Some(e) => if e.len() > 0 {
            text::ascii_lower_seq(e)
        } else {
            "unknown"@
        },
        None => "unknown"@,
    }
}

/// The lowercased extension of an audio file name, or `unknown`.
pub fn audio_format_from_file_name(file_name: &str) -> (r: String)
    ensures
        r@ == file_audio_format(file_name@),
{
    match paths::extension_of(file_name) {
        Some(e) => {
            if e.as_str().unicode_len() > 0 {
                ascii_lowercase(e.as_str())
            } else {
                "unknown".to_string()
            }
        },
        None => "unknown".to_string(),
    }
}

pub open spec fn hms(total_seconds: int) -> Seq<char> {
    let safe = if total_seconds < 0 {
        0
    } else {
        total_seconds
    };
    text::decimal2((safe / 3600) as nat) + ":"@ + text::decimal2(((safe % 3600) / 60) as nat) + ":"@
        + text::decimal2((safe % 60) as nat)
}

fn two_digits(n: u64) -> (r: String)
    ensures
        r@ == text::decimal2(n as nat),
{
    if n < 10 {
        let mut s = "0".to_string();
        s.append(decimal_string(n).as_str());
        proof {
            reveal_strlit("0");
            assert(text::decimal(n as nat) == seq![text::digit_char(n as nat)]);
            assert(s@ =~= seq!['0', text::digit_char(n as nat)]);
        }
        s
    } else {
        decimal_string(n)
    }
}

fn hms_string(safe: u128) -> (r: String)
    requires
        safe <= 100_000_000_000_000_000_000u128,
    ensures
        r@ == hms(safe as int),
{
    let mut s = two_digits((safe / 3600) as u64);
    s.append(":");
    s.append(two_digits(((safe % 3600) / 60) as u64).as_str());
    s.append(":");
    s.append(two_digits((safe % 60) as u64).as_str());
    s
}

/// A duration in seconds as `HH:MM:SS` (negative durations count as zero).
pub fn format_hms(total_seconds: i64) -> (r: String)
    ensures
        r@ == hms(total_seconds as int),
{
    if total_seconds < 0 {
        hms_string(0)
    } else {
        hms_string(total_seconds as u128)
    }
}

/// Seconds between two RFC 3339 instants, truncated toward zero, or `None`
/// when either does not parse.
pub open spec fn whole_seconds_between(started: Seq<char>, ended: Seq<char>) -> Option<int> {
    match (rfc3339_nanos(started), rfc3339_nanos(ended)) {
        (Some(a), Some(b)) => Some(
            if b - a >= 0 {
                (b - a) / 1_000_000_000
            } else {
                -((a - b) / 1_000_000_000)
            },
        ),
        _ => None,
    }
}

pub open spec fn duration_hms(started: Seq<char>, ended: Option<Seq<char>>) -> Seq<char> {
    match ended {
        Some(e) => match whole_seconds_between(started, e) {
            Some(secs) => hms(secs),
            None => "00:00:00"@,
        },
        None => "00:00:00"@,
    }
}

/// Length of the recording of `meta`, from its start and end stamps.
pub fn audio_duration_hms(meta: &SessionMeta) -> (r: String)
    ensures
        r@ == duration_hms(
            meta.started_at_iso@,
            match meta.ended_at_iso {
                Some(e) => Some(e@),
                None => None,
            },
        ),
{
    proof {
        reveal_strlit("00:00:00");
    }
    let started = match instant_nanos(meta.started_at_iso.as_str()) {
        Some(a) => a,
        None => return "00:00:00".to_string(),
    };
    let ended = match &meta.ended_at_iso {
        Some(e) => match instant_nanos(e.as_str()) {
            Some(b) => b,
            None => return "00:00:00".to_string(),
        },
        None => return "00:00:00".to_string(),
    };
    if ended >= started {
        let secs: i128 = (ended - started) / 1_000_000_000;
        hms_string(secs as u128)
    } else {
        proof {
            assert(hms(0) == hms(-((started - ended) / 1_000_000_000)));
        }
        hms_string(0)
    }
}

pub open spec fn retry_delay(attempts: int) -> int {
    if attempts == 1 {
        30
    } else if attempts == 2 {
        120
    } else if attempts == 3 {
        600
    } else {
        1800
    }
}

/// Seconds to wait before retry number `attempts`: 30 s, 2 min, 10 min, then 30 min.
pub fn retry_delay_seconds(attempts: i64) -> (d: i64)
    ensures
        d == retry_delay(attempts as int),
{
    if attempts == 1 {
        30
    } else if attempts == 2 {
        120
    } else if attempts == 3 {
        600
    } else {
        1800
    }
}

/// Later retries never wait less than earlier ones, and every wait lies
/// between thirty seconds and thirty minutes.
pub proof fn lemma_retries_back_off(earlier: int, later: int)
    requires
        1 <= earlier <= later,
    ensures
        retry_delay(earlier) <= retry_delay(later),
        30 <= retry_delay(earlier) <= 1800,
{
}

/// The attempt number the next retry gets, or `None` when the attempts are
/// exhausted and the job is dropped.
pub fn next_retry_attempt(current_attempts: i64, max_attempts: i64) -> (r: Option<i64>)
    requires
        current_attempts < i64::MAX,
    ensures
        match r {
            Some(a) => a == current_attempts + 1 && a <= max_attempts,
            None => current_attempts + 1 > max_attempts,
        },
{
    let attempts = current_attempts + 1;
    if attempts > max_attempts {
        None
    } else {
        Some(attempts)
    }
}

/// What a failed run makes of a session's stored retry job, given by its
/// attempt count (`None` when there is no job, which counts as none made):
/// the job with one more attempt, or no job once that would pass the maximum.
pub open spec fn job_after_failure(stored: Option<int>, max_attempts: int) -> Option<int> {
    let current = match stored {
        Some(a) => a,
        None => 0,
    };
    if current + 1 > max_attempts {
        None
    } else {
        Some(current + 1)
    }
}

pub open spec fn opt_int(o: Option<i64>) -> Option<int> {
    match o {
        Some(a) => Some(a as int),
        None => None,
    }
}

/// The retry job after one more failure (see [`job_after_failure`]): the
/// attempt it is scheduled as, or `None` when it is dropped.
pub fn schedule_attempt(stored: Option<i64>, max_attempts: i64) -> (r: Option<i64>)
    requires
        stored != Some(i64::MAX),
    ensures
        opt_int(r) == job_after_failure(opt_int(stored), max_attempts as int),
{
    let current = match stored {
        Some(a) => a,
        None => 0,
    };
    next_retry_attempt(current, max_attempts)
}

/// The stored job after `failures` failures in a row, starting with none.
pub open spec fn job_after_failures(max_attempts: int, failures: nat) -> Option<int>
    decreases failures,
{
    if failures == 0 {
        None
    } else {
        job_after_failure(job_after_failures(max_attempts, (failures - 1) as nat), max_attempts)
    }
}

/// Successive failures of a session with no job schedule attempts 1, 2, ...
/// up to the maximum; the next failure drops the job, and one more starts
/// again at attempt 1.
pub proof fn lemma_retries_stop_after_max(max_attempts: int, failures: nat)
    requires
        0 <= max_attempts,
        1 <= failures <= max_attempts + 1,
    ensures
        failures <= max_attempts ==> job_after_failures(max_attempts, failures) == Some(failures as int),
        failures == max_attempts + 1 ==> job_after_failures(max_attempts, failures) is None,
        failures == max_attempts + 1 && max_attempts >= 1 ==> job_after_failures(
            max_attempts,
            failures + 1,
        ) == Some(1int),
    decreases failures,
{
    if failures > 1 {
        lemma_retries_stop_after_max(max_attempts, (failures - 1) as nat);
    }
    assert(job_after_failures(max_attempts, 0) is None);
    assert(job_after_failures(max_attempts, failures) == job_after_failure(
        job_after_failures(max_attempts, (failures - 1) as nat),
        max_attempts,
    ));
    assert(job_after_failures(max_attempts, (failures + 1) as nat) == job_after_failure(
        job_after_failures(max_attempts, failures),
        max_attempts,
    ));
}

/// When the retry should run, given the current time in seconds.
pub fn next_run_epoch(now_epoch: i64, attempts: i64) -> (r: i64)
    requires
        now_epoch <= i64::MAX - 1800,
    ensures
        r == now_epoch + retry_delay(attempts as int),
{
    now_epoch + retry_delay_seconds(attempts)
}

/// Location of the catalog database inside the application data directory.
pub fn db_path(app_data_dir: &str) -> (r: String)
    ensures
        r@ == paths::join(app_data_dir@, "bigecho.sqlite3"@),
{
    paths::join_path(app_data_dir, "bigecho.sqlite3")
}

/// The trimmed prompt name, which must not be empty.
pub fn checked_prompt_name(name: &str) -> (r: Result<String, String>)
    ensures
        match r {
            Ok(n) => n@ == text::trim(name@) && n@.len() > 0,
            Err(e) => e@ == "Prompt name is required"@ && text::trim(name@).len() == 0,
        },
{
    let n = trim_string(name);
    if n.as_str().unicode_len() == 0 {
        Err("Prompt name is required".to_string())
    } else {
        Ok(n)
    }
}

/// The trimmed prompt name and text of an upsert, both required.
pub fn checked_prompt_upsert(name: &str, prompt: &str) -> (r: Result<(String, String), String>)
    ensures
        match r {
            Ok((n, p)) => n@ == text::trim(name@) && p@ == text::trim(prompt@) && n@.len() > 0
                && p@.len() > 0,
            Err(e) => (text::trim(name@).len() == 0 && e@ == "Prompt name is required"@) || (
            text::trim(name@).len() > 0 && text::trim(prompt@).len() == 0 && e@
                == "Prompt text is required"@),
        },
{
    let n = checked_prompt_name(name)?;
    let p = trim_string(prompt);
    if p.as_str().unicode_len() == 0 {
        return Err("Prompt text is required".to_string());
    }
    Ok((n, p))
}

/// The refusal to delete a prompt that sessions still use.
pub fn prompt_in_use_error(used_count: u64, name: &str) -> (e: String)
    ensures
        e@ == "Summary prompt is used by "@ + text::decimal(used_count as nat) + " session(s): "@
            + name@,
{
    let mut e = "Summary prompt is used by ".to_string();
    e.append(decimal_string(used_count).as_str());
    e.append(" session(s): ");
    e.append(name);
    e
}

/// The refusal for a prompt that does not exist.
pub fn prompt_not_found_error(name: &str) -> (e: String)
    ensures
        e@ == "Summary prompt not found: "@ + name@,
{
    let mut e = "Summary prompt not found: ".to_string();
    e.append(name);
    e
}

/// A transcript counts as present once the session is past recording.
pub open spec fn shows_transcript(status: SessionStatus, file_has_text: bool) -> bool {
    file_has_text && !(status == SessionStatus::Recording || status == SessionStatus::Recorded)
}

/// A summary counts as present once the session has been summarised.
pub open spec fn shows_summary(status: SessionStatus, file_has_text: bool) -> bool {
    file_has_text && (status == SessionStatus::Summarized || status == SessionStatus::Done)
}

fn clone_strings(v: &Vec<String>) -> (r: Vec<String>)
    ensures
        paths::string_views(r@) == paths::string_views(v@),
{
    let mut out: Vec<String> = Vec::new();
    let mut i: usize = 0;
    while i < v.len()
        invariant
            i <= v@.len(),
            out@.len() == i,
            forall|j: int| 0 <= j < i ==> #[trigger] out@[j]@ == v@[j]@,
        decreases v@.len() - i,
    {
        out.push(v[i].clone());
        i = i + 1;
    }
    assert(paths::string_views(out@) =~= paths::string_views(v@));
    out
}

/// Fills the fields of a list row that come from the session's metadata and
/// files: the caller reports whether the transcript and summary files hold text.
pub fn enrich_list_item(
    item: &mut SessionListItem,
    meta: &SessionMeta,
    transcript_has_text: bool,
    summary_has_text: bool,
)
    ensures
        final(item).audio_file@ == meta.artifacts.audio_file@,
        final(item).audio_format@ == file_audio_format(meta.artifacts.audio_file@),
        final(item).audio_duration_hms@ == duration_hms(
            meta.started_at_iso@,
            match meta.ended_at_iso {
                Some(e) => Some(e@),
                None => None,
            },
        ),
        final(item).has_transcript_text == shows_transcript(meta.status, transcript_has_text),
        final(item).has_summary_text == shows_summary(meta.status, summary_has_text),
        final(item).meta matches Some(m) && m.session_id@ == meta.session_id@ && m.source@
            == meta.source@ && m.notes@ == meta.notes@ && m.custom_summary_prompt@
            == meta.custom_summary_prompt@ && m.custom_summary_prompt_name@
            == meta.custom_summary_prompt_name@ && m.topic@ == meta.topic@ && paths::string_views(
            m.tags@,
        ) == paths::string_views(meta.tags@) && m.num_speakers == meta.num_speakers,
        final(item).session_id == old(item).session_id,
        final(item).status == old(item).status,
        final(item).brain_upload_status == old(item).brain_upload_status,
{
    item.audio_file = meta.artifacts.audio_file.clone();
    item.audio_format = audio_format_from_file_name(meta.artifacts.audio_file.as_str());
    item.audio_duration_hms = audio_duration_hms(meta);
    item.has_transcript_text = transcript_has_text && !(meta.status == SessionStatus::Recording
        || meta.status == SessionStatus::Recorded);
    item.has_summary_text = summary_has_text && (meta.status == SessionStatus::Summarized
        || meta.status == SessionStatus::Done);
    item.meta = Some(
        SessionListMeta {
            session_id: meta.session_id.clone(),
            source: meta.source.clone(),
            notes: meta.notes.clone(),
            custom_summary_prompt: meta.custom_summary_prompt.clone(),
            custom_summary_prompt_name: meta.custom_summary_prompt_name.clone(),
            topic: meta.topic.clone(),
            tags: clone_strings(&meta.tags),
            num_speakers: meta.num_speakers,
        },
    );
}

/// Copies the derived Brain upload state into a list row.
pub fn apply_upload_state(item: &mut SessionListItem, state: &BrainUploadState)
    ensures
        final(item).brain_upload_status == state.status,
        final(item).brain_server_ingested_once == state.server_ingested_once,
        opt_view(final(item).brain_upload_last_error) == opt_view(state.last_error),
        opt_view(final(item).brain_upload_updated_at_iso) == opt_view(state.updated_at_iso),
        final(item).session_id == old(item).session_id,
{
    item.brain_upload_status = state.status;
    item.brain_server_ingested_once = state.server_ingested_once;
    item.brain_upload_last_error = clone_opt(&state.last_error);
    item.brain_upload_updated_at_iso = clone_opt(&state.updated_at_iso);
}

/// A summary is listed as present exactly when its file holds text and the
/// session has been summarised: finished (`Done`) sessions show it just as
/// `Summarized` ones do, earlier or failed sessions never do, and a listed
/// summary always comes with a listed transcript when that file holds text.
pub proof fn lemma_summary_shown_once_summarised(status: SessionStatus, file_has_text: bool)
    ensures
        shows_summary(SessionStatus::Done, file_has_text) == file_has_text,
        shows_summary(SessionStatus::Summarized, file_has_text) == file_has_text,
        shows_summary(SessionStatus::Done, file_has_text) == shows_summary(SessionStatus::Summarized, file_has_text),
        !shows_summary(SessionStatus::Recording, file_has_text),
        !shows_summary(SessionStatus::Recorded, file_has_text),
        !shows_summary(SessionStatus::Transcribed, file_has_text),
        !shows_summary(SessionStatus::Failed, file_has_text),
        shows_summary(status, file_has_text) ==> shows_transcript(status, true),
{
}

} // verus!

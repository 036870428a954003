//! What the session commands decide before and after touching the disk:
//! the shared UI state, which artifact a request names, how imported audio
//! is filed, artifact search, and when a session may be deleted.
use crate::audio::{spec_to_lowercase, to_lowercase, RecordingMuteState, SharedRecordingControl};
use crate::paths;
use crate::catalog::spec_rfc3339_instant;
use crate::session::{dashed_time, format_ru_date, format_time_part, ru_date, SessionMeta};
use crate::text::{self, ascii_lowercase, decimal_string, is_blank, str_contains, str_eq, to_owned_string, trim_str, trim_string};
use vstd::prelude::*;

verus! {

broadcast use vstd::string::group_string_axioms;

/// Where the application keeps its data.
pub struct AppDirs {
    pub app_data_dir: String,
}

/// The source and topic the recording windows share.
pub struct UiSyncState {
    pub source: String,
    pub topic: String,
}

impl UiSyncState {
    pub fn default() -> (s: Self)
        ensures
            s.source@ == "slack"@,
            s.topic@ == Seq::<char>::empty(),
    {
        UiSyncState { source: "slack".to_string(), topic: String::new() }
    }
}

/// Takes a source (unless blank, then the old one stays; kept trimmed) and a
/// topic (as given) from a window.
pub fn set_ui_sync_state(ui: &mut UiSyncState, source: &str, topic: String)
    ensures
        final(ui).source@ == (if text::trim(source@).len() == 0 {
            old(ui).source@
        } else {
            text::trim(source@)
        }),
        final(ui).topic@ == topic@,
{
    if !is_blank(source) {
        ui.source = trim_string(source);
    }
    ui.topic = topic;
}

/// What the windows are shown of the shared state.
pub struct UiSyncStateView {
    pub source: String,
    pub topic: String,
    pub is_recording: bool,
    pub active_session_id: Option<String>,
    pub mute_state: RecordingMuteState,
}

pub fn build_ui_sync_state_view(
    ui: &UiSyncState,
    active_session: Option<&SessionMeta>,
    control: &SharedRecordingControl,
) -> (v: UiSyncStateView)
    ensures
        v.source@ == ui.source@,
        v.topic@ == ui.topic@,
        v.is_recording == active_session is Some,
        match active_session {
            Some(m) => v.active_session_id matches Some(id) && id@ == m.session_id@,
            None => v.active_session_id is None,
        },
        v.mute_state == control.state(),
{
    UiSyncStateView {
        source: ui.source.clone(),
        topic: ui.topic.clone(),
        is_recording: active_session.is_some(),
        active_session_id: match active_session {
            Some(m) => Some(m.session_id.clone()),
            None => None,
        },
        mute_state: control.snapshot(),
    }
}

/// A request to start recording.
pub struct StartRecordingRequest {
    pub source: String,
    pub topic: String,
    pub tags: Vec<String>,
    pub notes: String,
}

/// The answer to a started (or imported) recording.
pub struct StartRecordingResponse {
    pub session_id: String,
    pub session_dir: String,
    pub status: String,
}

/// A request to change a session's details.
pub struct UpdateSessionDetailsRequest {
    pub session_id: String,
    pub source: String,
    pub notes: String,
    pub custom_summary_prompt: String,
    pub topic: String,
    pub tags: Vec<String>,
}

/// A session's details as the edit form shows them.
pub struct SessionMetaView {
    pub session_id: String,
    pub source: String,
    pub notes: String,
    pub custom_summary_prompt: String,
    pub topic: String,
    pub tags: Vec<String>,
}

/// Which artifact file a request names.
pub open spec fn artifact_file(meta: SessionMeta, kind: Seq<char>) -> Option<Seq<char>> {
    if kind == "transcript"@ {
        Some(meta.artifacts.transcript_file@)
    } else if kind == "summary"@ {
        Some(meta.artifacts.summary_file@)
    } else {
        None
    }
}

/// The path of a session's transcript or summary.
pub fn resolve_artifact_path(session_dir: &str, meta: &SessionMeta, artifact_kind: &str) -> (r:
    Result<String, String>)
    ensures
        match artifact_file(*meta, artifact_kind@) {
            Some(f) => r matches Ok(p) && p@ == paths::join(session_dir@, f),
            None => r matches Err(e) && e@ == "Unsupported artifact kind"@,
        },
{
    if str_eq(artifact_kind, "transcript") {
        Ok(paths::join_path(session_dir, meta.artifacts.transcript_file.as_str()))
    } else if str_eq(artifact_kind, "summary") {
        Ok(paths::join_path(session_dir, meta.artifacts.summary_file.as_str()))
    } else {
        Err("Unsupported artifact kind".to_string())
    }
}

/// The audio formats that can be imported.
pub open spec fn importable(ext: Seq<char>) -> bool {
    ext == "opus"@ || ext == "mp3"@ || ext == "m4a"@ || ext == "ogg"@ || ext == "wav"@
}

/// The trimmed, lowercased extension of an audio file to import, when it is
/// one of the supported formats.
pub open spec fn import_extension(path: Seq<char>) -> Option<Seq<char>> {
    match paths::extension(path) {
        Some(e) => {
            let x = text::ascii_lower_seq(text::trim(e));
            if x.len() > 0 && importable(x) {
                Some(x)
            } else {
                None
            }
        },
        None => None,
    }
}

pub fn supported_audio_extension(path: &str) -> (r: Result<String, String>)
    ensures
        match import_extension(path@) {
            Some(x) => r matches Ok(e) && e@ == x,
            None => r matches Err(e) && e@ == "Unsupported audio file"@,
        },
{
    let ext = match paths::extension_of(path) {
        Some(e) => ascii_lowercase(trim_str(e.as_str())),
        None => return Err("Unsupported audio file".to_string()),
    };
    let e = ext.as_str();
    if e.unicode_len() > 0 && (str_eq(e, "opus") || str_eq(e, "mp3") || str_eq(e, "m4a") || str_eq(
        e,
        "ogg",
    ) || str_eq(e, "wav")) {
        Ok(ext)
    } else {
        Err("Unsupported audio file".to_string())
    }
}

/// The topic of an imported recording: its file's trimmed stem, or
/// `Imported audio`.
pub open spec fn imported_topic(path: Seq<char>) -> Seq<char> {
    match paths::file_stem(path) {
        Some(s) => if text::trim(s).len() > 0 {
            text::trim(s)
        } else {
            "Imported audio"@
        },
        None => "Imported audio"@,
    }
}

pub fn imported_topic_from_path(path: &str) -> (r: String)
    ensures
        r@ == imported_topic(path@),
{
    match paths::file_stem_of(path) {
        Some(s) => {
            let t = trim_string(s.as_str());
            if t.as_str().unicode_len() > 0 {
                t
            } else {
                "Imported audio".to_string()
            }
        },
        None => "Imported audio".to_string(),
    }
}

/// The audio file name of an imported recording.
pub fn imported_audio_file_name(extension: &str) -> (r: String)
    ensures
        r@ == "audio."@ + extension@,
{
    let mut r = "audio.".to_string();
    r.append(extension);
    r
}

/// The local date and time of day of an RFC 3339 instant: day, month,
/// year, hour, minute, second and nanosecond, or the parser's error.
///
/// Wraps `chrono::DateTime::parse_from_rfc3339`, `with_timezone(&Local)` and
/// the `Datelike` and `Timelike` accessors. The local values depend on the
/// machine's time zone, so only their ranges are stated, as chrono documents
/// them (a leap second shows as a nanosecond of a billion or more); the error
/// comes exactly when the text does not parse, and its text is not stated.
#[verifier::external_body]
fn local_date_time(iso: &str) -> (r: Result<(u32, u32, i32, u32, u32, u32, u32), String>)
    ensures
        r is Ok <==> spec_rfc3339_instant(iso@) is Some,
        r matches Ok((day, month, _year, hour, minute, second, nanos)) ==> 1 <= day <= 31 && 1 <= month <= 12
            && hour < 24 && minute < 60 && second < 60 && nanos < 2_000_000_000,
{
    match chrono::DateTime::parse_from_rfc3339(iso) {
        Ok(t) => {
            let at = t.with_timezone(&chrono::Local);
            Ok((
                chrono::Datelike::day(&at),
                chrono::Datelike::month(&at),
                chrono::Datelike::year(&at),
                chrono::Timelike::hour(&at),
                chrono::Timelike::minute(&at),
                chrono::Timelike::second(&at),
                chrono::Timelike::nanosecond(&at),
            ))
        },
        Err(e) => Err(e.to_string()),
    }
}

/// The parts a session directory is named by: its start's local date
/// (`dd.mm.yyyy`) and time of day (`HH-MM-SS`, a leap second counted as 60),
/// or an error exactly when the start does not parse.
pub fn session_date_time_parts(started_at_iso: &str) -> (r: Result<(String, String), String>)
    ensures
        r is Ok <==> spec_rfc3339_instant(started_at_iso@) is Some,
        r matches Ok((date, time)) ==> (exists|day: int, month: int, year: int|
            1 <= day <= 31 && 1 <= month <= 12 && #[trigger] ru_date(day, month, year) == date@) && (exists|
            hour: int,
            minute: int,
            second: int,
        | 0 <= hour < 24 && 0 <= minute < 60 && 0 <= second <= 60 && #[trigger] dashed_time(hour, minute, second) == time@),
{
    match local_date_time(started_at_iso) {
        Ok((day, month, year, hour, minute, second, nanos)) => {
            let shown_second = second + nanos / 1_000_000_000;
            let date = format_ru_date(day, month, year);
            let time = format_time_part(hour, minute, shown_second);
            assert(ru_date(day as int, month as int, year as int) == date@);
            assert(dashed_time(hour as int, minute as int, shown_second as int) == time@);
            Ok((date, time))
        },
        Err(e) => Err(e),
    }
}

/// A session directory below the recording root: the date, then
/// `meeting_` and the time.
pub fn session_relative_dir(date_part: &str, time_part: &str) -> (r: String)
    ensures
        r@ == paths::join(date_part@, "meeting_"@ + time_part@),
{
    let mut name = "meeting_".to_string();
    name.append(time_part);
    paths::join_path(date_part, name.as_str())
}

pub fn transcript_name(date_part: &str) -> (r: String)
    ensures
        r@ == "transcript_"@ + date_part@ + ".txt"@,
{
    let mut r = "transcript_".to_string();
    r.append(date_part);
    r.append(".txt");
    r
}

pub fn summary_name(date_part: &str) -> (r: String)
    ensures
        r@ == "summary_"@ + date_part@ + ".md"@,
{
    let mut r = "summary_".to_string();
    r.append(date_part);
    r.append(".md");
    r
}

/// The `n`-th alternative name of a session directory that exists already.
pub fn numbered_dir_name(stem: &str, n: u64) -> (r: String)
    ensures
        r@ == stem@ + "_"@ + text::decimal(n as nat),
{
    let mut r = stem.to_string();
    r.append("_");
    r.append(decimal_string(n).as_str());
    r
}

/// Whether an artifact search found the query in a session's files.
pub struct SessionArtifactSearchHit {
    pub transcript_match: bool,
    pub summary_match: bool,
}

/// An artifact read for display.
pub struct SessionArtifactReadResponse {
    pub path: String,
    pub text: String,
}

/// The query an artifact search runs with: trimmed and lowercased.
pub fn search_query(query: &str) -> (r: String)
    ensures
        r@ == spec_to_lowercase(text::trim(query@)),
{
    to_lowercase(trim_str(query))
}

/// A file's content matches a (lowercased) query when, lowercased, it
/// contains the query lowercased again; an empty query matches nothing.
pub open spec fn content_matches(content: Seq<char>, query_lower: Seq<char>) -> bool {
    query_lower.len() > 0 && text::contains_seq(
        spec_to_lowercase(content),
        spec_to_lowercase(query_lower),
    )
}

pub fn content_matches_query(content: &str, query_lower: &str) -> (b: bool)
    ensures
        b == content_matches(content@, query_lower@),
{
    if query_lower.unicode_len() == 0 {
        return false;
    }
    let q = to_lowercase(query_lower);
    let c = to_lowercase(content);
    str_contains(c.as_str(), q.as_str())
}

/// The search result of one session from what its two files hold (`None`
/// for a file that is missing or unreadable).
pub fn search_hit(
    transcript: Option<&str>,
    summary: Option<&str>,
    query_lower: &str,
) -> (h: SessionArtifactSearchHit)
    ensures
        h.transcript_match == (match transcript {
            Some(t) => content_matches(t@, query_lower@),
            None => false,
        }),
        h.summary_match == (match summary {
            Some(s) => content_matches(s@, query_lower@),
            None => false,
        }),
{
    SessionArtifactSearchHit {
        transcript_match: match transcript {
            Some(t) => content_matches_query(t, query_lower),
            None => false,
        },
        summary_match: match summary {
            Some(s) => content_matches_query(s, query_lower),
            None => false,
        },
    }
}

/// Whether a session may be deleted: the session being recorded only with
/// `force`, and then its capture is stopped first (`Ok(true)`).
pub fn delete_check(active_session_id: Option<&str>, session_id: &str, force: Option<bool>) -> (r:
    Result<bool, String>)
    ensures
        match active_session_id {
            Some(a) if a@ == session_id@ => if force == Some(true) {
                r == Ok::<bool, String>(true)
            } else {
                r matches Err(e) && e@ == "Cannot delete active recording session"@
            },
            _ => r == Ok::<bool, String>(false),
        },
{
    let force_delete = match force {
        Some(f) => f,
        None => false,
    };
    match active_session_id {
        Some(a) => {
            if str_eq(a, session_id) {
                if !force_delete {
                    return Err("Cannot delete active recording session".to_string());
                }
                Ok(true)
            } else {
                Ok(false)
            }
        },
        None => Ok(false),
    }
}

/// The non-blank entries of a list, trimmed, in order.
pub open spec fn trimmed_entries(v: Seq<Seq<char>>) -> Seq<Seq<char>>
    decreases v.len(),
{
    if v.len() == 0 {
        seq![]
    } else {
        let rest = trimmed_entries(v.drop_last());
        if text::trim(v.last()).len() == 0 {
            rest
        } else {
            rest.push(text::trim(v.last()))
        }
    }
}

fn trimmed_list(v: &Vec<String>) -> (r: Vec<String>)
    ensures
        paths::string_views(r@) == trimmed_entries(paths::string_views(v@)),
{
    let ghost sv = paths::string_views(v@);
    let mut out: Vec<String> = Vec::new();
    let mut i: usize = 0;
    while i < v.len()
        invariant
            i <= v@.len(),
            sv == paths::string_views(v@),
            paths::string_views(out@) == trimmed_entries(sv.subrange(0, i as int)),
        decreases v@.len() - i,
    {
        let ghost before = paths::string_views(out@);
        proof {
            assert(sv.subrange(0, i + 1).drop_last() =~= sv.subrange(0, i as int));
            assert(sv.subrange(0, i + 1).last() == v@[i as int]@);
        }
        let t = trim_string(v[i].as_str());
        if t.as_str().unicode_len() > 0 {
            let ghost tv = t@;
            out.push(t);
            proof {
                assert(paths::string_views(out@) =~= before.push(tv));
            }
        }
        i = i + 1;
    }
    proof {
        assert(sv.subrange(0, v@.len() as int) =~= sv);
    }
    out
}

/// Applies an edit of a session's details: a blank source keeps the
/// session's primary tag, otherwise the trimmed source becomes both source
/// and primary tag; topic and summary prompt are trimmed; blank tags are
/// dropped and the others trimmed; the notes are taken as given.
pub fn apply_session_details(meta: &mut SessionMeta, request: &UpdateSessionDetailsRequest)
    ensures
        final(meta).source@ == (if text::trim(request.source@).len() == 0 {
            old(meta).primary_tag@
        } else {
            text::trim(request.source@)
        }),
        final(meta).primary_tag@ == final(meta).source@,
        final(meta).topic@ == text::trim(request.topic@),
        final(meta).custom_summary_prompt@ == text::trim(request.custom_summary_prompt@),
        paths::string_views(final(meta).tags@) == trimmed_entries(paths::string_views(request.tags@)),
        final(meta).notes@ == request.notes@,
        final(meta).session_id == old(meta).session_id,
        final(meta).status == old(meta).status,
        final(meta).artifacts == old(meta).artifacts,
{
    let source = if is_blank(request.source.as_str()) {
        meta.primary_tag.clone()
    } else {
        trim_string(request.source.as_str())
    };
    meta.primary_tag = source.clone();
    meta.source = source;
    meta.topic = trim_string(request.topic.as_str());
    meta.custom_summary_prompt = trim_string(request.custom_summary_prompt.as_str());
    meta.tags = trimmed_list(&request.tags);
    meta.notes = request.notes.clone();
}

/// A session's details as the edit form shows them.
pub fn session_meta_view(meta: &SessionMeta) -> (v: SessionMetaView)
    ensures
        v.session_id@ == meta.session_id@,
        v.source@ == meta.source@,
        v.notes@ == meta.notes@,
        v.custom_summary_prompt@ == meta.custom_summary_prompt@,
        v.topic@ == meta.topic@,
        paths::string_views(v.tags@) == paths::string_views(meta.tags@),
{
    let mut tags: Vec<String> = Vec::new();
    let mut i: usize = 0;
    while i < meta.tags.len()
        invariant
            i <= meta.tags@.len(),
            tags@.len() == i,
            forall|j: int| 0 <= j < i ==> #[trigger] tags@[j]@ == meta.tags@[j]@,
        decreases meta.tags@.len() - i,
    {
        tags.push(meta.tags[i].clone());
        i = i + 1;
    }
    assert(paths::string_views(tags@) =~= paths::string_views(meta.tags@));
    SessionMetaView {
        session_id: meta.session_id.clone(),
        source: meta.source.clone(),
        notes: meta.notes.clone(),
        custom_summary_prompt: meta.custom_summary_prompt.clone(),
        topic: meta.topic.clone(),
        tags,
    }
}

/// A program to run and its arguments.
pub struct OpenCommand {
    pub program: String,
    pub args: Vec<String>,
}

pub open spec fn command_is(c: OpenCommand, program: Seq<char>, args: Seq<Seq<char>>) -> bool {
    c.program@ == program && paths::string_views(c.args@) == args
}

/// How a path is opened: with the chosen application when one is named
/// (`open -a` on macOS, the application itself elsewhere), else with the
/// platform's file manager; a blank path is refused.
pub fn open_command(target: &str, preferred_app: Option<&str>, os: &str) -> (r: Result<OpenCommand, String>)
    ensures
        text::trim(target@).len() == 0 ==> (r matches Err(e) && e@ == "Path is empty"@),
        text::trim(target@).len() > 0 ==> (r matches Ok(c) && {
            let t = text::trim(target@);
            match preferred_app {
                Some(app) if text::trim(app@).len() > 0 => if os@ == "macos"@ {
                    command_is(c, "open"@, seq!["-a"@, text::trim(app@), t])
                } else {
                    command_is(c, text::trim(app@), seq![t])
                },
                _ => if os@ == "macos"@ {
                    command_is(c, "open"@, seq![t])
                } else if os@ == "windows"@ {
                    command_is(c, "explorer"@, seq![t])
                } else {
                    command_is(c, "xdg-open"@, seq![t])
                },
            }
        }),
{
    let t = trim_str(target);
    if t.unicode_len() == 0 {
        return Err("Path is empty".to_string());
    }
    let app = match preferred_app {
        Some(a) => {
            let x = trim_str(a);
            if x.unicode_len() > 0 {
                Some(x)
            } else {
                None
            }
        },
        None => None,
    };
    let mut args: Vec<String> = Vec::new();
    let program = match app {
        Some(a) => {
            if str_eq(os, "macos") {
                args.push("-a".to_string());
                args.push(a.to_string());
                args.push(t.to_string());
                "open".to_string()
            } else {
                args.push(t.to_string());
                a.to_string()
            }
        },
        None => {
            args.push(t.to_string());
            if str_eq(os, "macos") {
                "open".to_string()
            } else if str_eq(os, "windows") {
                "explorer".to_string()
            } else {
                "xdg-open".to_string()
            }
        },
    };
    proof {
        if app is Some && os@ == "macos"@ {
            assert(paths::string_views(args@) =~= seq!["-a"@, app->0@, t@]);
        } else {
            assert(paths::string_views(args@) =~= seq![t@]);
        }
    }
    Ok(OpenCommand { program, args })
}

/// The error of an opener that exited unsuccessfully.
pub fn open_failure_message(with_preferred_app: bool, exit_status: &str) -> (r: String)
    ensures
        r@ == (if with_preferred_app {
            "failed to open path with preferred app: exit status "@ + exit_status@
        } else {
            "failed to open session folder: exit status "@ + exit_status@
        }),
{
    let mut r = if with_preferred_app {
        "failed to open path with preferred app: exit status ".to_string()
    } else {
        "failed to open session folder: exit status ".to_string()
    };
    r.append(exit_status);
    r
}

} // verus!

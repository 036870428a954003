//! Session metadata: the record kept in `meta.json` for every recording, the
//! status transitions the pipeline applies to it, and the repairs applied to
//! records written by older versions.
use crate::paths;
use crate::text::{self, chars_of, eq_ignore_ascii_case, str_eq, string_from_chars, to_owned_string, trim_str, trim_string};
use vstd::prelude::*;

verus! {

broadcast use vstd::string::group_string_axioms;

/// Lifecycle of a recording session.
#[derive(Clone, Copy, Debug, PartialEq, Eq, Structural)]
pub enum SessionStatus {
    Recording,
    Recorded,
    Transcribed,
    Summarized,
    Done,
    Failed,
}

impl SessionStatus {
    /// The lowercase name under which the status is stored.
    pub fn as_str(&self) -> (s: &'static str)
        ensures
            s@ == status_name(*self),
    {
        match self {
            SessionStatus::Recording => "recording",
            SessionStatus::Recorded => "recorded",
            SessionStatus::Transcribed => "transcribed",
            SessionStatus::Summarized => "summarized",
            SessionStatus::Done => "done",
            SessionStatus::Failed => "failed",
        }
    }
}

pub open spec fn status_name(s: SessionStatus) -> Seq<char> {
    match s {
        SessionStatus::Recording => "recording"@,
        SessionStatus::Recorded => "recorded"@,
        SessionStatus::Transcribed => "transcribed"@,
        SessionStatus::Summarized => "summarized"@,
        SessionStatus::Done => "done"@,
        SessionStatus::Failed => "failed"@,
    }
}

/// File names of everything a session directory holds.
///
/// `audio_speed_multiplier_bits` carries the IEEE-754 bit pattern of the
/// optional playback-speed multiplier, so the record itself stays free of
/// floating-point values.
pub struct SessionArtifacts {
    pub audio_file: String,
    pub speed_adjusted_audio_file: String,
    pub audio_speed_multiplier_bits: Option<u32>,
    pub transcript_file: String,
    pub summary_file: String,
    pub meta_file: String,
    pub tasks_sync_file: String,
}

impl SessionArtifacts {
    pub fn default() -> (a: Self)
        ensures
            a.audio_file@ == "audio.opus"@,
            a.speed_adjusted_audio_file@ == Seq::<char>::empty(),
            a.audio_speed_multiplier_bits is None,
            a.transcript_file@ == "transcript.md"@,
            a.summary_file@ == "summary.md"@,
            a.meta_file@ == "meta.json"@,
            a.tasks_sync_file@ == default_tasks_sync_file_name(),
    {
        SessionArtifacts {
            audio_file: "audio.opus".to_string(),
            speed_adjusted_audio_file: String::new(),
            audio_speed_multiplier_bits: None,
            transcript_file: "transcript.md".to_string(),
            summary_file: "summary.md".to_string(),
            meta_file: "meta.json".to_string(),
            tasks_sync_file: default_tasks_sync_file(),
        }
    }

    pub fn clone_artifacts(&self) -> (c: Self)
        ensures
            c == *self,
    {
        SessionArtifacts {
            audio_file: self.audio_file.clone(),
            speed_adjusted_audio_file: self.speed_adjusted_audio_file.clone(),
            audio_speed_multiplier_bits: self.audio_speed_multiplier_bits,
            transcript_file: self.transcript_file.clone(),
            summary_file: self.summary_file.clone(),
            meta_file: self.meta_file.clone(),
            tasks_sync_file: self.tasks_sync_file.clone(),
        }
    }
}

pub open spec fn default_tasks_sync_file_name() -> Seq<char> {
    "tasks_sync.json"@
}

/// Name of the task-sync file of sessions that do not record one.
pub fn default_tasks_sync_file() -> (s: String)
    ensures
        s@ == default_tasks_sync_file_name(),
{
    "tasks_sync.json".to_string()
}

/// The metadata record of one session.
pub struct SessionMeta {
    pub session_id: String,
    pub created_at_iso: String,
    pub started_at_iso: String,
    pub ended_at_iso: Option<String>,
    pub display_date_ru: String,
    pub source: String,
    pub primary_tag: String,
    pub tags: Vec<String>,
    pub notes: String,
    pub topic: String,
    pub custom_summary_prompt: String,
    pub custom_summary_prompt_name: String,
    pub num_speakers: Option<u32>,
    pub status: SessionStatus,
    pub artifacts: SessionArtifacts,
    pub errors: Vec<String>,
}

/// The source a new session is filed under: the trimmed input, or `general`.
pub open spec fn effective_source(source: Seq<char>) -> Seq<char> {
    if text::trim(source).len() == 0 {
        "general"@
    } else {
        text::trim(source)
    }
}

/// The calendar date `(year, month, day)` written at the head of an RFC 3339
/// text whose year has four digits (`YYYY-MM-DD...`), or `None`.
pub open spec fn rfc3339_date(s: Seq<char>) -> Option<(int, int, int)> {
    if s.len() >= 10 && s[4] == '-' && s[7] == '-' && is_digit(s[0]) && is_digit(s[1]) && is_digit(s[2])
        && is_digit(s[3]) && is_digit(s[5]) && is_digit(s[6]) && is_digit(s[8]) && is_digit(s[9]) {
        Some(
            (
                digit_value(s[0]) * 1000 + digit_value(s[1]) * 100 + digit_value(s[2]) * 10 + digit_value(
                    s[3],
                ),
                digit_value(s[5]) * 10 + digit_value(s[6]),
                digit_value(s[8]) * 10 + digit_value(s[9]),
            ),
        )
    } else {
        None
    }
}

pub open spec fn is_digit(c: char) -> bool {
    '0' <= c <= '9'
}

pub open spec fn digit_value(c: char) -> int {
    (c as int) - ('0' as int)
}

/// A year as `%Y` writes it: four zero-padded digits for years 0 to 9999,
/// otherwise a sign and at least four digits.
pub open spec fn year_text(year: int) -> Seq<char> {
    if 0 <= year <= 9999 {
        text::zero_padded(year as nat, 4)
    } else if year < 0 {
        seq!['-'] + text::zero_padded((-year) as nat, 4)
    } else {
        seq!['+'] + text::zero_padded(year as nat, 4)
    }
}

/// The display date of a session: `dd.mm.yyyy`.
pub open spec fn ru_date(day: int, month: int, year: int) -> Seq<char> {
    text::zero_padded(day as nat, 2) + "."@ + text::zero_padded(month as nat, 2) + "."@ + year_text(year)
}

/// The time of day as a session directory names it: `HH-MM-SS`.
pub open spec fn dashed_time(hour: int, minute: int, second: int) -> Seq<char> {
    text::zero_padded(hour as nat, 2) + "-"@ + text::zero_padded(minute as nat, 2) + "-"@
        + text::zero_padded(second as nat, 2)
}

/// The date of a session as it is shown and stored: `dd.mm.yyyy`.
pub fn format_ru_date(day: u32, month: u32, year: i32) -> (r: String)
    ensures
        r@ == ru_date(day as int, month as int, year as int),
{
    let mut s = text::zero_padded_string(day as u64, 2);
    s.append(".");
    s.append(text::zero_padded_string(month as u64, 2).as_str());
    s.append(".");
    if 0 <= year && year <= 9999 {
        s.append(text::zero_padded_string(year as u64, 4).as_str());
    } else if year < 0 {
        let magnitude: i64 = -(year as i64);
        s.append("-");
        s.append(text::zero_padded_string(magnitude as u64, 4).as_str());
    } else {
        s.append("+");
        s.append(text::zero_padded_string(year as u64, 4).as_str());
    }
    proof {
        reveal_strlit(".");
        reveal_strlit("-");
        reveal_strlit("+");
    }
    s
}

/// The time of day as a session directory names it: `HH-MM-SS`.
pub fn format_time_part(hour: u32, minute: u32, second: u32) -> (r: String)
    ensures
        r@ == dashed_time(hour as int, minute as int, second as int),
{
    let mut s = text::zero_padded_string(hour as u64, 2);
    s.append("-");
    s.append(text::zero_padded_string(minute as u64, 2).as_str());
    s.append("-");
    s.append(text::zero_padded_string(second as u64, 2).as_str());
    s
}

/// Current local time: its RFC 3339 text, and the day, month and year of its
/// local date.
///
/// Wraps `chrono::Local::now` with `DateTime::to_rfc3339` and the `Datelike`
/// methods `day`, `month` and `year`. Which instant comes back depends on the
/// clock, and nothing is said of it. chrono documents `day` as 1 to 31 and
/// `month` as 1 to 12; the text and the three numbers are read off the same
/// local date-time, whose date the text writes first as `YYYY-MM-DD` when the
/// year has four digits (and with a sign otherwise).
#[verifier::external_body]
fn local_now_stamps() -> (r: (String, u32, u32, i32))
    ensures
        1 <= r.1 <= 31,
        1 <= r.2 <= 12,
        rfc3339_date(r.0@) matches Some(t) ==> t == (r.3 as int, r.2 as int, r.1 as int),
{
    let now = chrono::Local::now();
    (now.to_rfc3339(), chrono::Datelike::day(&now), chrono::Datelike::month(&now), chrono::Datelike::year(&now))
}

impl SessionMeta {
    /// A fresh session that starts now.
    pub fn new(session_id: String, source: String, tags: Vec<String>, topic: String, notes: String) -> (m: Self)
        ensures
            m.session_id@ == session_id@,
            m.source@ == effective_source(source@),
            m.primary_tag@ == effective_source(source@),
            m.tags@ == tags@,
            m.topic@ == topic@,
            m.notes@ == notes@,
            m.status == SessionStatus::Recording,
            m.created_at_iso@ == m.started_at_iso@,
            m.ended_at_iso is None,
            m.errors@.len() == 0,
            rfc3339_date(m.started_at_iso@) matches Some(t) ==> m.display_date_ru@ == ru_date(t.2, t.1, t.0),
    {
        let (now_iso, day, month, year) = local_now_stamps();
        let date_ru = format_ru_date(day, month, year);
        SessionMeta::new_at(session_id, source, tags, topic, notes, now_iso, date_ru)
    }

    /// A fresh session whose start is the given instant.
    pub fn new_at(
        session_id: String,
        source: String,
        tags: Vec<String>,
        topic: String,
        notes: String,
        now_iso: String,
        display_date_ru: String,
    ) -> (m: Self)
        ensures
            m.session_id@ == session_id@,
            m.created_at_iso@ == now_iso@,
            m.started_at_iso@ == now_iso@,
            m.ended_at_iso is None,
            m.display_date_ru@ == display_date_ru@,
            m.source@ == effective_source(source@),
            m.primary_tag@ == effective_source(source@),
            m.tags@ == tags@,
            m.notes@ == notes@,
            m.topic@ == topic@,
            m.custom_summary_prompt@ == Seq::<char>::empty(),
            m.custom_summary_prompt_name@ == Seq::<char>::empty(),
            m.num_speakers is None,
            m.status == SessionStatus::Recording,
            m.artifacts.audio_file@ == "audio.opus"@,
            m.artifacts.speed_adjusted_audio_file@ == Seq::<char>::empty(),
            m.artifacts.audio_speed_multiplier_bits is None,
            m.artifacts.transcript_file@ == "transcript.md"@,
            m.artifacts.summary_file@ == "summary.md"@,
            m.artifacts.meta_file@ == "meta.json"@,
            m.artifacts.tasks_sync_file@ == default_tasks_sync_file_name(),
            m.errors@.len() == 0,
    {
        let trimmed = trim_str(source.as_str());
        let src = if trimmed.unicode_len() == 0 {
            "general".to_string()
        } else {
            to_owned_string(trimmed)
        };
        SessionMeta {
            session_id,
            created_at_iso: now_iso.clone(),
            started_at_iso: now_iso,
            ended_at_iso: None,
            display_date_ru,
            primary_tag: src.clone(),
            source: src,
            tags,
            notes,
            topic,
            custom_summary_prompt: String::new(),
            custom_summary_prompt_name: String::new(),
            num_speakers: None,
            status: SessionStatus::Recording,
            artifacts: SessionArtifacts::default(),
            errors: Vec::new(),
        }
    }
}

/// Everything but the status and the error list is the same.
pub open spec fn keeps_details(a: SessionMeta, b: SessionMeta) -> bool {
    &&& keeps_details_but_end(a, b)
    &&& a.ended_at_iso == b.ended_at_iso
}

/// Everything but the end time, the status and the error list is the same.
pub open spec fn keeps_details_but_end(a: SessionMeta, b: SessionMeta) -> bool {
    &&& a.session_id == b.session_id
    &&& a.created_at_iso == b.created_at_iso
    &&& a.started_at_iso == b.started_at_iso
    &&& a.display_date_ru == b.display_date_ru
    &&& a.source == b.source
    &&& a.primary_tag == b.primary_tag
    &&& a.tags == b.tags
    &&& a.notes == b.notes
    &&& a.topic == b.topic
    &&& a.custom_summary_prompt == b.custom_summary_prompt
    &&& a.custom_summary_prompt_name == b.custom_summary_prompt_name
    &&& a.num_speakers == b.num_speakers
    &&& a.artifacts == b.artifacts
}

/// Marks the session failed because its audio is missing.
pub fn mark_pipeline_audio_missing(meta: &mut SessionMeta) -> (msg: String)
    ensures
        msg@ == "Audio file is missing"@,
        final(meta).status == SessionStatus::Failed,
        final(meta).errors@ == old(meta).errors@.push(msg),
        keeps_details(*old(meta), *final(meta)),
{
    meta.status = SessionStatus::Failed;
    let msg = "Audio file is missing".to_string();
    meta.errors.push(msg.clone());
    msg
}

/// `prefix` followed by `detail`.
fn prefixed(prefix: &str, detail: &str) -> (r: String)
    ensures
        r@ == prefix@ + detail@,
{
    let mut s = to_owned_string(prefix);
    s.append(detail);
    s
}

/// Marks the session failed because transcription failed with `err`.
pub fn mark_pipeline_transcription_failed(meta: &mut SessionMeta, err: &str) -> (msg: String)
    ensures
        msg@ == "Transcription error: "@ + err@,
        final(meta).status == SessionStatus::Failed,
        final(meta).errors@ == old(meta).errors@.push(msg),
        keeps_details(*old(meta), *final(meta)),
{
    meta.status = SessionStatus::Failed;
    let msg = prefixed("Transcription error: ", err);
    meta.errors.push(msg.clone());
    msg
}

/// Marks the session failed because summarisation failed with `err`.
pub fn mark_pipeline_summary_failed(meta: &mut SessionMeta, err: &str) -> (msg: String)
    ensures
        msg@ == "Summary error: "@ + err@,
        final(meta).status == SessionStatus::Failed,
        final(meta).errors@ == old(meta).errors@.push(msg),
        keeps_details(*old(meta), *final(meta)),
{
    meta.status = SessionStatus::Failed;
    let msg = prefixed("Summary error: ", err);
    meta.errors.push(msg.clone());
    msg
}

/// Records that the transcript has been produced.
pub fn mark_pipeline_transcribed(meta: &mut SessionMeta)
    ensures
        *final(meta) == (SessionMeta { status: SessionStatus::Transcribed, ..*old(meta) }),
{
    meta.status = SessionStatus::Transcribed;
}

/// Records that the whole pipeline has finished.
pub fn mark_pipeline_done(meta: &mut SessionMeta)
    ensures
        *final(meta) == (SessionMeta { status: SessionStatus::Done, ..*old(meta) }),
{
    meta.status = SessionStatus::Done;
}

/// The source a legacy record is given when it has none: its primary tag, or
/// `general` when that is blank too.
pub open spec fn legacy_source(source: Seq<char>, primary_tag: Seq<char>) -> Seq<char> {
    if text::trim(source).len() != 0 {
        source
    } else if text::trim(primary_tag).len() == 0 {
        "general"@
    } else {
        primary_tag
    }
}

/// Fills `source` of records written before it existed.
pub fn normalize_legacy_source(meta: &mut SessionMeta)
    ensures
        final(meta).source@ == legacy_source(old(meta).source@, old(meta).primary_tag@),
        *final(meta) == (SessionMeta { source: final(meta).source, ..*old(meta) }),
{
    if text::is_blank(meta.source.as_str()) {
        meta.source = if text::is_blank(meta.primary_tag.as_str()) {
            "general".to_string()
        } else {
            meta.primary_tag.clone()
        };
    }
}

/// The summary file name after the legacy repair: empty names become
/// `summary.md`, and a `.txt` extension (any case) becomes `.md`.
pub open spec fn legacy_summary_file(name: Seq<char>) -> Seq<char> {
    let t = text::trim(name);
    if t.len() == 0 {
        "summary.md"@
    } else {
        match paths::extension(t) {
            Some(e) => if text::ascii_lower_seq(e) == "txt"@ {
                with_md_extension(t)
            } else {
                name
            },
            None => name,
        }
    }
}

/// Renames legacy `.txt` summaries to `.md` and fills an empty summary name.
pub fn normalize_legacy_summary_artifact(meta: &mut SessionMeta)
    ensures
        final(meta).artifacts.summary_file@ == legacy_summary_file(
            old(meta).artifacts.summary_file@,
        ),
        *final(meta) == (SessionMeta {
            artifacts: SessionArtifacts {
                summary_file: final(meta).artifacts.summary_file,
                ..old(meta).artifacts
            },
            ..*old(meta)
        }),
{
    let replacement = legacy_summary_replacement(meta.artifacts.summary_file.as_str());
    match replacement {
        Some(name) => {
            meta.artifacts.summary_file = name;
        },
        None => {},
    }
}

/// The new summary file name, when the legacy repair changes it.
fn legacy_summary_replacement(name: &str) -> (r: Option<String>)
    ensures
        match r {
            Some(n) => n@ == legacy_summary_file(name@),
            None => legacy_summary_file(name@) == name@,
        },
{
    let t = trim_str(name);
    let v = chars_of(t);
    if v.len() == 0 {
        return Some("summary.md".to_string());
    }
    match paths::file_name_range(v.as_slice()) {
        None => None,
        Some((lo, hi)) => {
            let d = paths::last_dot_in(v.as_slice(), lo, hi);
            match d {
                None => None,
                Some(d) => {
                    if d == 0 {
                        return None;
                    }
                    proof {
                        paths::lemma_last_dot_range(v@.subrange(lo as int, hi as int));
                    }
                    let ext = text::sub_vec(v.as_slice(), lo + d + 1, hi);
                    let lowered = text::ascii_lower_vec(ext.as_slice());
                    let is_txt = lowered.len() == 3 && lowered[0] == 't' && lowered[1] == 'x'
                        && lowered[2] == 't';
                    proof {
                        reveal_strlit("txt");
                        let nm = v@.subrange(lo as int, hi as int);
                        assert(nm.subrange(d + 1, nm.len() as int) =~= ext@);
                        if lowered@.len() == 3 && is_txt {
                            assert(lowered@ =~= "txt"@);
                        } else if lowered@.len() == 3 {
                            assert(lowered@ != "txt"@) by {
                                if lowered@[0] != 't' {
                                    assert(lowered@[0] != "txt"@[0]);
                                } else if lowered@[1] != 'x' {
                                    assert(lowered@[1] != "txt"@[1]);
                                } else {
                                    assert(lowered@[2] != "txt"@[2]);
                                }
                            }
                        }
                    }
                    if !is_txt {
                        return None;
                    }
                    let stem = text::sub_vec(v.as_slice(), 0, lo + d);
                    let mut out = string_from_chars(stem.as_slice());
                    out.append(".md");
                    Some(out)
                },
            }
        },
    }
}

/// `Path::with_extension("md")` of a path whose file name has an extension:
/// everything up to the end of the file stem, then `.md`.
pub open spec fn with_md_extension(p: Seq<char>) -> Seq<char> {
    let lo = paths::name_bounds(p).0;
    let name = paths::file_name(p).unwrap();
    p.subrange(0, lo + paths::last_dot(name)) + ".md"@
}

} // verus!

//! Starting and stopping a recording around the capture itself: the checks
//! before a start, the record a new session begins with, the devices asked
//! for, and how the session is closed when the audio is (or is not) written.
use crate::audio::{
    apply_recording_input_mute, audio_file_name, format_extension, RecordingMuteState,
    SharedRecordingControl,
};
use crate::paths::{self, join_with, string_views};
use crate::session::{effective_source, keeps_details_but_end, SessionArtifacts, SessionMeta, SessionStatus};
use crate::session_commands::{summary_name, transcript_name, StartRecordingRequest};
use crate::text::{self, is_blank, trim_str, trim_string};
use vstd::prelude::*;

verus! {

broadcast use vstd::string::group_string_axioms;

/// A mute toggle names the session being recorded: there must be one, and
/// it must be that one.
pub open spec fn mute_target_error(active_session_id: Option<Seq<char>>, session_id: Seq<char>) -> Option<
    Seq<char>,
> {
    match active_session_id {
        None => Some("No active recording session"@),
        Some(a) => if a == session_id {
            None
        } else {
            Some("Recording session mismatch"@)
        },
    }
}

pub open spec fn opt_view(o: Option<&str>) -> Option<Seq<char>> {
    match o {
        Some(s) => Some(s@),
        None => None,
    }
}

pub fn check_mute_target(active_session_id: Option<&str>, session_id: &str) -> (r: Result<(), String>)
    ensures
        match mute_target_error(opt_view(active_session_id), session_id@) {
            None => r is Ok,
            Some(m) => r matches Err(e) && e@ == m,
        },
{
    match active_session_id {
        None => Err("No active recording session".to_string()),
        Some(a) => if text::str_eq(a, session_id) {
            Ok(())
        } else {
            Err("Recording session mismatch".to_string())
        },
    }
}

/// A mute toggle during a recording: the session is checked, then the
/// running capture is told (its outcome, `capture_update`, comes from the
/// caller, which makes that call only after the check passed), and only
/// when it took the change do the shared flags follow.
pub fn apply_recording_input_mute_for_state(
    active_session_id: Option<&str>,
    session_id: &str,
    capture_update: Result<(), String>,
    control: &mut SharedRecordingControl,
    channel: &str,
    muted: bool,
) -> (r: Result<RecordingMuteState, String>)
    ensures
        match mute_target_error(opt_view(active_session_id), session_id@) {
            Some(m) => r matches Err(e) && e@ == m && final(control).state() == old(control).state(),
            None => match capture_update {
                Err(c) => r matches Err(e) && e@ == c@ && final(control).state() == old(
                    control,
                ).state(),
                Ok(_) => {
                    &&& channel@ == "mic"@ ==> r == Ok::<RecordingMuteState, String>(
                        (RecordingMuteState { mic_muted: muted, ..old(control).state() }),
                    ) && final(control).state() == r->Ok_0
                    &&& channel@ == "system"@ ==> r == Ok::<RecordingMuteState, String>(
                        (RecordingMuteState { system_muted: muted, ..old(control).state() }),
                    ) && final(control).state() == r->Ok_0
                    &&& channel@ != "mic"@ && channel@ != "system"@ ==> (r matches Err(e) && e@
                        == "Unsupported recording input channel"@ && final(control).state()
                        == old(control).state())
                },
            },
        },
{
    check_mute_target(active_session_id, session_id)?;
    capture_update?;
    apply_recording_input_mute(control, channel, muted)
}

/// A secret's name, trimmed; it must not be blank.
pub fn checked_secret_name(name: &str) -> (r: Result<&str, String>)
    ensures
        match r {
            Ok(n) => n@ == text::trim(name@) && n@.len() > 0,
            Err(e) => e@ == "Secret name must not be empty"@ && text::trim(name@).len() == 0,
        },
{
    let n = trim_str(name);
    if n.unicode_len() == 0 {
        Err("Secret name must not be empty".to_string())
    } else {
        Ok(n)
    }
}

/// Only one recording at a time.
pub fn ensure_no_active_recording(active: bool) -> (r: Result<(), String>)
    ensures
        r is Ok <==> !active,
        r matches Err(e) ==> e@ == "Recording already active"@,
{
    if active {
        Err("Recording already active".to_string())
    } else {
        Ok(())
    }
}

/// The source the windows show once a recording starts: its first tag, or
/// `zoom`.
pub open spec fn started_source(tags: Seq<Seq<char>>) -> Seq<char> {
    if tags.len() > 0 {
        tags[0]
    } else {
        "zoom"@
    }
}

pub fn source_after_start(tags: &Vec<String>) -> (r: String)
    ensures
        r@ == started_source(string_views(tags@)),
{
    if tags.len() > 0 {
        tags[0].clone()
    } else {
        "zoom".to_string()
    }
}

/// The microphone asked for: the configured one, or the default when blank.
pub fn configured_device(name: &str) -> (r: Option<String>)
    ensures
        match r {
            Some(n) => n@ == name@ && text::trim(name@).len() > 0,
            None => text::trim(name@).len() == 0,
        },
{
    if is_blank(name) {
        None
    } else {
        Some(name.to_string())
    }
}

/// The record a new recording starts with, at `now_iso` (dated
/// `display_date_ru`, its files named after `date_part`), recorded in
/// `audio_format`.
pub fn new_recording_meta(
    session_id: String,
    request: StartRecordingRequest,
    now_iso: String,
    display_date_ru: String,
    date_part: &str,
    audio_format: &str,
) -> (m: SessionMeta)
    ensures
        m.session_id@ == session_id@,
        m.source@ == effective_source(request.source@),
        m.primary_tag@ == effective_source(request.source@),
        m.tags@ == request.tags@,
        m.topic@ == request.topic@,
        m.notes@ == request.notes@,
        m.created_at_iso@ == now_iso@ && m.started_at_iso@ == now_iso@,
        m.ended_at_iso is None,
        m.display_date_ru@ == display_date_ru@,
        m.status == SessionStatus::Recording,
        m.artifacts.audio_file@ == "audio."@ + format_extension(audio_format@),
        m.artifacts.transcript_file@ == "transcript_"@ + date_part@ + ".txt"@,
        m.artifacts.summary_file@ == "summary_"@ + date_part@ + ".md"@,
        m.artifacts.meta_file@ == "meta.json"@,
        m.artifacts.speed_adjusted_audio_file@ == Seq::<char>::empty(),
        m.artifacts.audio_speed_multiplier_bits is None,
        m.artifacts.tasks_sync_file@ == crate::session::default_tasks_sync_file_name(),
        m.custom_summary_prompt@ == Seq::<char>::empty(),
        m.custom_summary_prompt_name@ == Seq::<char>::empty(),
        m.num_speakers is None,
        m.errors@.len() == 0,
{
    let StartRecordingRequest { source, topic, tags, notes } = request;
    let mut meta = SessionMeta::new_at(session_id, source, tags, topic, notes, now_iso, display_date_ru);
    meta.artifacts.audio_file = audio_file_name(audio_format);
    meta.artifacts.transcript_file = transcript_name(date_part);
    meta.artifacts.summary_file = summary_name(date_part);
    meta.artifacts.meta_file = "meta.json".to_string();
    meta
}

/// Where the raw microphone capture is kept when encoding fails.
pub open spec fn mic_recovery_name() -> Seq<char> {
    "audio_recovery_mic.raw"@
}

/// Where the raw system-audio capture is kept when encoding fails.
pub open spec fn system_recovery_name() -> Seq<char> {
    "audio_recovery_system.raw"@
}

pub fn recovery_file_names() -> (r: (&'static str, &'static str))
    ensures
        r.0@ == mic_recovery_name(),
        r.1@ == system_recovery_name(),
{
    ("audio_recovery_mic.raw", "audio_recovery_system.raw")
}

/// The failure recorded when the captured audio could not be encoded; the
/// raw files kept for recovery are listed.
pub fn encoding_failure_message(err: &str, preserved: &Vec<String>) -> (r: String)
    ensures
        r@ == "Audio encoding failed: "@ + err@ + ". Raw capture preserved: "@ + join_with(
            string_views(preserved@),
            ", "@,
        ),
{
    let mut r = "Audio encoding failed: ".to_string();
    r.append(err);
    r.append(". Raw capture preserved: ");
    r.append(join_strings(preserved, ", ").as_str());
    r
}

/// The failure recorded when writing the (silent) audio failed outright.
pub fn write_failure_message(err: &str) -> (r: String)
    ensures
        r@ == "Audio encoding failed: "@ + err@,
{
    let mut r = "Audio encoding failed: ".to_string();
    r.append(err);
    r
}

/// The failure recorded when the capture could not be finalized.
pub fn capture_failure_message(err: &str) -> (r: String)
    ensures
        r@ == "Audio capture finalization failed: "@ + err@,
{
    let mut r = "Audio capture finalization failed: ".to_string();
    r.append(err);
    r
}

/// `parts` joined with `sep`.
pub fn join_strings(parts: &Vec<String>, sep: &str) -> (r: String)
    ensures
        r@ == join_with(string_views(parts@), sep@),
{
    let mut r = String::new();
    let mut i: usize = 0;
    proof {
        assert(string_views(parts@).subrange(0, 0) =~= Seq::<Seq<char>>::empty());
    }
    while i < parts.len()
        invariant
            i <= parts@.len(),
            r@ == join_with(string_views(parts@).subrange(0, i as int), sep@),
        decreases parts@.len() - i,
    {
        let ghost prev = string_views(parts@).subrange(0, i as int);
        let ghost next = string_views(parts@).subrange(0, i + 1);
        if i > 0 {
            r.append(sep);
        }
        r.append(parts[i].as_str());
        proof {
            assert(next.drop_last() =~= prev);
            assert(next.last() == parts@[i as int]@);
            if i == 0 {
                assert(next =~= seq![parts@[0]@]);
            }
        }
        i = i + 1;
    }
    assert(string_views(parts@).subrange(0, parts@.len() as int) =~= string_views(parts@));
    r
}

/// Closes the session at `ended_at_iso`: recorded when the audio was
/// written, failed (with the failure noted) when it was not. The failure is
/// handed back.
pub fn finish_stopped_session(meta: &mut SessionMeta, ended_at_iso: String, failure: Option<String>) -> (r:
    Result<(), String>)
    ensures
        final(meta).ended_at_iso matches Some(e) && e@ == ended_at_iso@,
        keeps_details_but_end(*old(meta), *final(meta)),
        match failure {
            None => r is Ok && final(meta).status == SessionStatus::Recorded && final(meta).errors@
                == old(meta).errors@,
            Some(f) => (r matches Err(e) && e@ == f@) && final(meta).status == SessionStatus::Failed
                && final(meta).errors@.len() == old(meta).errors@.len() + 1
                && final(meta).errors@.subrange(0, old(meta).errors@.len() as int)
                == old(meta).errors@ && final(meta).errors@.last()@ == f@,
        },
{
    meta.ended_at_iso = Some(ended_at_iso);
    match failure {
        None => {
            meta.status = SessionStatus::Recorded;
            Ok(())
        },
        Some(f) => {
            meta.status = SessionStatus::Failed;
            let ghost before = meta.errors@;
            meta.errors.push(f.clone());
            assert(meta.errors@.subrange(0, before.len() as int) =~= before);
            Err(f)
        },
    }
}

} // verus!

//! The transcription and summary pipeline around its network calls: which
//! steps a run takes, which secret it needs, what it reports when a step
//! fails, and the request log written when API logging is on.
use crate::markdown::strip_cr;
use crate::paths;
use crate::settings::PublicSettings;
use crate::text::{
    self, chars_of, decimal_string, eq_ignore_ascii_case, first_index, is_blank, str_contains,
    str_eq, string_from_chars, to_owned_string, trim_str, trim_string,
};
use vstd::prelude::*;

verus! {

broadcast use vstd::string::group_string_axioms;

/// Default SaluteSpeech token endpoint.
pub const SALUTE_SPEECH_DEFAULT_AUTH_URL: &'static str =
    "https://ngw.devices.sberbank.ru:9443/api/v2/oauth";

/// Default SaluteSpeech API base.
pub const SALUTE_SPEECH_DEFAULT_API_BASE_URL: &'static str = "https://smartspeech.sber.ru";

/// Failed runs are retried at most this many times.
pub const MAX_PIPELINE_RETRY_ATTEMPTS: i64 = 4;

/// Which steps a pipeline run takes.
#[derive(Clone, Copy, Debug, PartialEq, Eq, Structural)]
pub enum PipelineMode {
    Full,
    TranscriptionOnly,
    SummaryOnly,
}

pub fn needs_transcription(mode: PipelineMode) -> (b: bool)
    ensures
        b == (mode == PipelineMode::Full || mode == PipelineMode::TranscriptionOnly),
{
    match mode {
        PipelineMode::Full => true,
        PipelineMode::TranscriptionOnly => true,
        PipelineMode::SummaryOnly => false,
    }
}

pub fn needs_summary(mode: PipelineMode) -> (b: bool)
    ensures
        b == (mode == PipelineMode::Full || mode == PipelineMode::SummaryOnly),
{
    match mode {
        PipelineMode::Full => true,
        PipelineMode::TranscriptionOnly => false,
        PipelineMode::SummaryOnly => true,
    }
}

/// What a successful run reports, and whether it clears a pending retry.
pub fn completion(mode: PipelineMode) -> (r: (&'static str, bool))
    ensures
        r.0@ == (if mode == PipelineMode::TranscriptionOnly {
            "transcribed"@
        } else {
            "done"@
        }),
        r.1 == (mode == PipelineMode::Full),
{
    match mode {
        PipelineMode::Full => ("done", true),
        PipelineMode::TranscriptionOnly => ("transcribed", false),
        PipelineMode::SummaryOnly => ("done", false),
    }
}

/// The secret the transcription provider authenticates with.
pub open spec fn secret_name(provider: Seq<char>) -> Seq<char> {
    if provider == "salute_speech"@ {
        "SALUTE_SPEECH_AUTH_KEY"@
    } else {
        "NEXARA_API_KEY"@
    }
}

pub fn transcription_secret_name(provider: &str) -> (r: &'static str)
    ensures
        r@ == secret_name(provider@),
{
    if str_eq(provider, "salute_speech") {
        "SALUTE_SPEECH_AUTH_KEY"
    } else {
        "NEXARA_API_KEY"
    }
}

/// The transcription error as reported: a missing token is explained by the
/// secret-store failure or by the secret being empty.
pub open spec fn explained_error(
    err: Seq<char>,
    provider: Seq<char>,
    secret: Seq<char>,
    lookup_error: Option<Seq<char>>,
) -> Seq<char> {
    let name = secret_name(provider);
    if text::contains_seq(err, "No token specified"@) {
        match lookup_error {
            Some(k) => err + ". keyring lookup error for "@ + name + ": "@ + k,
            None => if text::trim(secret).len() == 0 {
                err + ". "@ + name + " is empty"@
            } else {
                err
            },
        }
    } else if provider == "salute_speech"@ && text::trim(secret).len() == 0 {
        err + ". "@ + name + " is empty"@
    } else {
        err
    }
}

fn join3(a: &str, b: &str, c: &str) -> (r: String)
    ensures
        r@ == a@ + b@ + c@,
{
    let mut r = a.to_string();
    r.append(b);
    r.append(c);
    r
}

pub fn explain_transcription_error(
    err: &str,
    provider: &str,
    secret: &str,
    lookup_error: Option<&str>,
) -> (r: String)
    ensures
        r@ == explained_error(
            err@,
            provider@,
            secret@,
            match lookup_error {
                Some(k) => Some(k@),
                None => None,
            },
        ),
{
    let name = transcription_secret_name(provider);
    if str_contains(err, "No token specified") {
        match lookup_error {
            Some(k) => {
                let mut r = join3(err, ". keyring lookup error for ", name);
                r.append(": ");
                r.append(k);
                r
            },
            None => if is_blank(secret) {
                let mut r = join3(err, ". ", name);
                r.append(" is empty");
                r
            } else {
                err.to_string()
            },
        }
    } else if str_eq(provider, "salute_speech") && is_blank(secret) {
        let mut r = join3(err, ". ", name);
        r.append(" is empty");
        r
    } else {
        err.to_string()
    }
}

/// The endpoint to use: the override when one is set, else the default.
pub fn endpoint_or_default(override_value: Option<String>, default: &str) -> (r: String)
    ensures
        r@ == (match override_value {
            Some(v) => v@,
            None => default@,
        }),
{
    match override_value {
        Some(v) => v,
        None => default.to_string(),
    }
}

fn push_field(out: &mut String, key: &str, value: &str)
    ensures
        final(out)@ == old(out)@ + key@ + value@,
{
    out.append(key);
    out.append(value);
}

/// The detail logged when a transcription request is made.
pub open spec fn transcription_log(s: PublicSettings, auth_url: Seq<char>, api_base_url: Seq<char>) -> Seq<
    char,
> {
    if s.transcription_provider@ == "salute_speech"@ {
        "provider="@ + text::trim(s.transcription_provider@) + " auth_url="@ + auth_url
            + " api_base_url="@ + api_base_url + " task="@ + text::trim(s.transcription_task@)
            + " diarization_setting="@ + text::trim(s.transcription_diarization_setting@)
            + " salute_scope="@ + text::trim(s.salute_speech_scope@) + " salute_model="@
            + text::trim(s.salute_speech_model@)
    } else {
        "provider="@ + text::trim(s.transcription_provider@) + " url="@ + text::trim(
            s.transcription_url@,
        ) + " task="@ + text::trim(s.transcription_task@) + " diarization_setting="@
            + text::trim(s.transcription_diarization_setting@) + " salute_scope="@ + text::trim(
            s.salute_speech_scope@,
        ) + " salute_model="@ + text::trim(s.salute_speech_model@)
    }
}

/// The detail logged when a transcription request is made, with the
/// SaluteSpeech endpoints in force.
pub fn transcription_request_log_detail_with(
    settings: &PublicSettings,
    auth_url: &str,
    api_base_url: &str,
) -> (r: String)
    ensures
        r@ == transcription_log(*settings, auth_url@, api_base_url@),
{
    let mut r = "provider=".to_string();
    r.append(trim_str(settings.transcription_provider.as_str()));
    if str_eq(settings.transcription_provider.as_str(), "salute_speech") {
        push_field(&mut r, " auth_url=", auth_url);
        push_field(&mut r, " api_base_url=", api_base_url);
    } else {
        push_field(&mut r, " url=", trim_str(settings.transcription_url.as_str()));
    }
    push_field(&mut r, " task=", trim_str(settings.transcription_task.as_str()));
    push_field(
        &mut r,
        " diarization_setting=",
        trim_str(settings.transcription_diarization_setting.as_str()),
    );
    push_field(&mut r, " salute_scope=", trim_str(settings.salute_speech_scope.as_str()));
    push_field(&mut r, " salute_model=", trim_str(settings.salute_speech_model.as_str()));
    r
}

/// The number of characters of a text, for the request log.
fn char_count(s: &str) -> (n: u64)
    ensures
        n == s@.len(),
{
    let n = s.unicode_len();
    n as u64
}

/// The detail logged when a summary request is made.
pub fn summary_request_log_detail(settings: &PublicSettings) -> (r: String)
    ensures
        r@ == "url="@ + text::trim(settings.summary_url@) + " model="@ + text::trim(
            settings.openai_model@,
        ) + " prompt_chars="@ + text::decimal(text::trim(settings.summary_prompt@).len()),
{
    let mut r = "url=".to_string();
    r.append(trim_str(settings.summary_url.as_str()));
    push_field(&mut r, " model=", trim_str(settings.openai_model.as_str()));
    r.append(" prompt_chars=");
    r.append(decimal_string(char_count(trim_str(settings.summary_prompt.as_str()))).as_str());
    r
}

/// `{label}={number of characters}`, as logged after a step succeeds.
pub fn chars_detail(label: &str, text_value: &str) -> (r: String)
    ensures
        r@ == label@ + "="@ + text::decimal(text_value@.len()),
{
    let mut r = label.to_string();
    r.append("=");
    r.append(decimal_string(char_count(text_value)).as_str());
    r
}

/// An integer in decimal, with `-` before a negative one.
pub open spec fn signed_decimal(n: int) -> Seq<char> {
    if n < 0 {
        "-"@ + text::decimal((-n) as nat)
    } else {
        text::decimal(n as nat)
    }
}

/// The event detail of a scheduled retry.
pub fn retry_scheduled_detail(attempt: i64, error: &str) -> (r: String)
    ensures
        r@ == "Attempt "@ + signed_decimal(attempt as int) + " scheduled due to: "@ + error@,
{
    let mut r = "Attempt ".to_string();
    if attempt < 0 {
        let magnitude: u64 = (-(attempt + 1)) as u64 + 1;
        r.append("-");
        r.append(decimal_string(magnitude).as_str());
    } else {
        r.append(decimal_string(attempt as u64).as_str());
    }
    r.append(" scheduled due to: ");
    r.append(error);
    r
}

/// A stored transcript used for a summary-only run: its trimmed text, which
/// must not be empty.
pub fn transcript_for_summary(stored: &str) -> (r: Result<String, String>)
    ensures
        match r {
            Ok(t) => t@ == text::trim(stored@) && t@.len() > 0,
            Err(e) => e@ == "Transcript file is empty"@ && text::trim(stored@).len() == 0,
        },
{
    let t = trim_string(stored);
    if t.as_str().unicode_len() == 0 {
        Err("Transcript file is empty".to_string())
    } else {
        Ok(t)
    }
}

/// One line of a session's `api_calls.txt`.
pub fn api_call_log_line(timestamp: &str, event_type: &str, detail: &str) -> (r: String)
    ensures
        r@ == timestamp@ + " | "@ + event_type@ + " | "@ + detail@,
{
    let mut r = timestamp.to_string();
    r.append(" | ");
    r.append(event_type);
    r.append(" | ");
    r.append(detail);
    r
}

/// The prompt a summary is made with: a non-blank custom prompt (trimmed),
/// else the configured one (trimmed), else the built-in default.
pub open spec fn summary_prompt_for(configured: Seq<char>, custom: Option<Seq<char>>) -> Seq<char> {
    match custom {
        Some(c) if text::trim(c).len() > 0 => text::trim(c),
        _ => if text::trim(configured).len() == 0 {
            crate::settings::default_summary_prompt()
        } else {
            text::trim(configured)
        },
    }
}

pub fn resolve_summary_prompt<'a>(settings: &'a PublicSettings, custom_prompt: Option<&'a str>) -> (r:
    &'a str)
    ensures
        r@ == summary_prompt_for(
            settings.summary_prompt@,
            match custom_prompt {
                Some(c) => Some(c@),
                None => None,
            },
        ),
{
    if let Some(prompt) = custom_prompt {
        let t = trim_str(prompt);
        if t.unicode_len() > 0 {
            return t;
        }
    }
    if is_blank(settings.summary_prompt.as_str()) {
        "Есть стенограмма встречи. Подготовь краткое саммари."
    } else {
        trim_str(settings.summary_prompt.as_str())
    }
}

/// The lowercased extension of a path, empty when there is none.
pub open spec fn lower_extension(path: Seq<char>) -> Seq<char> {
    match paths::extension(path) {
        Some(e) => text::ascii_lower_seq(e),
        None => Seq::empty(),
    }
}

fn lower_extension_of(path: &str) -> (r: String)
    ensures
        r@ == lower_extension(path@),
{
    match paths::extension_of(path) {
        Some(e) => text::ascii_lowercase(e.as_str()),
        None => String::new(),
    }
}

fn unsupported_format(ext: &str) -> (e: String)
    ensures
        e@ == "SalutSpeech does not support recorded audio format "@ + ext@,
{
    let mut e = "SalutSpeech does not support recorded audio format ".to_string();
    e.append(ext);
    e
}

/// The encoding SaluteSpeech is told the audio has.
pub fn salute_speech_audio_encoding(audio_path: &str) -> (r: Result<&'static str, String>)
    ensures
        match r {
            Ok(enc) => (lower_extension(audio_path@) == "opus"@ && enc@ == "OPUS"@) || (
            lower_extension(audio_path@) == "mp3"@ && enc@ == "MP3"@) || (lower_extension(
                audio_path@,
            ) == "wav"@ && enc@ == "PCM_S16LE"@),
            Err(e) => lower_extension(audio_path@) != "opus"@ && lower_extension(audio_path@)
                != "mp3"@ && lower_extension(audio_path@) != "wav"@ && e@
                == "SalutSpeech does not support recorded audio format "@ + lower_extension(
                audio_path@,
            ),
        },
{
    let ext = lower_extension_of(audio_path);
    if str_eq(ext.as_str(), "opus") {
        Ok("OPUS")
    } else if str_eq(ext.as_str(), "mp3") {
        Ok("MP3")
    } else if str_eq(ext.as_str(), "wav") {
        Ok("PCM_S16LE")
    } else {
        Err(unsupported_format(ext.as_str()))
    }
}

/// The content type the audio is uploaded to SaluteSpeech with.
pub fn salute_speech_upload_content_type(audio_path: &str) -> (r: Result<String, String>)
    ensures
        match r {
            Ok(ct) => (lower_extension(audio_path@) == "opus"@ && ct@ == "audio/ogg;codecs=opus"@)
                || (lower_extension(audio_path@) == "mp3"@ && ct@ == "audio/mpeg"@) || (
            lower_extension(audio_path@) == "wav"@ && ct@ == "audio/x-pcm;bit=16"@),
            Err(e) => lower_extension(audio_path@) != "opus"@ && lower_extension(audio_path@)
                != "mp3"@ && lower_extension(audio_path@) != "wav"@ && e@
                == "SalutSpeech does not support recorded audio format "@ + lower_extension(
                audio_path@,
            ),
        },
{
    let ext = lower_extension_of(audio_path);
    if str_eq(ext.as_str(), "opus") {
        Ok("audio/ogg;codecs=opus".to_string())
    } else if str_eq(ext.as_str(), "mp3") {
        Ok("audio/mpeg".to_string())
    } else if str_eq(ext.as_str(), "wav") {
        Ok("audio/x-pcm;bit=16".to_string())
    } else {
        Err(unsupported_format(ext.as_str()))
    }
}

/// `str::lines`: pieces between `\n`, each with one `\r` before its `\n`
/// removed, and no empty piece after a final `\n`.
pub open spec fn lines_of(s: Seq<char>) -> Seq<Seq<char>>
    decreases s.len(),
{
    if s.len() == 0 {
        seq![]
    } else {
        let i = first_index(s, '\n');
        if i < 0 {
            seq![s]
        } else {
            proof {
                text::lemma_first_index(s, '\n');
            }
            seq![strip_cr(s.subrange(0, i))] + lines_of(s.subrange(i + 1, s.len() as int))
        }
    }
}

/// A text block for the request log: its lines, or `<empty>`.
pub open spec fn block_lines(s: Seq<char>) -> Seq<Seq<char>> {
    if s.len() == 0 {
        seq!["<empty>"@]
    } else {
        lines_of(s)
    }
}

fn strip_cr_vec(v: Vec<char>) -> (r: Vec<char>)
    ensures
        r@ == strip_cr(v@),
{
    let mut v = v;
    if v.len() > 0 && v[v.len() - 1] == '\r' {
        v.pop();
    }
    v
}

pub fn format_multiline_block(text_value: &str) -> (r: Vec<String>)
    ensures
        paths::string_views(r@) == block_lines(text_value@),
{
    let mut out: Vec<String> = Vec::new();
    if text_value.unicode_len() == 0 {
        out.push("<empty>".to_string());
        assert(paths::string_views(out@) =~= seq!["<empty>"@]);
        return out;
    }
    let v = chars_of(text_value);
    let n = v.len();
    let mut start: usize = 0;
    proof {
        assert(v@.subrange(0, n as int) =~= v@);
    }
    while start < n
        invariant
            n == v@.len(),
            start <= n,
            paths::string_views(out@) + lines_of(v@.subrange(start as int, n as int)) == lines_of(
                v@,
            ),
        decreases n - start,
    {
        let ghost rest = v@.subrange(start as int, n as int);
        let ghost before = paths::string_views(out@);
        match text::find_char_from(v.as_slice(), '\n', start) {
            Some(j) => {
                proof {
                    assert(rest.subrange(0, j - start) =~= v@.subrange(start as int, j as int));
                    assert(rest.subrange(j - start + 1, rest.len() as int) =~= v@.subrange(
                        j + 1,
                        n as int,
                    ));
                }
                let line = strip_cr_vec(text::sub_vec(v.as_slice(), start, j));
                out.push(string_from_chars(line.as_slice()));
                proof {
                    assert(paths::string_views(out@) =~= before.push(line@));
                    assert(paths::string_views(out@) + lines_of(v@.subrange(j + 1, n as int))
                        =~= before + lines_of(rest));
                }
                start = j + 1;
            },
            None => {
                let line = text::sub_vec(v.as_slice(), start, n);
                out.push(string_from_chars(line.as_slice()));
                proof {
                    assert(paths::string_views(out@) =~= before.push(rest));
                    assert(lines_of(v@.subrange(n as int, n as int)) =~= Seq::<Seq<char>>::empty());
                    assert(paths::string_views(out@) + Seq::<Seq<char>>::empty() =~= before
                        + lines_of(rest));
                }
                start = n;
            },
        }
    }
    proof {
        assert(v@.subrange(n as int, n as int) =~= Seq::<char>::empty());
        assert(paths::string_views(out@) + Seq::<Seq<char>>::empty() =~= paths::string_views(
            out@,
        ));
    }
    out
}

} // verus!

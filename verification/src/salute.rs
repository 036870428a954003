//! The SaluteSpeech recognition protocol around its HTTP calls: the task a
//! recording is submitted with, what is read from each reply, how a status
//! poll is judged, and the messages a failed step is reported with.
use crate::paths::join_with;
use crate::pipeline::{lower_extension, salute_speech_audio_encoding};
use crate::settings::PublicSettings;
use crate::text::{
    self, ascii_lowercase, chars_of, decimal_string, is_blank, str_contains, str_eq,
    string_from_chars, trim_str,
};
use crate::transcript::{get, get_opt, json_get, parse_json, spec_json_error, spec_json_value, str_of, JsonValue};
use vstd::prelude::*;

verus! {

broadcast use vstd::string::group_string_axioms;

// ------------------------------------------------------------ reply fields

/// A string that is not blank (kept as it is).
pub open spec fn nonblank(o: Option<Seq<char>>) -> Option<Seq<char>> {
    match o {
        Some(t) => if text::trim(t).len() > 0 {
            Some(t)
        } else {
            None
        },
        None => None,
    }
}

fn member_str<'a>(v: Option<&'a JsonValue>, key: &str) -> (r: Option<&'a str>)
    ensures
        match r {
            Some(s) => str_of(get_opt(crate::transcript::deref_opt(v), key@)) == Some(s@),
            None => str_of(get_opt(crate::transcript::deref_opt(v), key@)) is None,
        },
{
    match v {
        Some(x) => match json_get(x, key) {
            Some(JsonValue::Str(s)) => Some(s.as_str()),
            _ => None,
        },
        None => None,
    }
}

fn required(found: Option<&str>, missing: &str) -> (r: Result<String, String>)
    ensures
        match nonblank(crate::transcript::str_view(found)) {
            Some(t) => r matches Ok(s) && s@ == t,
            None => r matches Err(e) && e@ == missing@,
        },
{
    match found {
        Some(t) => if is_blank(t) {
            Err(missing.to_string())
        } else {
            Ok(t.to_string())
        },
        None => Err(missing.to_string()),
    }
}

/// The access token of a token reply.
pub fn salute_access_token(body: &JsonValue) -> (r: Result<String, String>)
    ensures
        match nonblank(str_of(get(*body, "access_token"@))) {
            Some(t) => r matches Ok(s) && s@ == t,
            None => r matches Err(e) && e@
                == "SalutSpeech token response does not contain access_token"@,
        },
{
    required(
        member_str(Some(body), "access_token"),
        "SalutSpeech token response does not contain access_token",
    )
}

/// The id of the uploaded audio, from an upload reply.
pub fn salute_request_file_id(body: &JsonValue) -> (r: Result<String, String>)
    ensures
        match nonblank(str_of(get_opt(get(*body, "result"@), "request_file_id"@))) {
            Some(t) => r matches Ok(s) && s@ == t,
            None => r matches Err(e) && e@
                == "SalutSpeech upload response does not contain request_file_id"@,
        },
{
    required(
        member_str(json_get(body, "result"), "request_file_id"),
        "SalutSpeech upload response does not contain request_file_id",
    )
}

/// The id of the recognition task, from the reply that created it.
pub fn salute_task_id(body: &JsonValue) -> (r: Result<String, String>)
    ensures
        match nonblank(str_of(get_opt(get(*body, "result"@), "id"@))) {
            Some(t) => r matches Ok(s) && s@ == t,
            None => r matches Err(e) && e@
                == "SalutSpeech recognition response does not contain task id"@,
        },
{
    required(
        member_str(json_get(body, "result"), "id"),
        "SalutSpeech recognition response does not contain task id",
    )
}

// ----------------------------------------------------------- status polls

/// What one status reply means.
pub enum TaskPoll {
    /// The task is done: the id of its result, or why it cannot be read.
    Done(Result<String, String>),
    /// The task ended without a result (`ERROR` or `CANCELED`).
    Finished { status: String },
    /// The task runs on (with the status it reported, possibly empty).
    Pending { status: String },
}

/// The status a reply reports: its `status`, else `result.status`, else
/// nothing.
pub open spec fn poll_status(body: JsonValue) -> Seq<char> {
    match str_of(get(body, "status"@)) {
        Some(s) => s,
        None => match str_of(get_opt(get(body, "result"@), "status"@)) {
            Some(s) => s,
            None => seq![],
        },
    }
}

/// The result id of a finished task: `response_file_id`, else
/// `result.response_file_id`; a blank one does not count.
pub open spec fn response_file_id(body: JsonValue) -> Option<Seq<char>> {
    nonblank(
        match str_of(get(body, "response_file_id"@)) {
            Some(s) => Some(s),
            None => str_of(get_opt(get(body, "result"@), "response_file_id"@)),
        },
    )
}

pub open spec fn poll_meaning(body: JsonValue, p: TaskPoll) -> bool {
    let status = poll_status(body);
    if status == "DONE"@ {
        match response_file_id(body) {
            Some(id) => p matches TaskPoll::Done(Ok(s)) && s@ == id,
            None => p matches TaskPoll::Done(Err(e)) && e@
                == "SalutSpeech task status does not contain response_file_id"@,
        }
    } else if status == "ERROR"@ || status == "CANCELED"@ {
        p matches TaskPoll::Finished { status: s } && s@ == status
    } else {
        p matches TaskPoll::Pending { status: s } && s@ == status
    }
}

pub fn task_poll_step(body: &JsonValue) -> (p: TaskPoll)
    ensures
        poll_meaning(*body, p),
{
    let status: &str = match member_str(Some(body), "status") {
        Some(s) => s,
        None => match member_str(json_get(body, "result"), "status") {
            Some(s) => s,
            None => "",
        },
    };
    proof {
        reveal_strlit("");
        assert(status@ == poll_status(*body));
    }
    if str_eq(status, "DONE") {
        let found = match member_str(Some(body), "response_file_id") {
            Some(s) => Some(s),
            None => member_str(json_get(body, "result"), "response_file_id"),
        };
        assert(nonblank(crate::transcript::str_view(found)) == response_file_id(*body));
        return TaskPoll::Done(
            required(found, "SalutSpeech task status does not contain response_file_id"),
        );
    }
    if str_eq(status, "ERROR") || str_eq(status, "CANCELED") {
        TaskPoll::Finished { status: status.to_string() }
    } else {
        TaskPoll::Pending { status: status.to_string() }
    }
}

/// The error of a task that ended without a result, with the service's
/// explanation when it gave one.
pub fn task_failure_message(status: &str, detail: &str) -> (r: String)
    ensures
        r@ == (if detail@.len() == 0 {
            "SalutSpeech task finished with status "@ + status@
        } else {
            "SalutSpeech task finished with status "@ + status@ + ": "@ + detail@
        }),
{
    let mut r = "SalutSpeech task finished with status ".to_string();
    r.append(status);
    if detail.unicode_len() > 0 {
        r.append(": ");
        r.append(detail);
    }
    r
}

/// The error of a poll that ran out of attempts.
pub fn poll_timeout_message(attempts: usize, last_status: &str) -> (r: String)
    ensures
        r@ == (if last_status@.len() == 0 {
            "SalutSpeech task polling timed out"@
        } else {
            "SalutSpeech task polling timed out after "@ + text::decimal(attempts as nat)
                + " attempts; last status: "@ + last_status@
        }),
{
    if last_status.unicode_len() == 0 {
        return "SalutSpeech task polling timed out".to_string();
    }
    let mut r = "SalutSpeech task polling timed out after ".to_string();
    r.append(decimal_string(attempts as u64).as_str());
    r.append(" attempts; last status: ");
    r.append(last_status);
    r
}

/// How many status polls a task gets unless configured otherwise.
pub const SALUTE_SPEECH_STATUS_POLL_ATTEMPTS: usize = 300;

/// The pause between status polls, in milliseconds, unless configured otherwise.
pub const SALUTE_SPEECH_STATUS_POLL_DELAY_MS: u64 = 1000;

/// The number of status polls: a configured positive number, else the default.
pub fn status_poll_attempts(configured: Option<usize>) -> (n: usize)
    ensures
        n == match configured {
            Some(c) => if c > 0 {
                c
            } else {
                SALUTE_SPEECH_STATUS_POLL_ATTEMPTS
            },
            None => SALUTE_SPEECH_STATUS_POLL_ATTEMPTS,
        },
{
    match configured {
        Some(c) => if c > 0 {
            c
        } else {
            SALUTE_SPEECH_STATUS_POLL_ATTEMPTS
        },
        None => SALUTE_SPEECH_STATUS_POLL_ATTEMPTS,
    }
}

/// The pause between status polls: the configured one, else the default.
pub fn status_poll_delay_ms(configured: Option<u64>) -> (d: u64)
    ensures
        d == match configured {
            Some(c) => c,
            None => SALUTE_SPEECH_STATUS_POLL_DELAY_MS,
        },
{
    match configured {
        Some(c) => c,
        None => SALUTE_SPEECH_STATUS_POLL_DELAY_MS,
    }
}

// ------------------------------------------------------------ error texts

/// The error of a reply whose status is not a success: the context and the
/// status, with the trimmed body when there is one.
pub fn http_failure_message(context: &str, status: &str, body_text: &str) -> (r: String)
    ensures
        r@ == (if text::trim(body_text@).len() == 0 {
            context@ + " failed with status "@ + status@
        } else {
            context@ + " failed with status "@ + status@ + ": "@ + text::trim(body_text@)
        }),
{
    let mut r = context.to_string();
    r.append(" failed with status ");
    r.append(status);
    let detail = trim_str(body_text);
    if detail.unicode_len() > 0 {
        r.append(": ");
        r.append(detail);
    }
    r
}

/// The error of a successful reply that is not JSON.
pub fn invalid_json_message(context: &str, parse_error: &str) -> (r: String)
    ensures
        r@ == context@ + " returned invalid JSON: "@ + parse_error@,
{
    let mut r = context.to_string();
    r.append(" returned invalid JSON: ");
    r.append(parse_error);
    r
}

/// A reply read as JSON: the failure message when the call did not
/// succeed, else the body's value, else the invalid-JSON message with the
/// parser's error.
pub fn json_reply(context: &str, success: bool, status: &str, body_text: &str) -> (r: Result<JsonValue, String>)
    ensures
        !success ==> (r matches Err(e) && e@ == (if text::trim(body_text@).len() == 0 {
            context@ + " failed with status "@ + status@
        } else {
            context@ + " failed with status "@ + status@ + ": "@ + text::trim(body_text@)
        })),
        success ==> match spec_json_value(body_text@) {
            Some(v) => r == Ok::<JsonValue, String>(v),
            None => r matches Err(e) && e@ == context@ + " returned invalid JSON: "@ + spec_json_error(
                body_text@,
            ),
        },
{
    if !success {
        return Err(http_failure_message(context, status, body_text));
    }
    match parse_json(body_text) {
        Ok(v) => Ok(v),
        Err(e) => Err(invalid_json_message(context, e.as_str())),
    }
}

/// The messages of an error and its causes, outermost first: the first
/// always, each later one when it is not empty and not seen before.
pub open spec fn error_chain(msgs: Seq<Seq<char>>) -> Seq<Seq<char>>
    decreases msgs.len(),
{
    if msgs.len() <= 1 {
        msgs
    } else {
        let kept = error_chain(msgs.drop_last());
        let m = msgs.last();
        if m.len() > 0 && !kept.contains(m) {
            kept.push(m)
        } else {
            kept
        }
    }
}

/// An error with its causes in one line, `: `-separated.
pub fn join_error_chain(messages: &Vec<String>) -> (r: String)
    ensures
        r@ == join_with(error_chain(crate::paths::string_views(messages@)), ": "@),
{
    let ghost ms = crate::paths::string_views(messages@);
    let mut kept: Vec<String> = Vec::new();
    if messages.len() == 0 {
        proof {
            assert(crate::paths::string_views(kept@) =~= error_chain(ms));
        }
        return crate::recording::join_strings(&kept, ": ");
    }
    kept.push(messages[0].clone());
    proof {
        assert(crate::paths::string_views(kept@) =~= error_chain(ms.subrange(0, 1)));
    }
    let mut i: usize = 1;
    while i < messages.len()
        invariant
            1 <= i <= messages@.len(),
            ms == crate::paths::string_views(messages@),
            crate::paths::string_views(kept@) == error_chain(ms.subrange(0, i as int)),
        decreases messages@.len() - i,
    {
        let ghost kv = crate::paths::string_views(kept@);
        let ghost pre = ms.subrange(0, i + 1);
        proof {
            assert(pre.drop_last() =~= ms.subrange(0, i as int));
            assert(pre.last() == messages@[i as int]@);
        }
        let m = messages[i].as_str();
        let mut seen = false;
        let mut j: usize = 0;
        while j < kept.len()
            invariant
                j <= kept@.len(),
                kv == crate::paths::string_views(kept@),
                m@ == messages@[i as int]@,
                seen ==> kv.contains(m@),
                !seen ==> forall|x: int| 0 <= x < j ==> kv[x] != m@,
            decreases kept@.len() - j,
        {
            assert(kept@[j as int]@ == kv[j as int]);
            if str_eq(kept[j].as_str(), m) {
                seen = true;
            }
            j = j + 1;
        }
        proof {
            if !seen {
                assert(!kv.contains(m@));
            }
        }
        if m.unicode_len() > 0 && !seen {
            kept.push(messages[i].clone());
            proof {
                assert(crate::paths::string_views(kept@) =~= kv.push(m@));
            }
        }
        i = i + 1;
    }
    proof {
        assert(ms.subrange(0, messages@.len() as int) =~= ms);
    }
    crate::recording::join_strings(&kept, ": ")
}

/// The error of a failed SaluteSpeech call; a certificate problem gets a
/// hint about the certificate the service needs.
pub fn salute_network_error(operation: &str, formatted: &str) -> (r: String)
    ensures
        r@ == (if text::contains_seq(text::ascii_lower_seq(formatted@), "certificate"@) {
            "SalutSpeech "@ + operation@ + " failed: "@ + formatted@
                + ". Проверьте сертификат НУЦ Минцифры для https://ngw.devices.sberbank.ru:9443/."@
        } else {
            "SalutSpeech "@ + operation@ + " failed: "@ + formatted@
        }),
{
    let mut r = "SalutSpeech ".to_string();
    r.append(operation);
    r.append(" failed: ");
    r.append(formatted);
    if str_contains(ascii_lowercase(formatted).as_str(), "certificate") {
        r.append(". Проверьте сертификат НУЦ Минцифры для https://ngw.devices.sberbank.ru:9443/.");
    }
    r
}

// ------------------------------------------------------- recognition task

pub open spec fn str_entry(e: (String, JsonValue), key: Seq<char>, value: Seq<char>) -> bool {
    &&& e.0@ == key
    &&& e.1 matches JsonValue::Str(s) && s@ == value
}

pub open spec fn num_entry(e: (String, JsonValue), key: Seq<char>, expected: int) -> bool {
    &&& e.0@ == key
    &&& e.1 matches JsonValue::Number { value: Some(n), text } && n == expected && text@
        == text::decimal(expected as nat)
}

/// Speakers are separated when diarization is asked for with the general
/// model.
pub open spec fn separates_speakers(s: PublicSettings) -> bool {
    s.transcription_task@ == "diarize"@ && text::trim(s.salute_speech_model@) == "general"@
}

/// The recognition options: model, audio encoding, sample rate, language,
/// channels, and speaker separation when it applies.
pub open spec fn task_options(opts: Seq<(String, JsonValue)>, s: PublicSettings, encoding: Seq<char>) -> bool {
    &&& opts.len() == (if separates_speakers(s) { 6int } else { 5int })
    &&& str_entry(opts[0], "model"@, text::trim(s.salute_speech_model@))
    &&& str_entry(opts[1], "audio_encoding"@, encoding)
    &&& num_entry(opts[2], "sample_rate"@, s.salute_speech_sample_rate as int)
    &&& str_entry(opts[3], "language"@, text::trim(s.salute_speech_language@))
    &&& num_entry(opts[4], "channels_count"@, s.salute_speech_channels_count as int)
    &&& separates_speakers(s) ==> opts[5].0@ == "speaker_separation_options"@ && (
    opts[5].1 matches JsonValue::Object(inner) && inner@.len() == 1 && inner@[0].0@ == "enable"@
        && inner@[0].1 == JsonValue::Bool(true))
}

/// The task a recording is submitted with: its options and the id of the
/// uploaded audio.
pub open spec fn task_payload(p: JsonValue, s: PublicSettings, encoding: Seq<char>, request_file_id: Seq<char>) -> bool {
    &&& p matches JsonValue::Object(entries)
    &&& entries@.len() == 2
    &&& entries@[0].0@ == "options"@
    &&& entries@[0].1 matches JsonValue::Object(opts)
    &&& task_options(opts@, s, encoding)
    &&& str_entry(entries@[1], "request_file_id"@, request_file_id)
}

fn number(n: u32) -> (v: JsonValue)
    ensures
        v matches JsonValue::Number { value: Some(i), text } && i == n && text@ == text::decimal(
            n as nat,
        ),
{
    JsonValue::Number { value: Some(n as i64), text: decimal_string(n as u64) }
}

fn str_member(key: &str, value: &str) -> (e: (String, JsonValue))
    ensures
        str_entry(e, key@, value@),
{
    (key.to_string(), JsonValue::Str(value.to_string()))
}

/// The recognition task for a recording; refused for audio formats the
/// service does not take.
pub fn recognition_task_payload(settings: &PublicSettings, audio_path: &str, request_file_id: &str) -> (r:
    Result<JsonValue, String>)
    ensures
        match r {
            Ok(p) => exists|enc: Seq<char>|
                task_payload(p, *settings, enc, request_file_id@) && ((lower_extension(audio_path@)
                    == "opus"@ && enc == "OPUS"@) || (lower_extension(audio_path@) == "mp3"@ && enc
                    == "MP3"@) || (lower_extension(audio_path@) == "wav"@ && enc == "PCM_S16LE"@)),
            Err(e) => lower_extension(audio_path@) != "opus"@ && lower_extension(audio_path@)
                != "mp3"@ && lower_extension(audio_path@) != "wav"@ && e@
                == "SalutSpeech does not support recorded audio format "@ + lower_extension(
                audio_path@,
            ),
        },
{
    let encoding = salute_speech_audio_encoding(audio_path)?;
    let model = trim_str(settings.salute_speech_model.as_str());
    let mut options: Vec<(String, JsonValue)> = Vec::new();
    options.push(str_member("model", model));
    options.push(str_member("audio_encoding", encoding));
    options.push(
        ("sample_rate".to_string(), number(settings.salute_speech_sample_rate)),
    );
    options.push(str_member("language", trim_str(settings.salute_speech_language.as_str())));
    options.push(
        (
            "channels_count".to_string(),
            number(settings.salute_speech_channels_count),
        ),
    );
    if str_eq(settings.transcription_task.as_str(), "diarize") && str_eq(model, "general") {
        let mut inner: Vec<(String, JsonValue)> = Vec::new();
        inner.push(("enable".to_string(), JsonValue::Bool(true)));
        options.push(("speaker_separation_options".to_string(), JsonValue::Object(inner)));
    }
    let mut entries: Vec<(String, JsonValue)> = Vec::new();
    entries.push(("options".to_string(), JsonValue::Object(options)));
    entries.push(str_member("request_file_id", request_file_id));
    let payload = JsonValue::Object(entries);
    assert(task_payload(payload, *settings, encoding@, request_file_id@));
    Ok(payload)
}

// ------------------------------------------------------------ JSON text

#[verifier::external_type_specification]
#[verifier::external_body]
pub struct ExSerdeJsonValue(serde_json::Value);

/// What `serde_json` writes for a value (`Value::to_string`, compact, object
/// members in `serde_json::Map`'s order).
pub uninterp spec fn spec_compact_json(v: JsonValue) -> Seq<char>;

/// `serde_json`'s own value for a value of the library: one for one, a
/// number read back from how it is written.
#[verifier::external_body]
fn serde_value(v: &JsonValue) -> serde_json::Value {
    match v {
        JsonValue::Null => serde_json::Value::Null,
        JsonValue::Bool(b) => serde_json::Value::Bool(*b),
        JsonValue::Number { text, .. } => serde_json::from_str(text).unwrap_or(serde_json::Value::Null),
        JsonValue::Str(s) => serde_json::Value::String(s.clone()),
        JsonValue::Array(items) => serde_json::Value::Array(items.iter().map(serde_value).collect()),
        JsonValue::Object(entries) => serde_json::Value::Object(
            entries.iter().map(|(k, x)| (k.clone(), serde_value(x))).collect(),
        ),
    }
}

/// The compact JSON text of a value, written by `serde_json`
/// (`Value::to_string`); only the naming of the result is claimed.
#[verifier::external_body]
fn compact_json(v: &JsonValue) -> (r: String)
    ensures
        r@ == spec_compact_json(*v),
{
    serde_value(v).to_string()
}

// ------------------------------------------------------- task error detail

/// A field that may explain a failed task, as it is weighed: absent or of
/// another kind, a string, or an object or list in its JSON text.
pub enum DetailSource {
    Missing,
    Text(String),
    Json(String),
}

/// What a source offers: a non-blank string, trimmed, or the JSON text.
pub open spec fn source_detail(s: DetailSource) -> Option<Seq<char>> {
    match s {
        DetailSource::Text(t) => if text::trim(t@).len() > 0 {
            Some(text::trim(t@))
        } else {
            None
        },
        DetailSource::Json(j) => Some(j@),
        DetailSource::Missing => None,
    }
}

pub open spec fn first_source_detail(sources: Seq<DetailSource>) -> Option<Seq<char>>
    decreases sources.len(),
{
    if sources.len() == 0 {
        None
    } else {
        match source_detail(sources[0]) {
            Some(d) => Some(d),
            None => first_source_detail(sources.drop_first()),
        }
    }
}

/// The whole reply's JSON text as a last resort: nothing for `null` or `{}`,
/// else at most its first 500 characters.
pub open spec fn fallback_detail(whole: Seq<char>) -> Seq<char> {
    if whole == "null"@ || whole == "{}"@ {
        seq![]
    } else if whole.len() > 500 {
        whole.subrange(0, 500)
    } else {
        whole
    }
}

/// The explanation given the sources, in the order they are consulted, and
/// the whole reply's JSON text: the first source that offers one, else the
/// fallback.
pub fn choose_task_error_detail(sources: &Vec<DetailSource>, whole: &str) -> (r: String)
    ensures
        r@ == match first_source_detail(sources@) {
            Some(d) => d,
            None => fallback_detail(whole@),
        },
{
    let mut k: usize = 0;
    assert(sources@.subrange(0, sources@.len() as int) =~= sources@);
    while k < sources.len()
        invariant
            k <= sources@.len(),
            first_source_detail(sources@) == first_source_detail(sources@.subrange(k as int, sources@.len() as int)),
        decreases sources@.len() - k,
    {
        proof {
            let rest = sources@.subrange(k as int, sources@.len() as int);
            assert(rest[0] == sources@[k as int]);
            assert(rest.drop_first() =~= sources@.subrange(k + 1, sources@.len() as int));
        }
        match &sources[k] {
            DetailSource::Text(t) => {
                let x = trim_str(t.as_str());
                if x.unicode_len() > 0 {
                    return x.to_string();
                }
            },
            DetailSource::Json(j) => {
                return j.clone();
            },
            DetailSource::Missing => {},
        }
        k = k + 1;
    }
    proof {
        reveal_strlit("null");
        reveal_strlit("{}");
        assert(sources@.subrange(sources@.len() as int, sources@.len() as int).len() == 0);
    }
    if str_eq(whole, "null") || str_eq(whole, "{}") {
        return String::new();
    }
    let n = whole.unicode_len();
    if n > 500 {
        whole.substring_char(0, 500).to_string()
    } else {
        whole.to_string()
    }
}

/// What a candidate field offers: a non-blank string (trimmed), or an
/// object or list as `serde_json` writes it.
pub open spec fn candidate_detail(c: Option<JsonValue>) -> Option<Seq<char>> {
    match c {
        Some(JsonValue::Str(t)) => if text::trim(t@).len() > 0 {
            Some(text::trim(t@))
        } else {
            None
        },
        Some(JsonValue::Object(e)) => Some(spec_compact_json(JsonValue::Object(e))),
        Some(JsonValue::Array(i)) => Some(spec_compact_json(JsonValue::Array(i))),
        _ => None,
    }
}

pub open spec fn first_detail(cands: Seq<Option<JsonValue>>) -> Option<Seq<char>>
    decreases cands.len(),
{
    if cands.len() == 0 {
        None
    } else {
        match candidate_detail(cands[0]) {
            Some(d) => Some(d),
            None => first_detail(cands.drop_first()),
        }
    }
}

/// The fields that may explain a failed task, in the order they are
/// consulted.
pub open spec fn detail_candidates(body: JsonValue) -> Seq<Option<JsonValue>> {
    let r = get(body, "result"@);
    seq![
        get(body, "error"@),
        get(body, "message"@),
        get(body, "detail"@),
        get_opt(r, "error"@),
        get_opt(r, "message"@),
        get_opt(r, "detail"@),
    ]
}

/// The explanation of a failed task: the first explaining field, else the
/// whole reply as JSON text (at most 500 characters), else nothing for an
/// empty reply.
pub open spec fn task_error_detail(body: JsonValue) -> Seq<char> {
    match first_detail(detail_candidates(body)) {
        Some(d) => d,
        None => fallback_detail(spec_compact_json(body)),
    }
}

fn source_of(c: Option<&JsonValue>) -> (s: DetailSource)
    ensures
        source_detail(s) == candidate_detail(crate::transcript::deref_opt(c)),
{
    match c {
        Some(JsonValue::Str(t)) => DetailSource::Text(t.clone()),
        Some(JsonValue::Object(_)) => DetailSource::Json(compact_json(c.unwrap())),
        Some(JsonValue::Array(_)) => DetailSource::Json(compact_json(c.unwrap())),
        _ => DetailSource::Missing,
    }
}

proof fn lemma_first_details_agree(sources: Seq<DetailSource>, cands: Seq<Option<JsonValue>>)
    requires
        sources.len() == cands.len(),
        forall|k: int| 0 <= k < sources.len() ==> source_detail(#[trigger] sources[k]) == candidate_detail(cands[k]),
    ensures
        first_source_detail(sources) == first_detail(cands),
    decreases sources.len(),
{
    if sources.len() > 0 {
        assert(source_detail(sources[0]) == candidate_detail(cands[0]));
        lemma_first_details_agree(sources.drop_first(), cands.drop_first());
    }
}

/// Why a task failed, for its error message (see [`task_error_detail`]).
pub fn salute_speech_task_error_detail(body: &JsonValue) -> (r: String)
    ensures
        r@ == task_error_detail(*body),
{
    let res = json_get(body, "result");
    let cands: Vec<Option<&JsonValue>> = vec![
        json_get(body, "error"),
        json_get(body, "message"),
        json_get(body, "detail"),
        match res {
            Some(x) => json_get(x, "error"),
            None => None,
        },
        match res {
            Some(x) => json_get(x, "message"),
            None => None,
        },
        match res {
            Some(x) => json_get(x, "detail"),
            None => None,
        },
    ];
    let ghost cs = detail_candidates(*body);
    assert(cands@.map_values(|o: Option<&JsonValue>| crate::transcript::deref_opt(o)) =~= cs);
    let mut sources: Vec<DetailSource> = Vec::new();
    let mut k: usize = 0;
    while k < cands.len()
        invariant
            k <= cands@.len(),
            cands@.len() == 6,
            cands@.map_values(|o: Option<&JsonValue>| crate::transcript::deref_opt(o)) == cs,
            sources@.len() == k,
            forall|j: int| 0 <= j < k ==> source_detail(#[trigger] sources@[j]) == candidate_detail(cs[j]),
        decreases cands@.len() - k,
    {
        proof {
            assert(crate::transcript::deref_opt(cands@[k as int]) == cs[k as int]);
        }
        sources.push(source_of(cands[k]));
        k = k + 1;
    }
    proof {
        lemma_first_details_agree(sources@, cs);
    }
    let whole = compact_json(body);
    choose_task_error_detail(&sources, whole.as_str())
}

} // verus!

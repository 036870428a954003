//! Reading a transcript out of a speech service's JSON reply: a Nexara
//! diarization reply becomes one line per speaker turn; a SaluteSpeech reply
//! becomes one paragraph per speaker when it separates speakers, else its
//! recognised chunks; otherwise the plain `text` field is taken.
//!
//! Replies are held as a [`JsonValue`] tree, which keeps of a JSON document
//! what these rules read: strings, arrays, objects and, of a number, its
//! written form and its value when it is a whole number within 64 bits.
use crate::paths::{join_with, string_views};
use crate::recording::join_strings;
use crate::text::{self, decimal_string, str_eq, trim_str};
use vstd::prelude::*;

verus! {

broadcast use vstd::string::group_string_axioms;

/// A JSON document. The entries of an object are kept in order; when a key
/// occurs twice, the later entry counts (as when a parser overwrites).
pub enum JsonValue {
    Null,
    Bool(bool),
    /// A number: its value when it is a whole number that fits in `i64`
    /// (`None` for fractions and larger values), and how it is written.
    Number { value: Option<i64>, text: String },
    Str(String),
    Array(Vec<JsonValue>),
    Object(Vec<(String, JsonValue)>),
}

// ---------------------------------------------------------------- parsing

/// What `serde_json::from_str` reads from a text, held as a [`JsonValue`]
/// (object members in `serde_json::Map`'s order); `None` when the text is
/// not JSON.
pub uninterp spec fn spec_json_value(text: Seq<char>) -> Option<JsonValue>;

/// The message of `serde_json`'s error for a text that is not JSON.
pub uninterp spec fn spec_json_error(text: Seq<char>) -> Seq<char>;

/// The library's value for one of `serde_json`: one for one, a number kept
/// with its value when it is a whole number within `i64` and its written form.
#[verifier::external_body]
fn json_of_serde(v: &serde_json::Value) -> JsonValue {
    match v {
        serde_json::Value::Null => JsonValue::Null,
        serde_json::Value::Bool(b) => JsonValue::Bool(*b),
        serde_json::Value::Number(n) => JsonValue::Number { value: n.as_i64(), text: n.to_string() },
        serde_json::Value::String(s) => JsonValue::Str(s.clone()),
        serde_json::Value::Array(items) => JsonValue::Array(items.iter().map(json_of_serde).collect()),
        serde_json::Value::Object(map) => JsonValue::Object(
            map.iter().map(|(k, x)| (k.clone(), json_of_serde(x))).collect(),
        ),
    }
}

/// Reads a text as JSON with `serde_json::from_str`; only the naming of the
/// value and of the error message is claimed.
#[verifier::external_body]
pub fn parse_json(text: &str) -> (r: Result<JsonValue, String>)
    ensures
        match spec_json_value(text@) {
            Some(v) => r == Ok::<JsonValue, String>(v),
            None => r matches Err(e) && e@ == spec_json_error(text@),
        },
{
    match serde_json::from_str::<serde_json::Value>(text) {
        Ok(v) => Ok(json_of_serde(&v)),
        Err(e) => Err(e.to_string()),
    }
}

// ------------------------------------------------------------------ lookup

/// The position of the entry with `key` (the last such entry), or -1.
pub open spec fn key_index(entries: Seq<(String, JsonValue)>, key: Seq<char>) -> int
    decreases entries.len(),
{
    if entries.len() == 0 {
        -1
    } else if entries.last().0@ == key {
        entries.len() - 1
    } else {
        key_index(entries.drop_last(), key)
    }
}

pub proof fn lemma_key_index_range(entries: Seq<(String, JsonValue)>, key: Seq<char>)
    ensures
        -1 <= key_index(entries, key) < entries.len(),
        key_index(entries, key) >= 0 ==> entries[key_index(entries, key)].0@ == key,
    decreases entries.len(),
{
    if entries.len() > 0 && entries.last().0@ != key {
        lemma_key_index_range(entries.drop_last(), key);
    }
}

/// `value.get(key)`: the member of an object.
pub open spec fn get(v: JsonValue, key: Seq<char>) -> Option<JsonValue> {
    match v {
        JsonValue::Object(entries) => {
            let i = key_index(entries@, key);
            if i >= 0 {
                Some(entries@[i].1)
            } else {
                None
            }
        },
        _ => None,
    }
}

pub open spec fn get_opt(v: Option<JsonValue>, key: Seq<char>) -> Option<JsonValue> {
    match v {
        Some(x) => get(x, key),
        None => None,
    }
}

/// `as_str` of an optional member.
pub open spec fn str_of(v: Option<JsonValue>) -> Option<Seq<char>> {
    match v {
        Some(JsonValue::Str(s)) => Some(s@),
        _ => None,
    }
}

/// `as_array` of an optional member.
pub open spec fn array_of(v: Option<JsonValue>) -> Option<Seq<JsonValue>> {
    match v {
        Some(JsonValue::Array(items)) => Some(items@),
        _ => None,
    }
}

/// `as_i64` of an optional member.
pub open spec fn i64_of(v: Option<JsonValue>) -> Option<i64> {
    match v {
        Some(JsonValue::Number { value, .. }) => value,
        _ => None,
    }
}

/// A string member, trimmed, when it is not blank.
pub open spec fn trimmed_text(v: JsonValue, key: Seq<char>) -> Option<Seq<char>> {
    match str_of(get(v, key)) {
        Some(t) => if text::trim(t).len() > 0 {
            Some(text::trim(t))
        } else {
            None
        },
        None => None,
    }
}

// ------------------------------------------------------- SaluteSpeech chunks

/// The text of one recognition result: its normalized text, else its raw
/// text (trimmed, not blank).
pub open spec fn result_text(r: JsonValue) -> Option<Seq<char>> {
    match trimmed_text(r, "normalized_text"@) {
        Some(t) => Some(t),
        None => trimmed_text(r, "text"@),
    }
}

/// The texts of the results that have one, in order.
pub open spec fn result_texts(items: Seq<JsonValue>) -> Seq<Seq<char>>
    decreases items.len(),
{
    if items.len() == 0 {
        seq![]
    } else {
        let rest = result_texts(items.drop_last());
        match result_text(items.last()) {
            Some(t) => rest.push(t),
            None => rest,
        }
    }
}

/// The text of one chunk of a reply: its own text, else the texts of its
/// results joined by spaces.
pub open spec fn chunk_text(item: JsonValue) -> Option<Seq<char>> {
    match result_text(item) {
        Some(t) => Some(t),
        None => match array_of(get(item, "results"@)) {
            Some(rs) => if result_texts(rs).len() == 0 {
                None
            } else {
                Some(join_with(result_texts(rs), " "@))
            },
            None => None,
        },
    }
}

pub open spec fn chunk_texts(items: Seq<JsonValue>) -> Seq<Seq<char>>
    decreases items.len(),
{
    if items.len() == 0 {
        seq![]
    } else {
        let rest = chunk_texts(items.drop_last());
        match chunk_text(items.last()) {
            Some(t) => rest.push(t),
            None => rest,
        }
    }
}

/// The recognised text of a reply: for a list of chunks, their texts as
/// paragraphs; for an object, the texts of its `results` joined by spaces,
/// else what its `result` member holds.
pub open spec fn results_text(body: JsonValue) -> Option<Seq<char>>
    decreases body,
{
    match body {
        JsonValue::Array(items) => if chunk_texts(items@).len() == 0 {
            None
        } else {
            Some(join_with(chunk_texts(items@), "\n\n"@))
        },
        JsonValue::Object(entries) => {
            let parts = match array_of(get(body, "results"@)) {
                Some(rs) => result_texts(rs),
                None => seq![],
            };
            if parts.len() > 0 {
                Some(join_with(parts, " "@))
            } else {
                let i = key_index(entries@, "result"@);
                if i >= 0 {
                    proof {
                        lemma_key_index_range(entries@, "result"@);
                    }
                    results_text(entries@[i].1)
                } else {
                    None
                }
            }
        },
        _ => None,
    }
}

// ------------------------------------------------------ separated speakers

/// The speaker a chunk is attributed to: `speaker_info.speaker_id` when it
/// is a whole number of at least 0.
pub open spec fn chunk_speaker(v: JsonValue) -> Option<i64> {
    match i64_of(get_opt(get(v, "speaker_info"@), "speaker_id"@)) {
        Some(id) => if id >= 0 {
            Some(id)
        } else {
            None
        },
        None => None,
    }
}

/// The utterances of one speaker's results: each result with a text.
pub open spec fn speaker_items(id: i64, rs: Seq<JsonValue>) -> Seq<(i64, Seq<char>)>
    decreases rs.len(),
{
    if rs.len() == 0 {
        seq![]
    } else {
        let rest = speaker_items(id, rs.drop_last());
        match result_text(rs.last()) {
            Some(t) => rest.push((id, t)),
            None => rest,
        }
    }
}

/// The utterances of a reply, in document order: every element of a list;
/// of an object, its results when it names a speaker, then what its
/// `result` member holds.
pub open spec fn utterances(v: JsonValue) -> Seq<(i64, Seq<char>)>
    decreases v,
{
    match v {
        JsonValue::Array(items) => utterances_in(items@),
        JsonValue::Object(entries) => {
            let own = match (array_of(get(v, "results"@)), chunk_speaker(v)) {
                (Some(rs), Some(id)) => speaker_items(id, rs),
                _ => seq![],
            };
            let i = key_index(entries@, "result"@);
            if i >= 0 {
                proof {
                    lemma_key_index_range(entries@, "result"@);
                }
                own + utterances(entries@[i].1)
            } else {
                own
            }
        },
        _ => seq![],
    }
}

pub open spec fn utterances_in(s: Seq<JsonValue>) -> Seq<(i64, Seq<char>)>
    decreases s,
{
    if s.len() == 0 {
        seq![]
    } else {
        utterances_in(s.subrange(0, s.len() - 1)) + utterances(s[s.len() - 1])
    }
}

/// The position of a speaker among merged paragraphs, or -1.
pub open spec fn speaker_index(m: Seq<(i64, Seq<char>)>, id: i64) -> int
    decreases m.len(),
{
    if m.len() == 0 {
        -1
    } else {
        let i = speaker_index(m.drop_last(), id);
        if i >= 0 {
            i
        } else if m.last().0 == id {
            m.len() - 1
        } else {
            -1
        }
    }
}

/// One paragraph per speaker, in order of first appearance, holding the
/// speaker's utterances joined by spaces.
pub open spec fn merged(u: Seq<(i64, Seq<char>)>) -> Seq<(i64, Seq<char>)>
    decreases u.len(),
{
    if u.len() == 0 {
        seq![]
    } else {
        let m = merged(u.drop_last());
        let (id, t) = u.last();
        let i = speaker_index(m, id);
        if i >= 0 {
            let prev = m[i].1;
            m.update(i, (id, if prev.len() == 0 { t } else { prev + " "@ + t }))
        } else {
            m.push((id, t))
        }
    }
}

pub open spec fn speaker_line(k: int, t: Seq<char>) -> Seq<char> {
    "speaker"@ + text::decimal(k as nat) + ": "@ + t
}

/// The transcript of a reply that separates speakers: `speaker{k}: ...`
/// paragraphs, speakers numbered from 0 in order of first appearance.
pub open spec fn speaker_transcript(body: JsonValue) -> Option<Seq<char>> {
    let u = utterances(body);
    if u.len() == 0 {
        None
    } else {
        let m = merged(u);
        Some(join_with(Seq::new(m.len(), |k: int| speaker_line(k, m[k].1)), "\n\n"@))
    }
}

// ------------------------------------------------------------ whole reply

/// The transcript of a reply: separated speakers first, then a top-level
/// `text`, then `result.text`, then the recognised chunks, else nothing.
pub open spec fn transcript_text(body: JsonValue) -> Seq<char> {
    match speaker_transcript(body) {
        Some(t) => t,
        None => match str_of(get(body, "text"@)) {
            Some(t) => t,
            None => match str_of(get_opt(get(body, "result"@), "text"@)) {
                Some(t) => t,
                None => match results_text(body) {
                    Some(t) => t,
                    None => seq![],
                },
            },
        },
    }
}

// --------------------------------------------------------- Nexara diarize

/// One speaker turn of a diarization reply: `speaker: text` with both
/// trimmed, the speaker `speaker_unknown` when blank; none for a blank text.
pub open spec fn segment_line(seg: JsonValue) -> Option<Seq<char>> {
    let t = match str_of(get(seg, "text"@)) {
        Some(x) => text::trim(x),
        None => seq![],
    };
    if t.len() == 0 {
        None
    } else {
        let speaker = match trimmed_text(seg, "speaker"@) {
            Some(x) => x,
            None => "speaker_unknown"@,
        };
        Some(speaker + ": "@ + t)
    }
}

pub open spec fn segment_lines(segs: Seq<JsonValue>) -> Seq<Seq<char>>
    decreases segs.len(),
{
    if segs.len() == 0 {
        seq![]
    } else {
        let rest = segment_lines(segs.drop_last());
        match segment_line(segs.last()) {
            Some(l) => rest.push(l),
            None => rest,
        }
    }
}

/// The transcript of a diarization reply (`task` is `diarize`): its
/// speaker turns as paragraphs; none when it is no such reply, has no
/// `segments` list or no turn with text.
pub open spec fn diarize_text(body: JsonValue) -> Option<Seq<char>> {
    let task = match str_of(get(body, "task"@)) {
        Some(t) => t,
        None => seq![],
    };
    if task != "diarize"@ {
        None
    } else {
        match array_of(get(body, "segments"@)) {
            None => None,
            Some(segs) => if segment_lines(segs).len() == 0 {
                None
            } else {
                Some(join_with(segment_lines(segs), "\n\n"@))
            },
        }
    }
}

// ------------------------------------------------------------- executable

pub open spec fn deref_opt(o: Option<&JsonValue>) -> Option<JsonValue> {
    match o {
        Some(x) => Some(*x),
        None => None,
    }
}

pub open spec fn str_view(o: Option<&str>) -> Option<Seq<char>> {
    match o {
        Some(s) => Some(s@),
        None => None,
    }
}

pub open spec fn string_view(o: Option<String>) -> Option<Seq<char>> {
    match o {
        Some(s) => Some(s@),
        None => None,
    }
}

pub open spec fn utterance_views(v: Seq<(i64, String)>) -> Seq<(i64, Seq<char>)> {
    v.map_values(|p: (i64, String)| (p.0, p.1@))
}

fn key_position(entries: &Vec<(String, JsonValue)>, key: &str) -> (r: Option<usize>)
    ensures
        match r {
            Some(i) => key_index(entries@, key@) == i as int && i < entries@.len(),
            None => key_index(entries@, key@) < 0,
        },
{
    let mut k: usize = entries.len();
    proof {
        assert(entries@.subrange(0, k as int) =~= entries@);
    }
    while k > 0
        invariant
            k <= entries@.len(),
            key_index(entries@, key@) == key_index(entries@.subrange(0, k as int), key@),
        decreases k,
    {
        let ghost pre = entries@.subrange(0, k as int);
        proof {
            assert(pre.drop_last() =~= entries@.subrange(0, k - 1));
            assert(pre.last() == entries@[k - 1]);
        }
        if str_eq(entries[k - 1].0.as_str(), key) {
            return Some(k - 1);
        }
        k = k - 1;
    }
    None
}

/// `value.get(key)`.
pub fn json_get<'a>(v: &'a JsonValue, key: &str) -> (r: Option<&'a JsonValue>)
    ensures
        deref_opt(r) == get(*v, key@),
{
    match v {
        JsonValue::Object(entries) => match key_position(entries, key) {
            Some(i) => Some(&entries[i].1),
            None => None,
        },
        _ => None,
    }
}

fn json_str<'a>(v: Option<&'a JsonValue>) -> (r: Option<&'a str>)
    ensures
        str_view(r) == str_of(deref_opt(v)),
{
    match v {
        Some(JsonValue::Str(s)) => Some(s.as_str()),
        _ => None,
    }
}

fn json_array<'a>(v: Option<&'a JsonValue>) -> (r: Option<&'a Vec<JsonValue>>)
    ensures
        match r {
            Some(items) => array_of(deref_opt(v)) == Some(items@),
            None => array_of(deref_opt(v)) is None,
        },
{
    match v {
        Some(JsonValue::Array(items)) => Some(items),
        _ => None,
    }
}

fn trimmed_member<'a>(v: &'a JsonValue, key: &str) -> (r: Option<&'a str>)
    ensures
        str_view(r) == trimmed_text(*v, key@),
{
    match json_str(json_get(v, key)) {
        Some(s) => {
            let t = trim_str(s);
            if t.unicode_len() > 0 {
                Some(t)
            } else {
                None
            }
        },
        None => None,
    }
}

/// The text of one recognition result.
pub fn extract_salute_result_text(result: &JsonValue) -> (r: Option<&str>)
    ensures
        str_view(r) == result_text(*result),
{
    match trimmed_member(result, "normalized_text") {
        Some(t) => Some(t),
        None => trimmed_member(result, "text"),
    }
}

fn result_texts_of(items: &Vec<JsonValue>) -> (r: Vec<String>)
    ensures
        string_views(r@) == result_texts(items@),
{
    let mut out: Vec<String> = Vec::new();
    let mut k: usize = 0;
    while k < items.len()
        invariant
            k <= items@.len(),
            string_views(out@) == result_texts(items@.subrange(0, k as int)),
        decreases items@.len() - k,
    {
        let ghost before = string_views(out@);
        let ghost pre = items@.subrange(0, k + 1);
        proof {
            assert(pre.drop_last() =~= items@.subrange(0, k as int));
        }
        match extract_salute_result_text(&items[k]) {
            Some(t) => {
                out.push(t.to_string());
                proof {
                    assert(string_views(out@) =~= before.push(t@));
                }
            },
            None => {},
        }
        k = k + 1;
    }
    proof {
        assert(items@.subrange(0, items@.len() as int) =~= items@);
    }
    out
}

/// The text of one chunk of a reply.
pub fn extract_salute_chunk_text(item: &JsonValue) -> (r: Option<String>)
    ensures
        string_view(r) == chunk_text(*item),
{
    if let Some(t) = extract_salute_result_text(item) {
        return Some(t.to_string());
    }
    match json_array(json_get(item, "results")) {
        Some(rs) => {
            let parts = result_texts_of(rs);
            if parts.len() == 0 {
                None
            } else {
                Some(join_strings(&parts, " "))
            }
        },
        None => None,
    }
}

fn chunk_texts_of(items: &Vec<JsonValue>) -> (r: Vec<String>)
    ensures
        string_views(r@) == chunk_texts(items@),
{
    let mut out: Vec<String> = Vec::new();
    let mut k: usize = 0;
    while k < items.len()
        invariant
            k <= items@.len(),
            string_views(out@) == chunk_texts(items@.subrange(0, k as int)),
        decreases items@.len() - k,
    {
        let ghost before = string_views(out@);
        let ghost pre = items@.subrange(0, k + 1);
        proof {
            assert(pre.drop_last() =~= items@.subrange(0, k as int));
        }
        match extract_salute_chunk_text(&items[k]) {
            Some(t) => {
                let ghost tv = t@;
                out.push(t);
                proof {
                    assert(string_views(out@) =~= before.push(tv));
                }
            },
            None => {},
        }
        k = k + 1;
    }
    proof {
        assert(items@.subrange(0, items@.len() as int) =~= items@);
    }
    out
}

/// The recognised text of a reply.
pub fn extract_salute_results_text(body: &JsonValue) -> (r: Option<String>)
    ensures
        string_view(r) == results_text(*body),
    decreases body,
{
    match body {
        JsonValue::Array(items) => {
            let chunks = chunk_texts_of(items);
            if chunks.len() == 0 {
                None
            } else {
                Some(join_strings(&chunks, "\n\n"))
            }
        },
        JsonValue::Object(entries) => {
            if let Some(rs) = json_array(json_get(body, "results")) {
                let parts = result_texts_of(rs);
                if parts.len() > 0 {
                    return Some(join_strings(&parts, " "));
                }
            }
            match key_position(entries, "result") {
                Some(i) => {
                    proof {
                        lemma_key_index_range(entries@, "result"@);
                        assert(decreases_to!(body => entries@[i as int].1));
                    }
                    extract_salute_results_text(&entries[i].1)
                },
                None => None,
            }
        },
        _ => None,
    }
}

fn chunk_speaker_of(v: &JsonValue) -> (r: Option<i64>)
    ensures
        r == chunk_speaker(*v),
{
    let info = json_get(v, "speaker_info");
    let id = match info {
        Some(i) => json_get(i, "speaker_id"),
        None => None,
    };
    match id {
        Some(JsonValue::Number { value: Some(n), .. }) => if *n >= 0 {
            Some(*n)
        } else {
            None
        },
        _ => None,
    }
}

/// Appends the utterances of a reply (see [`utterances`]) to `out`.
pub fn collect_salute_speaker_utterances(body: &JsonValue, out: &mut Vec<(i64, String)>)
    ensures
        utterance_views(final(out)@) == utterance_views(old(out)@) + utterances(*body),
    decreases body,
{
    match body {
        JsonValue::Array(items) => {
            let mut k: usize = 0;
            while k < items.len()
                invariant
                    k <= items@.len(),
                    *body == JsonValue::Array(*items),
                    utterance_views(out@) == utterance_views(old(out)@) + utterances_in(
                        items@.subrange(0, k as int),
                    ),
                decreases items@.len() - k,
            {
                let ghost pre = items@.subrange(0, k + 1);
                proof {
                    assert(pre.subrange(0, pre.len() - 1) =~= items@.subrange(0, k as int));
                    assert(pre[pre.len() - 1] == items@[k as int]);
                    assert(body->Array_0 == *items);
                    assert(decreases_to!(*body => body->Array_0));
                    assert(decreases_to!(body => items@[k as int]));
                }
                collect_salute_speaker_utterances(&items[k], out);
                proof {
                    assert(utterances_in(pre) == utterances_in(items@.subrange(0, k as int))
                        + utterances(items@[k as int]));
                }
                k = k + 1;
            }
            proof {
                assert(items@.subrange(0, items@.len() as int) =~= items@);
            }
        },
        JsonValue::Object(entries) => {
            let ghost start = utterance_views(out@);
            let results = json_array(json_get(body, "results"));
            let speaker = chunk_speaker_of(body);
            match (results, speaker) {
                (Some(rs), Some(id)) => {
                    let mut k: usize = 0;
                    while k < rs.len()
                        invariant
                            k <= rs@.len(),
                            utterance_views(out@) == start + speaker_items(
                                id,
                                rs@.subrange(0, k as int),
                            ),
                        decreases rs@.len() - k,
                    {
                        let ghost before = utterance_views(out@);
                        let ghost pre = rs@.subrange(0, k + 1);
                        proof {
                            assert(pre.drop_last() =~= rs@.subrange(0, k as int));
                        }
                        match extract_salute_result_text(&rs[k]) {
                            Some(t) => {
                                out.push((id, t.to_string()));
                                proof {
                                    assert(utterance_views(out@) =~= before.push((id, t@)));
                                }
                            },
                            None => {},
                        }
                        k = k + 1;
                    }
                    proof {
                        assert(rs@.subrange(0, rs@.len() as int) =~= rs@);
                    }
                },
                _ => {},
            }
            let ghost mid = utterance_views(out@);
            match key_position(entries, "result") {
                Some(i) => {
                    proof {
                        lemma_key_index_range(entries@, "result"@);
                        assert(decreases_to!(body => entries@[i as int].1));
                    }
                    collect_salute_speaker_utterances(&entries[i].1, out);
                },
                None => {},
            }
            proof {
                assert(utterance_views(out@) =~= utterance_views(old(out)@) + utterances(*body));
            }
        },
        _ => {
            proof {
                assert(utterance_views(out@) =~= utterance_views(old(out)@) + utterances(*body));
            }
        },
    }
}

proof fn lemma_speaker_index_first(m: Seq<(i64, Seq<char>)>, id: i64, k: int)
    requires
        0 <= k <= m.len(),
        forall|j: int| 0 <= j < k ==> m[j].0 != id,
    ensures
        k < m.len() && m[k].0 == id ==> speaker_index(m, id) == k,
        k == m.len() ==> speaker_index(m, id) == -1,
    decreases m.len(),
{
    if m.len() > 0 {
        if k < m.len() {
            if k < m.len() - 1 {
                lemma_speaker_index_first(m.drop_last(), id, k);
            } else {
                lemma_speaker_index_first(m.drop_last(), id, k);
            }
        } else {
            lemma_speaker_index_first(m.drop_last(), id, k - 1);
        }
    }
}

/// Merges utterances into one paragraph per speaker (see [`merged`]).
pub fn merge_speaker_utterances(u: &Vec<(i64, String)>) -> (m: Vec<(i64, String)>)
    ensures
        utterance_views(m@) == merged(utterance_views(u@)),
{
    let ghost uv = utterance_views(u@);
    let mut m: Vec<(i64, String)> = Vec::new();
    let mut k: usize = 0;
    while k < u.len()
        invariant
            k <= u@.len(),
            uv == utterance_views(u@),
            utterance_views(m@) == merged(uv.subrange(0, k as int)),
        decreases u@.len() - k,
    {
        let ghost mv = utterance_views(m@);
        let ghost pre = uv.subrange(0, k + 1);
        proof {
            assert(pre.drop_last() =~= uv.subrange(0, k as int));
            assert(pre.last() == (u@[k as int].0, u@[k as int].1@));
        }
        let id = u[k].0;
        let mut j: usize = 0;
        while j < m.len() && m[j].0 != id
            invariant
                j <= m@.len(),
                mv == utterance_views(m@),
                forall|x: int| 0 <= x < j ==> mv[x].0 != id,
            decreases m@.len() - j,
        {
            j = j + 1;
        }
        proof {
            lemma_speaker_index_first(mv, id, j as int);
        }
        if j < m.len() {
            let mut text_so_far = m[j].1.clone();
            if text_so_far.as_str().unicode_len() > 0 {
                text_so_far.append(" ");
            }
            text_so_far.append(u[k].1.as_str());
            m.set(j, (id, text_so_far));
            proof {
                assert(utterance_views(m@) =~= merged(pre));
            }
        } else {
            m.push((id, u[k].1.clone()));
            proof {
                assert(utterance_views(m@) =~= merged(pre));
            }
        }
        k = k + 1;
    }
    proof {
        assert(uv.subrange(0, u@.len() as int) =~= uv);
    }
    m
}

/// The transcript of a reply that separates speakers.
pub fn extract_salute_speaker_transcript(body: &JsonValue) -> (r: Option<String>)
    ensures
        string_view(r) == speaker_transcript(*body),
{
    let mut u: Vec<(i64, String)> = Vec::new();
    collect_salute_speaker_utterances(body, &mut u);
    assert(utterance_views(u@) =~= utterances(*body));
    if u.len() == 0 {
        return None;
    }
    let m = merge_speaker_utterances(&u);
    let ghost mv = utterance_views(m@);
    let mut lines: Vec<String> = Vec::new();
    let mut k: usize = 0;
    while k < m.len()
        invariant
            k <= m@.len(),
            mv == utterance_views(m@),
            lines@.len() == k,
            forall|j: int| 0 <= j < k ==> #[trigger] lines@[j]@ == speaker_line(j, mv[j].1),
        decreases m@.len() - k,
    {
        let mut line = "speaker".to_string();
        line.append(decimal_string(k as u64).as_str());
        line.append(": ");
        line.append(m[k].1.as_str());
        lines.push(line);
        k = k + 1;
    }
    assert(string_views(lines@) =~= Seq::new(mv.len(), |j: int| speaker_line(j, mv[j].1)));
    Some(join_strings(&lines, "\n\n"))
}

/// The transcript of a speech service's reply (see [`transcript_text`]);
/// every reply yields one, possibly empty.
pub fn extract_transcript_text(body: &JsonValue) -> (r: Result<String, String>)
    ensures
        r matches Ok(t) && t@ == transcript_text(*body),
{
    if let Some(t) = extract_salute_speaker_transcript(body) {
        return Ok(t);
    }
    if let Some(t) = json_str(json_get(body, "text")) {
        return Ok(t.to_string());
    }
    let nested = match json_get(body, "result") {
        Some(res) => json_str(json_get(res, "text")),
        None => None,
    };
    if let Some(t) = nested {
        return Ok(t.to_string());
    }
    if let Some(t) = extract_salute_results_text(body) {
        return Ok(t);
    }
    Ok(String::new())
}

fn segment_line_of(seg: &JsonValue) -> (r: Option<String>)
    ensures
        string_view(r) == segment_line(*seg),
{
    let t = match json_str(json_get(seg, "text")) {
        Some(x) => trim_str(x),
        None => "",
    };
    proof {
        reveal_strlit("");
    }
    if t.unicode_len() == 0 {
        return None;
    }
    let speaker = match trimmed_member(seg, "speaker") {
        Some(x) => x,
        None => "speaker_unknown",
    };
    let mut line = speaker.to_string();
    line.append(": ");
    line.append(t);
    Some(line)
}

/// The transcript of a diarization reply (see [`diarize_text`]).
pub fn format_diarize_segments(body: &JsonValue) -> (r: Option<String>)
    ensures
        string_view(r) == diarize_text(*body),
{
    let task = match json_str(json_get(body, "task")) {
        Some(t) => t,
        None => "",
    };
    proof {
        reveal_strlit("");
        assert(task@ == match str_of(get(*body, "task"@)) {
            Some(t) => t,
            None => seq![],
        });
    }
    if !str_eq(task, "diarize") {
        return None;
    }
    let segs = match json_array(json_get(body, "segments")) {
        Some(s) => s,
        None => return None,
    };
    let mut lines: Vec<String> = Vec::new();
    let mut k: usize = 0;
    while k < segs.len()
        invariant
            k <= segs@.len(),
            string_views(lines@) == segment_lines(segs@.subrange(0, k as int)),
        decreases segs@.len() - k,
    {
        let ghost before = string_views(lines@);
        let ghost pre = segs@.subrange(0, k + 1);
        proof {
            assert(pre.drop_last() =~= segs@.subrange(0, k as int));
        }
        match segment_line_of(&segs[k]) {
            Some(l) => {
                let ghost lv = l@;
                lines.push(l);
                proof {
                    assert(string_views(lines@) =~= before.push(lv));
                }
            },
            None => {},
        }
        k = k + 1;
    }
    proof {
        assert(segs@.subrange(0, segs@.len() as int) =~= segs@);
    }
    if lines.len() == 0 {
        None
    } else {
        Some(join_strings(&lines, "\n\n"))
    }
}

/// The transcript a transcription reply yields: a diarization reply's
/// speaker turns when there are any, else [`transcript_text`].
pub open spec fn reply_transcript(body: JsonValue) -> Seq<char> {
    match diarize_text(body) {
        Some(t) => t,
        None => transcript_text(body),
    }
}

pub fn transcript_from_reply(body: &JsonValue) -> (r: String)
    ensures
        r@ == reply_transcript(*body),
{
    if let Some(formatted) = format_diarize_segments(body) {
        return formatted;
    }
    match extract_transcript_text(body) {
        Ok(t) => t,
        Err(e) => e,
    }
}

/// A recognition result's text is its normalized text, trimmed, whenever
/// that member is a string that is not blank, whatever its raw text holds;
/// the raw text (trimmed, when a non-blank string) counts only when the
/// normalized text is missing, not a string, or blank.
pub proof fn lemma_normalized_text_comes_first(result: JsonValue)
    ensures
        (str_of(get(result, "normalized_text"@)) matches Some(n) && text::trim(n).len() > 0) ==> result_text(result)
            == Some(text::trim(str_of(get(result, "normalized_text"@))->0)),
        !(str_of(get(result, "normalized_text"@)) matches Some(n) && text::trim(n).len() > 0) ==> result_text(result)
            == match str_of(get(result, "text"@)) {
            Some(t) => if text::trim(t).len() > 0 {
                Some(text::trim(t))
            } else {
                None
            },
            None => None,
        },
{
}

} // verus!

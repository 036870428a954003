use bigecho::transcript::{
    extract_salute_chunk_text, extract_salute_result_text, extract_salute_results_text,
    extract_salute_speaker_transcript, extract_transcript_text, format_diarize_segments, json_get,
    transcript_from_reply, JsonValue,
};

fn s(text: &str) -> JsonValue {
    JsonValue::Str(text.to_string())
}

fn n(v: i64) -> JsonValue {
    JsonValue::Number { value: Some(v), text: v.to_string() }
}

fn obj(entries: Vec<(&str, JsonValue)>) -> JsonValue {
    JsonValue::Object(entries.into_iter().map(|(k, v)| (k.to_string(), v)).collect())
}

fn arr(items: Vec<JsonValue>) -> JsonValue {
    JsonValue::Array(items)
}

fn chunk(texts: &[&str], speaker: Option<i64>) -> JsonValue {
    let results = arr(texts.iter().map(|t| obj(vec![("normalized_text", s(t))])).collect());
    match speaker {
        Some(id) => obj(vec![("results", results), ("speaker_info", obj(vec![("speaker_id", n(id))]))]),
        None => obj(vec![("results", results), ("eou", JsonValue::Bool(true))]),
    }
}

#[test]
fn extract_transcript_text_reads_salutespeech_results_array() {
    let body = arr(vec![chunk(&["привет", "мир"], None), chunk(&["как дела"], None)]);
    let text = extract_transcript_text(&body).expect("text");
    assert_eq!(text, "привет мир\n\nкак дела");
}

#[test]
fn extract_transcript_text_formats_salutespeech_speaker_separation() {
    let body = arr(vec![
        chunk(&["Привет", "как дела"], Some(1)),
        chunk(&["Нормально"], Some(2)),
        chunk(&["Отлично"], Some(1)),
        chunk(&["общий текст который не должен попасть в diarization transcript"], Some(-1)),
    ]);
    let text = extract_transcript_text(&body).expect("text");
    assert_eq!(text, "speaker0: Привет как дела Отлично\n\nspeaker1: Нормально");
}

#[test]
fn transcribe_audio_formats_diarize_segments_as_speaker_transcript() {
    let body = obj(vec![
        ("task", s("diarize")),
        ("language", s("ru")),
        ("duration", JsonValue::Number { value: None, text: "12.3".into() }),
        ("text", s("fallback text")),
        (
            "segments",
            arr(vec![
                obj(vec![("start", n(0)), ("speaker", s("speaker_0")), ("text", s("Привет"))]),
                obj(vec![("start", JsonValue::Number { value: None, text: "1.2".into() }), ("speaker", s("speaker_1")), ("text", s("И тебе привет"))]),
            ]),
        ),
    ]);
    assert_eq!(transcript_from_reply(&body), "speaker_0: Привет\n\nspeaker_1: И тебе привет");
}

#[test]
fn diarize_segments_need_diarize_task_and_text() {
    let seg = |speaker: &str, text: &str| obj(vec![("speaker", s(speaker)), ("text", s(text))]);
    let body = obj(vec![("task", s("transcribe")), ("segments", arr(vec![seg("a", "b")]))]);
    assert_eq!(format_diarize_segments(&body), None);
    let body = obj(vec![("task", s("diarize"))]);
    assert_eq!(format_diarize_segments(&body), None);
    let body = obj(vec![("task", s("diarize")), ("segments", arr(vec![seg("x", "  ")]))]);
    assert_eq!(format_diarize_segments(&body), None);
    let body = obj(vec![("task", s("diarize")), ("segments", arr(vec![seg("  ", " hi "), seg("x", "")]))]);
    assert_eq!(format_diarize_segments(&body).as_deref(), Some("speaker_unknown: hi"));
}

#[test]
fn plain_text_replies() {
    assert_eq!(extract_transcript_text(&obj(vec![("text", s(" as is "))])), Ok(" as is ".to_string()));
    assert_eq!(
        extract_transcript_text(&obj(vec![("result", obj(vec![("text", s("nested"))]))])),
        Ok("nested".to_string())
    );
    assert_eq!(extract_transcript_text(&obj(vec![("other", n(1))])), Ok(String::new()));
    assert_eq!(extract_transcript_text(&JsonValue::Null), Ok(String::new()));
    assert_eq!(transcript_from_reply(&obj(vec![("text", s("t"))])), "t");
}

#[test]
fn results_and_chunks() {
    let r = obj(vec![("normalized_text", s("  ")), ("text", s(" raw "))]);
    assert_eq!(extract_salute_result_text(&r), Some("raw"));
    assert_eq!(extract_salute_result_text(&obj(vec![])), None);
    let c = obj(vec![("results", arr(vec![obj(vec![("text", s("a"))]), obj(vec![]), obj(vec![("text", s("b"))])]))]);
    assert_eq!(extract_salute_chunk_text(&c).as_deref(), Some("a b"));
    assert_eq!(extract_salute_chunk_text(&obj(vec![])), None);
    let nested = obj(vec![("result", obj(vec![("results", arr(vec![obj(vec![("text", s("deep"))])]))]))]);
    assert_eq!(extract_salute_results_text(&nested).as_deref(), Some("deep"));
    assert_eq!(extract_salute_results_text(&s("x")), None);
}

#[test]
fn speakers_inside_result_members_are_found() {
    let body = obj(vec![("result", arr(vec![chunk(&["one"], Some(7)), chunk(&["two"], Some(3))]))]);
    assert_eq!(
        extract_salute_speaker_transcript(&body).as_deref(),
        Some("speaker0: one\n\nspeaker1: two")
    );
    assert_eq!(extract_salute_speaker_transcript(&chunk(&["x"], None)), None);
}

#[test]
fn later_duplicate_key_counts() {
    let o = obj(vec![("k", s("first")), ("k", s("second"))]);
    assert!(matches!(json_get(&o, "k"), Some(JsonValue::Str(v)) if v == "second"));
    assert!(json_get(&o, "missing").is_none());
    assert!(json_get(&s("k"), "k").is_none());
}

use bigecho::salute::{
    choose_task_error_detail, salute_speech_task_error_detail, status_poll_attempts, status_poll_delay_ms, DetailSource, http_failure_message, invalid_json_message, join_error_chain, poll_timeout_message,
    recognition_task_payload, salute_access_token, salute_network_error, salute_request_file_id,
    salute_task_id, task_failure_message, task_poll_step, TaskPoll,
};
use bigecho::settings::PublicSettings;
use bigecho::transcript::{json_get, JsonValue};

fn s(text: &str) -> JsonValue {
    JsonValue::Str(text.to_string())
}

fn obj(entries: Vec<(&str, JsonValue)>) -> JsonValue {
    JsonValue::Object(entries.into_iter().map(|(k, v)| (k.to_string(), v)).collect())
}

#[test]
fn reply_fields_are_read() {
    assert_eq!(salute_access_token(&obj(vec![("access_token", s("salute-token"))])), Ok("salute-token".to_string()));
    assert_eq!(
        salute_access_token(&obj(vec![("access_token", s("  "))])),
        Err("SalutSpeech token response does not contain access_token".to_string())
    );
    let upload = obj(vec![("status", JsonValue::Number { value: Some(200), text: "200".into() }), ("result", obj(vec![("request_file_id", s("request-file-1"))]))]);
    assert_eq!(salute_request_file_id(&upload), Ok("request-file-1".to_string()));
    assert_eq!(
        salute_request_file_id(&obj(vec![])),
        Err("SalutSpeech upload response does not contain request_file_id".to_string())
    );
    let created = obj(vec![("result", obj(vec![("id", s("task-1")), ("status", s("NEW"))]))]);
    assert_eq!(salute_task_id(&created), Ok("task-1".to_string()));
    assert_eq!(
        salute_task_id(&obj(vec![("id", s("task-1"))])),
        Err("SalutSpeech recognition response does not contain task id".to_string())
    );
}

#[test]
fn poll_steps() {
    let done = obj(vec![("result", obj(vec![("status", s("DONE")), ("response_file_id", s("resp-1"))]))]);
    assert!(matches!(task_poll_step(&done), TaskPoll::Done(Ok(ref id)) if id == "resp-1"));
    let done_blank = obj(vec![("status", s("DONE")), ("response_file_id", s(" ")), ("result", obj(vec![("response_file_id", s("r"))]))]);
    assert!(matches!(
        task_poll_step(&done_blank),
        TaskPoll::Done(Err(ref e)) if e == "SalutSpeech task status does not contain response_file_id"
    ));
    let failed = obj(vec![("status", s("ERROR")), ("error", s("unsupported audio encoding"))]);
    assert!(matches!(task_poll_step(&failed), TaskPoll::Finished { ref status } if status == "ERROR"));
    let canceled = obj(vec![("status", s("CANCELED"))]);
    assert!(matches!(task_poll_step(&canceled), TaskPoll::Finished { ref status } if status == "CANCELED"));
    let running = obj(vec![("result", obj(vec![("status", s("RUNNING"))]))]);
    assert!(matches!(task_poll_step(&running), TaskPoll::Pending { ref status } if status == "RUNNING"));
    assert!(matches!(task_poll_step(&JsonValue::Null), TaskPoll::Pending { ref status } if status.is_empty()));
}

#[test]
fn transcribe_audio_reports_salutespeech_task_error_detail() {
    let err = task_failure_message("ERROR", "unsupported audio encoding");
    assert!(err.contains("status ERROR"));
    assert!(err.contains("unsupported audio encoding"));
    assert_eq!(task_failure_message("CANCELED", ""), "SalutSpeech task finished with status CANCELED");
}

#[test]
fn failure_texts() {
    assert_eq!(poll_timeout_message(30, ""), "SalutSpeech task polling timed out");
    assert_eq!(
        poll_timeout_message(30, "RUNNING"),
        "SalutSpeech task polling timed out after 30 attempts; last status: RUNNING"
    );
    assert_eq!(
        http_failure_message("salutespeech upload", "500 Internal Server Error", " boom \n"),
        "salutespeech upload failed with status 500 Internal Server Error: boom"
    );
    assert_eq!(http_failure_message("x", "404 Not Found", "  "), "x failed with status 404 Not Found");
    assert_eq!(invalid_json_message("x", "EOF"), "x returned invalid JSON: EOF");
    assert_eq!(
        salute_network_error("token request", "invalid peer Certificate: UnknownIssuer"),
        "SalutSpeech token request failed: invalid peer Certificate: UnknownIssuer. Проверьте сертификат НУЦ Минцифры для https://ngw.devices.sberbank.ru:9443/."
    );
    assert_eq!(salute_network_error("audio upload", "timeout"), "SalutSpeech audio upload failed: timeout");
}

#[test]
fn error_chains_drop_repeats() {
    let chain = vec![
        "error sending request".to_string(),
        "client error (Connect)".to_string(),
        "".to_string(),
        "client error (Connect)".to_string(),
        "Connection refused".to_string(),
    ];
    assert_eq!(join_error_chain(&chain), "error sending request: client error (Connect): Connection refused");
    assert_eq!(join_error_chain(&vec!["only".to_string()]), "only");
}

fn settings(task: &str, model: &str) -> PublicSettings {
    PublicSettings {
        transcription_provider: "salute_speech".to_string(),
        transcription_task: task.to_string(),
        salute_speech_model: model.to_string(),
        ..PublicSettings::default()
    }
}

#[test]
fn transcribe_audio_enables_salutespeech_speaker_separation_for_diarize_task() {
    let payload = recognition_task_payload(&settings("diarize", " general "), "/x/audio.opus", "request-file-1")
        .expect("payload");
    let options = json_get(&payload, "options").expect("options");
    let sep = json_get(options, "speaker_separation_options").expect("separation");
    assert!(matches!(json_get(sep, "enable"), Some(JsonValue::Bool(true))));
    assert!(matches!(json_get(options, "model"), Some(JsonValue::Str(m)) if m == "general"));
    assert!(matches!(json_get(&payload, "request_file_id"), Some(JsonValue::Str(m)) if m == "request-file-1"));
}

#[test]
fn transcribe_audio_uses_actual_recorded_file_format_for_salutespeech() {
    let payload = recognition_task_payload(&settings("transcribe", "general"), "/x/audio.mp3", "r").expect("payload");
    let options = json_get(&payload, "options").expect("options");
    assert!(matches!(json_get(options, "audio_encoding"), Some(JsonValue::Str(m)) if m == "MP3"));
    assert!(matches!(json_get(options, "sample_rate"), Some(JsonValue::Number { value: Some(48_000), text }) if text == "48000"));
    assert!(matches!(json_get(options, "channels_count"), Some(JsonValue::Number { value: Some(1), text }) if text == "1"));
    assert!(matches!(json_get(options, "language"), Some(JsonValue::Str(m)) if m == "ru-RU"));
    assert!(json_get(options, "speaker_separation_options").is_none());
    assert_eq!(
        recognition_task_payload(&settings("transcribe", "general"), "/x/audio.m4a", "r").err(),
        Some("SalutSpeech does not support recorded audio format m4a".to_string())
    );
}

fn num(v: i64) -> JsonValue {
    JsonValue::Number { value: Some(v), text: v.to_string() }
}

#[test]
fn task_error_detail_is_serde_json_text_of_the_reply() {
    let body = obj(vec![
        ("status", s("ERROR")),
        ("a", JsonValue::Array(vec![num(1), JsonValue::Bool(false), JsonValue::Null])),
        ("b", s("q\"\\\n\t\u{1}é")),
        ("c", JsonValue::Number { value: None, text: "12.5".into() }),
    ]);
    assert_eq!(
        salute_speech_task_error_detail(&body),
        "{\"a\":[1,false,null],\"b\":\"q\\\"\\\\\\n\\t\\u0001é\",\"c\":12.5,\"status\":\"ERROR\"}"
    );
}

#[test]
fn chosen_detail_takes_first_source_that_explains() {
    let sources = vec![
        DetailSource::Missing,
        DetailSource::Text("   ".to_string()),
        DetailSource::Json("{\"code\":3}".to_string()),
        DetailSource::Text("later".to_string()),
    ];
    assert_eq!(choose_task_error_detail(&sources, "{\"x\":1}"), "{\"code\":3}");
    let sources = vec![DetailSource::Text("  bad file ".to_string())];
    assert_eq!(choose_task_error_detail(&sources, "{}"), "bad file");
}

#[test]
fn chosen_detail_falls_back_to_the_whole_reply() {
    let none = vec![DetailSource::Missing, DetailSource::Text(String::new())];
    assert_eq!(choose_task_error_detail(&none, "null"), "");
    assert_eq!(choose_task_error_detail(&none, "{}"), "");
    assert_eq!(choose_task_error_detail(&none, "{\"status\":\"CANCELED\"}"), "{\"status\":\"CANCELED\"}");
    let long = "y".repeat(700);
    assert_eq!(choose_task_error_detail(&none, &long), "y".repeat(500));
}

#[test]
fn task_error_detail_prefers_explaining_fields() {
    let body = obj(vec![("status", s("ERROR")), ("error", s(" unsupported audio encoding "))]);
    assert_eq!(salute_speech_task_error_detail(&body), "unsupported audio encoding");
    let body = obj(vec![("error", s("  ")), ("message", obj(vec![("code", num(3))]))]);
    assert_eq!(salute_speech_task_error_detail(&body), "{\"code\":3}");
    let body = obj(vec![("result", obj(vec![("detail", s("bad file"))])), ("status", s("ERROR"))]);
    assert_eq!(salute_speech_task_error_detail(&body), "bad file");
    let body = obj(vec![("status", s("CANCELED"))]);
    assert_eq!(salute_speech_task_error_detail(&body), "{\"status\":\"CANCELED\"}");
    assert_eq!(salute_speech_task_error_detail(&obj(vec![])), "");
    assert_eq!(salute_speech_task_error_detail(&JsonValue::Null), "");
    let long = obj(vec![("status", s(&"x".repeat(600)))]);
    assert_eq!(salute_speech_task_error_detail(&long).chars().count(), 500);
}

#[test]
fn status_polls_use_positive_configured_values_or_defaults() {
    assert_eq!(status_poll_attempts(None), 300);
    assert_eq!(status_poll_attempts(Some(0)), 300);
    assert_eq!(status_poll_attempts(Some(3)), 3);
    assert_eq!(status_poll_delay_ms(None), 1000);
    assert_eq!(status_poll_delay_ms(Some(0)), 0);
    assert_eq!(status_poll_delay_ms(Some(25)), 25);
}

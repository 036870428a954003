use bigecho::catalog::schedule_attempt;
use bigecho::editors::png_data_url;
use bigecho::redaction::body_preview;
use bigecho::salute::json_reply;
use bigecho::secrets::secrets_from_file_text;
use bigecho::session_commands::session_date_time_parts;
use bigecho::transcript::{json_get, parse_json, JsonValue};

fn number_of(v: Option<&JsonValue>) -> Option<i64> {
    match v {
        Some(JsonValue::Number { value, .. }) => *value,
        _ => None,
    }
}

#[test]
fn parse_json_reads_values_and_reports_errors() {
    let v = parse_json("{\"b\": [1, \"x\"], \"a\": 7}").unwrap();
    assert_eq!(number_of(json_get(&v, "a")), Some(7));
    assert!(matches!(json_get(&v, "b"), Some(JsonValue::Array(items)) if items.len() == 2));
    let err = parse_json("{nope").err().unwrap();
    assert!(err.contains("line 1"));
}

#[test]
fn json_reply_fails_on_status_then_on_invalid_json() {
    let r = json_reply("summary", false, "404 Not Found", "  missing  ");
    assert_eq!(r.err().unwrap(), "summary failed with status 404 Not Found: missing");
    let r = json_reply("summary", false, "500 Internal Server Error", "   ");
    assert_eq!(r.err().unwrap(), "summary failed with status 500 Internal Server Error");
    let r = json_reply("summary", true, "200 OK", "not json");
    assert!(r.err().unwrap().starts_with("summary returned invalid JSON: "));
    let r = json_reply("summary", true, "200 OK", "{\"text\":\"hi\"}").unwrap();
    assert!(matches!(json_get(&r, "text"), Some(JsonValue::Str(s)) if s == "hi"));
}

#[test]
fn fallback_file_text_gives_string_entries_only() {
    let m = secrets_from_file_text("{\"A\":\"one\",\"B\":5,\"C\":\"two\"}").unwrap();
    assert_eq!(m.get("A"), Some("one"));
    assert_eq!(m.get("B"), None);
    assert_eq!(m.get("C"), Some("two"));
    assert_eq!(secrets_from_file_text("[1,2]").err().unwrap(), "Invalid fallback secret file format");
    assert!(secrets_from_file_text("{").is_err());
    assert_eq!(
        secrets_from_file_text("{\"A\":\"bad\\u0007\"}").err().unwrap(),
        "Invalid stored secret for A: control characters are not allowed"
    );
}

#[test]
fn png_data_url_is_standard_base64_with_padding() {
    assert_eq!(png_data_url(&[1, 2, 3]), "data:image/png;base64,AQID");
    assert_eq!(png_data_url(&[0xff]), "data:image/png;base64,/w==");
    assert_eq!(png_data_url(&[]), "data:image/png;base64,");
}

#[test]
fn session_parts_are_local_date_and_dashed_time() {
    let (date, time) = session_date_time_parts("2026-06-15T12:34:56+00:00").unwrap();
    let d: Vec<char> = date.chars().collect();
    assert_eq!(d.len(), 10);
    assert_eq!((d[2], d[5]), ('.', '.'));
    assert!(date.ends_with("2026"));
    let t: Vec<char> = time.chars().collect();
    assert_eq!(t.len(), 8);
    assert_eq!((t[2], t[5]), ('-', '-'));
    assert!(time.ends_with("-56"));
    assert!(session_date_time_parts("yesterday").is_err());
}

#[test]
fn retry_jobs_stop_after_max_then_start_over() {
    let mut stored: Option<i64> = None;
    let mut seen = Vec::new();
    for _ in 0..4 {
        stored = schedule_attempt(stored, 2);
        seen.push(stored);
    }
    assert_eq!(seen, vec![Some(1), Some(2), None, Some(1)]);
    assert_eq!(schedule_attempt(None, 0), None);
}

#[test]
fn preview_never_shows_a_long_token() {
    let token = "raw-auth-AAAAAAAAAAAAAAAA";
    let raw = format!("error:\t{token} {}{token}\u{1}tail", "x".repeat(195));
    let p = body_preview(&raw, token);
    assert!(!p.contains(token));
}

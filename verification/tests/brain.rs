use bigecho::archive::TOKEN_KEY;
use bigecho::brain::{
    accept_reply, audio_format_from_path, error_for_status, plan_upload, skipped_response,
    upload_failure_message, upload_metadata, validate_upload_url, BrainUploadError,
    BrainUploadErrorCode, BrainUploadPublicError, BrainUploadResponse, UploadPlan,
};
use bigecho::redaction::{body_preview, replace_chars, sanitize_error};
use bigecho::session::SessionMeta;

fn reply(ok: bool, duplicate: Option<bool>, error: Option<&str>) -> BrainUploadResponse {
    BrainUploadResponse {
        ok,
        job_id: None,
        status: None,
        principal_id: None,
        workspace_id: None,
        workspace_slug: None,
        inbox_path: None,
        meta_path: None,
        duplicate,
        error: error.map(|e| e.to_string()),
    }
}

#[test]
fn token_key_matches_brain_server_secret_name() {
    assert_eq!(TOKEN_KEY, "BRAIN_SERVER_API_TOKEN");
}

#[test]
fn public_error_from_unauthorized_never_includes_body_preview() {
    let public = BrainUploadPublicError::from_brain_upload_error(&BrainUploadError::Unauthorized {
        body_preview: "Bearer secret-token-was-here".to_string(),
    });
    assert_eq!(public.code, BrainUploadErrorCode::Unauthorized);
    assert!(!public.message.contains("secret-token"));
    assert!(!public.message.contains("Bearer"));
}

#[test]
fn public_error_from_api_never_includes_server_message() {
    let public = BrainUploadPublicError::from_brain_upload_error(&BrainUploadError::Api(
        "internal debug token=abc123".to_string(),
    ));
    assert_eq!(public.code, BrainUploadErrorCode::ApiError);
    assert!(!public.message.contains("abc123"));
    assert!(!public.message.contains("token"));
}

#[test]
fn public_error_for_server_status_names_the_status() {
    let public = BrainUploadPublicError::from_brain_upload_error(&BrainUploadError::Server {
        status: 503,
        body_preview: "down".to_string(),
    });
    assert_eq!(public.code, BrainUploadErrorCode::ServerError);
    assert_eq!(public.message, "Brain вернул ошибку сервера (503).");
    let json = BrainUploadPublicError::from_brain_upload_error(&BrainUploadError::Json("x".to_string()));
    assert_eq!(json.code, BrainUploadErrorCode::Unknown);
}

#[test]
fn fixed_public_errors() {
    assert_eq!(BrainUploadPublicError::invalid_url().code, BrainUploadErrorCode::InvalidUrl);
    assert_eq!(BrainUploadPublicError::token_missing().message, "API-токен Brain не настроен.");
    assert_eq!(BrainUploadPublicError::already_running().code, BrainUploadErrorCode::AlreadyRunning);
    let c = BrainUploadPublicError::configuration("bad".to_string());
    assert_eq!(c.code, BrainUploadErrorCode::ConfigurationError);
    assert_eq!(c.message, "bad");
}

#[test]
fn error_messages_follow_display_format() {
    let e = BrainUploadError::Server { status: 502, body_preview: "gateway".to_string() };
    assert_eq!(e.message(), "server error (502): gateway");
    let e = BrainUploadError::PayloadTooLarge { body_preview: "too large".to_string() };
    assert_eq!(e.message(), "payload too large (413): too large");
    assert_eq!(BrainUploadError::Network("dns".to_string()).message(), "network error: dns");
}

#[test]
fn statuses_map_to_error_kinds() {
    assert!(error_for_status(200, "{}", "t").is_none());
    assert!(error_for_status(201, "{}", "t").is_none());
    assert!(matches!(error_for_status(401, "no", "t"), Some(BrainUploadError::Unauthorized { .. })));
    assert!(matches!(error_for_status(403, "no", "t"), Some(BrainUploadError::Forbidden { .. })));
    assert!(matches!(
        error_for_status(413, "too large", "zzz"),
        Some(BrainUploadError::PayloadTooLarge { ref body_preview }) if body_preview == "too large"
    ));
    assert!(matches!(error_for_status(415, "", "t"), Some(BrainUploadError::UnsupportedMediaType { .. })));
    assert!(matches!(error_for_status(500, "", "t"), Some(BrainUploadError::Server { status: 500, .. })));
    assert!(matches!(error_for_status(599, "", "t"), Some(BrainUploadError::Server { status: 599, .. })));
    assert!(matches!(error_for_status(404, "", "t"), Some(BrainUploadError::Http { status: 404, .. })));
}

#[test]
fn upload_audio_error_display_uses_sanitized_truncated_body_preview() {
    let raw_body = format!("token=SECRET-123\nemail=user@example.com\n{}", "x".repeat(260));
    let err = error_for_status(413, &raw_body, "secret-token").expect("413 should fail");
    let display = err.message();
    assert!(!display.contains("SECRET-123"));
    assert!(!display.contains("user@example.com"));
    assert!(!display.contains('\n'));
    assert!(display.contains("[redacted]"));
    assert!(display.len() < raw_body.len());
}

#[test]
fn upload_audio_redacts_exact_long_token_before_truncating_body_preview() {
    let token = format!("raw-auth-{}", "A".repeat(260));
    let raw_body = format!("server echoed {token} after auth failure");
    let err = error_for_status(500, &raw_body, &token).expect("5xx should fail");
    let display = err.message();
    assert!(!display.contains(&token));
    assert!(!display.contains(&token[..80]));
    assert!(display.contains("[redacted]"));
}

#[test]
fn body_preview_collapses_whitespace_and_redacts_words() {
    assert_eq!(body_preview("  hello \t world\n", ""), "hello world");
    assert_eq!(body_preview("Bearer abc", ""), "[redacted] abc");
    assert_eq!(body_preview("mail me@x.org now", ""), "mail [redacted] now");
    assert_eq!(body_preview("key AAAAAAAAAAAAAAAAAAAAAAAA end", ""), "key [redacted] end");
    assert_eq!(body_preview("short AAAA end", ""), "short AAAA end");
    assert_eq!(body_preview("a\u{7}b", ""), "a b");
}

#[test]
fn body_preview_cuts_at_two_hundred_characters() {
    let body = "ab ".repeat(100);
    let p = body_preview(&body, "");
    assert_eq!(p.chars().count(), 203);
    assert!(p.ends_with("..."));
    let short = "ab ".repeat(60);
    assert_eq!(body_preview(&short, ""), short.trim_end());
}

#[test]
fn sanitize_error_replaces_every_occurrence() {
    assert_eq!(sanitize_error("tok and tok".to_string(), "tok"), "[redacted] and [redacted]");
    assert_eq!(sanitize_error("nothing".to_string(), ""), "nothing");
    let out = replace_chars(&['a', 'a', 'a'], &['a', 'a'], &['b']);
    assert_eq!(out, vec!['b', 'a']);
}

#[test]
fn upload_treats_200_duplicate_as_success() {
    let r = accept_reply(Ok(reply(false, Some(true), None))).expect("duplicate accepted");
    assert_eq!(r.duplicate, Some(true));
    assert!(accept_reply(Ok(reply(true, None, None))).is_ok());
}

#[test]
fn declined_reply_becomes_api_error() {
    match accept_reply(Ok(reply(false, None, Some("quota")))) {
        Err(BrainUploadError::Api(m)) => assert_eq!(m, "quota"),
        _ => panic!("expected api error"),
    }
    match accept_reply(Ok(reply(false, Some(false), None))) {
        Err(BrainUploadError::Api(m)) => assert_eq!(m, "upload was not accepted"),
        _ => panic!("expected api error"),
    }
    match accept_reply(Err("expected value".to_string())) {
        Err(BrainUploadError::Json(m)) => assert_eq!(m, "expected value"),
        _ => panic!("expected json error"),
    }
}

#[test]
fn upload_url_must_be_http() {
    assert_eq!(validate_upload_url("  https://brain.example/upload  "), Ok("https://brain.example/upload".to_string()));
    assert_eq!(validate_upload_url(""), Err("Invalid Brain sync URL".to_string()));
    assert_eq!(validate_upload_url("ftp://brain.example"), Err("Invalid Brain sync URL".to_string()));
    assert_eq!(validate_upload_url("not a url"), Err("Invalid Brain sync URL".to_string()));
}

#[test]
fn upload_plan_checks_switch_url_and_token() {
    assert!(matches!(plan_upload(true, false, "https://b/u", Some("t")), UploadPlan::Skip));
    match plan_upload(false, false, "https://b/u", Some(" t ")) {
        UploadPlan::Upload { url, token } => {
            assert_eq!(url, "https://b/u");
            assert_eq!(token, "t");
        }
        _ => panic!("expected upload"),
    }
    match plan_upload(true, true, "bad", Some("t")) {
        UploadPlan::Reject(m) => assert_eq!(m, "Invalid Brain sync URL"),
        _ => panic!("expected reject"),
    }
    match plan_upload(true, true, "https://b/u", None) {
        UploadPlan::Reject(m) => assert_eq!(m, "Brain sync token is not configured"),
        _ => panic!("expected reject"),
    }
    match plan_upload(true, true, "https://b/u", Some("   ")) {
        UploadPlan::Reject(m) => assert_eq!(m, "Brain sync token is not configured"),
        _ => panic!("expected reject"),
    }
}

#[test]
fn failure_message_removes_the_token() {
    let e = BrainUploadError::Api("bad token abc".to_string());
    assert_eq!(upload_failure_message(&e, "abc"), "api error: bad token [redacted]");
}

#[test]
fn metadata_uses_topic_or_id_as_title() {
    let mut meta = SessionMeta::new(
        "session-upload".to_string(),
        "zoom".to_string(),
        vec!["team".to_string(), "weekly".to_string()],
        "Weekly sync".to_string(),
        "Remember risks".to_string(),
    );
    let m = upload_metadata(&meta, "/s/audio.OPUS", "mp3", "2.4.1");
    assert_eq!(m.title, "Weekly sync");
    assert_eq!(m.audio_format, "opus");
    assert_eq!(m.app, "BigEcho");
    assert_eq!(m.app_version, "2.4.1");
    assert_eq!(m.tags, vec!["team".to_string(), "weekly".to_string()]);
    meta.topic = "  ".to_string();
    let m = upload_metadata(&meta, "/s/audio", "mp3", "2.4.1");
    assert_eq!(m.title, "session-upload");
    assert_eq!(m.audio_format, "mp3");
    assert_eq!(audio_format_from_path("/s/a. WAV ", "x"), "wav");
}

#[test]
fn skipped_response_is_ok_and_marked() {
    let r = skipped_response();
    assert!(r.ok);
    assert_eq!(r.status.as_deref(), Some("skipped"));
}

#[test]
fn sanitized_text_no_longer_contains_the_token() {
    let token = "S3CR3T-9f8";
    let raw = format!("401 for {token}{token}: bad token S3CR3T-9f8 (S3CR3T-9)").to_string();
    let out = sanitize_error(raw, token);
    assert!(!out.contains(token));
    assert_eq!(out, "401 for [redacted][redacted]: bad token [redacted] (S3CR3T-9)");
}

#[test]
fn long_bracket_free_token_never_survives_sanitizing() {
    let token = "secret-token";
    let raw = "auth secret-tokensecret-token failed; retry with secret-token".to_string();
    let out = sanitize_error(raw, token);
    assert_eq!(out, "auth [redacted][redacted] failed; retry with [redacted]");
    assert!(!out.contains(token));
}

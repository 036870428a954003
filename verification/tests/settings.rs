use bigecho::settings::{
    contains_disallowed_token_chars, settings_file_path, validate_secret_token, PublicSettings,
};

#[test]
fn rejects_invalid_urls() {
    let s = PublicSettings {
        transcription_url: "not-a-url".to_string(),
        ..PublicSettings::default()
    };
    assert!(s.validate().is_err());
}

#[test]
fn accepts_valid_urls() {
    let s = PublicSettings {
        transcription_url: "https://example.com/transcribe".to_string(),
        summary_url: "https://example.com/summary".to_string(),
        ..PublicSettings::default()
    };
    assert!(s.validate().is_ok());
}

#[test]
fn rejects_non_http_urls() {
    let s = PublicSettings {
        transcription_url: "file:///tmp/transcribe".to_string(),
        ..PublicSettings::default()
    };
    assert!(s.validate().is_err());
}

#[test]
fn auto_run_pipeline_on_stop_is_disabled_by_default() {
    assert!(!PublicSettings::default().auto_run_pipeline_on_stop);
}

#[test]
fn api_call_logging_is_disabled_by_default() {
    assert!(!PublicSettings::default().api_call_logging_enabled);
}

#[test]
fn rejects_invalid_salutespeech_scope() {
    let s = PublicSettings {
        transcription_provider: "salute_speech".to_string(),
        salute_speech_scope: "invalid".to_string(),
        ..PublicSettings::default()
    };
    assert_eq!(s.validate(), Err("Invalid SalutSpeech scope".to_string()));
}

#[test]
fn rejects_invalid_salutespeech_model() {
    let s = PublicSettings {
        transcription_provider: "salute_speech".to_string(),
        salute_speech_model: "invalid".to_string(),
        ..PublicSettings::default()
    };
    assert_eq!(s.validate(), Err("Invalid SalutSpeech recognition model".to_string()));
}

#[test]
fn rejects_unknown_audio_format() {
    let s = PublicSettings {
        audio_format: "flac".to_string(),
        ..PublicSettings::default()
    };
    assert_eq!(s.validate(), Err("Invalid audio format".to_string()));
}

#[test]
fn rejects_unknown_transcription_provider() {
    let s = PublicSettings {
        transcription_provider: "other".to_string(),
        ..PublicSettings::default()
    };
    assert_eq!(s.validate(), Err("Invalid transcription provider".to_string()));
}

#[test]
fn rejects_unsupported_audio_format_for_salutespeech() {
    let s = PublicSettings {
        transcription_provider: "salute_speech".to_string(),
        audio_format: "m4a".to_string(),
        ..PublicSettings::default()
    };
    assert_eq!(
        s.validate(),
        Err("SalutSpeech supports only opus, mp3, or wav audio".to_string())
    );
}

#[test]
fn default_settings_validate() {
    assert_eq!(PublicSettings::default().validate(), Ok(()));
}

#[test]
fn rejects_non_http_summary_url() {
    let s = PublicSettings {
        summary_url: "ftp://example.com/summary".to_string(),
        ..PublicSettings::default()
    };
    assert_eq!(s.validate(), Err("Invalid summary URL".to_string()));
}

#[test]
fn rejects_unknown_transcription_task() {
    let s = PublicSettings {
        transcription_task: "translate".to_string(),
        ..PublicSettings::default()
    };
    assert_eq!(s.validate(), Err("Invalid transcription task".to_string()));
}

#[test]
fn default_settings_values() {
    let s = PublicSettings::default();
    assert_eq!(s.recording_root, "./recordings");
    assert_eq!(s.transcription_provider, "nexara");
    assert_eq!(s.audio_format, "opus");
    assert_eq!(s.opus_bitrate_kbps, 24);
    assert_eq!(s.summary_prompt, "Есть стенограмма встречи. Подготовь краткое саммари.");
    assert_eq!(s.yandex_sync_interval, "24h");
    assert_eq!(s.yandex_sync_remote_folder, "BigEcho");
    assert!(!s.brain_sync_enabled);
}

#[test]
fn settings_file_lives_in_app_data() {
    assert_eq!(settings_file_path("/data/app"), "/data/app/settings.json");
}

#[test]
fn validate_secret_token_rejects_newlines_and_unicode_separators() {
    for token in ["token\nvalue", "token\rvalue", "token\u{2028}value", "token\u{2029}value", "\u{FEFF}token"] {
        let err = validate_secret_token(token).expect_err("token should be rejected");
        assert_eq!(err, "Token must not contain control characters");
    }
}

#[test]
fn validate_secret_token_accepts_normal_tokens() {
    assert_eq!(
        validate_secret_token("  abc123-token_value  ").expect("valid token"),
        "abc123-token_value"
    );
}

#[test]
fn validate_secret_token_rejects_blank_tokens() {
    assert_eq!(validate_secret_token("   \t"), Err("Token must not be empty".to_string()));
}

#[test]
fn validating_a_valid_token_again_changes_nothing() {
    let once = validate_secret_token("  abc  ").expect("valid");
    assert_eq!(validate_secret_token(once), Ok("abc"));
}

#[test]
fn disallowed_token_characters() {
    assert!(contains_disallowed_token_chars("a\u{7f}b"));
    assert!(!contains_disallowed_token_chars("plain-token"));
}

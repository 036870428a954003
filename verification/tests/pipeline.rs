use bigecho::pipeline::{
    api_call_log_line, chars_detail, completion, endpoint_or_default,
    explain_transcription_error, format_multiline_block, needs_summary, needs_transcription,
    resolve_summary_prompt, retry_scheduled_detail, salute_speech_audio_encoding,
    salute_speech_upload_content_type, summary_request_log_detail,
    transcription_request_log_detail_with, transcription_secret_name, transcript_for_summary,
    PipelineMode, SALUTE_SPEECH_DEFAULT_API_BASE_URL, SALUTE_SPEECH_DEFAULT_AUTH_URL,
};
use bigecho::settings::PublicSettings;

fn sample_settings() -> PublicSettings {
    PublicSettings {
        recording_root: "./recordings".to_string(),
        artifact_open_app: String::new(),
        transcription_provider: "nexara".to_string(),
        transcription_url: "https://api.nexara.ru/api/v1/audio/transcriptions".to_string(),
        transcription_task: "diarize".to_string(),
        transcription_diarization_setting: "general".to_string(),
        salute_speech_scope: "SALUTE_SPEECH_PERS".to_string(),
        salute_speech_model: "general".to_string(),
        salute_speech_language: "ru-RU".to_string(),
        salute_speech_sample_rate: 48_000,
        salute_speech_channels_count: 1,
        summary_url: "https://example.com/summary".to_string(),
        summary_prompt: String::new(),
        openai_model: "gpt-4.1-mini".to_string(),
        audio_format: "opus".to_string(),
        opus_bitrate_kbps: 24,
        mic_device_name: String::new(),
        system_device_name: String::new(),
        artifact_opener_app: String::new(),
        auto_run_pipeline_on_stop: false,
        api_call_logging_enabled: false,
        ..PublicSettings::default()
    }
}

#[test]
fn summarize_text_prefers_non_empty_custom_prompt_override() {
    let settings = PublicSettings {
        recording_root: "./recordings".to_string(),
        artifact_open_app: String::new(),
        transcription_provider: "nexara".to_string(),
        transcription_url: "https://example.com/transcribe".to_string(),
        transcription_task: "transcribe".to_string(),
        transcription_diarization_setting: "general".to_string(),
        salute_speech_scope: "SALUTE_SPEECH_CORP".to_string(),
        salute_speech_model: "general".to_string(),
        salute_speech_language: "ru-RU".to_string(),
        salute_speech_sample_rate: 48_000,
        salute_speech_channels_count: 1,
        summary_url: "https://example.com/summary".to_string(),
        summary_prompt: "Системный промпт".to_string(),
        openai_model: "gpt-4.1-mini".to_string(),
        audio_format: "opus".to_string(),
        opus_bitrate_kbps: 24,
        mic_device_name: String::new(),
        system_device_name: String::new(),
        artifact_opener_app: String::new(),
        auto_run_pipeline_on_stop: false,
        api_call_logging_enabled: false,
        ..PublicSettings::default()
    };

    assert_eq!(resolve_summary_prompt(&settings, Some("  Кастомный промпт  ")), "Кастомный промпт");
    assert_eq!(resolve_summary_prompt(&settings, Some("   ")), "Системный промпт");
}

#[test]
fn summary_prompt_falls_back_to_builtin_default() {
    let mut settings = sample_settings();
    settings.summary_prompt = "  ".to_string();
    assert_eq!(
        resolve_summary_prompt(&settings, None),
        "Есть стенограмма встречи. Подготовь краткое саммари."
    );
}

#[test]
fn transcription_request_log_for_salutespeech_uses_salute_endpoints() {
    let mut settings = sample_settings();
    settings.transcription_provider = "salute_speech".to_string();

    let detail = transcription_request_log_detail_with(
        &settings,
        SALUTE_SPEECH_DEFAULT_AUTH_URL,
        SALUTE_SPEECH_DEFAULT_API_BASE_URL,
    );

    assert!(detail.contains("provider=salute_speech"));
    assert!(detail.contains("auth_url="));
    assert!(detail.contains("api_base_url="));
    assert!(!detail.contains("url=https://api.nexara.ru/api/v1/audio/transcriptions"));
}

#[test]
fn transcription_request_log_for_nexara_is_exact() {
    let settings = sample_settings();
    let detail = transcription_request_log_detail_with(&settings, "a", "b");
    assert_eq!(
        detail,
        "provider=nexara url=https://api.nexara.ru/api/v1/audio/transcriptions task=diarize \
         diarization_setting=general salute_scope=SALUTE_SPEECH_PERS salute_model=general"
    );
}

#[test]
fn summary_log_counts_prompt_characters() {
    let mut settings = sample_settings();
    settings.summary_prompt = " Привет ".to_string();
    assert_eq!(
        summary_request_log_detail(&settings),
        "url=https://example.com/summary model=gpt-4.1-mini prompt_chars=6"
    );
    assert_eq!(chars_detail("transcript_chars", "абв"), "transcript_chars=3");
}

#[test]
fn modes_select_steps() {
    assert!(needs_transcription(PipelineMode::Full));
    assert!(needs_transcription(PipelineMode::TranscriptionOnly));
    assert!(!needs_transcription(PipelineMode::SummaryOnly));
    assert!(needs_summary(PipelineMode::Full));
    assert!(!needs_summary(PipelineMode::TranscriptionOnly));
    assert!(needs_summary(PipelineMode::SummaryOnly));
    assert_eq!(completion(PipelineMode::Full), ("done", true));
    assert_eq!(completion(PipelineMode::TranscriptionOnly), ("transcribed", false));
    assert_eq!(completion(PipelineMode::SummaryOnly), ("done", false));
}

#[test]
fn secret_names_follow_provider() {
    assert_eq!(transcription_secret_name("salute_speech"), "SALUTE_SPEECH_AUTH_KEY");
    assert_eq!(transcription_secret_name("nexara"), "NEXARA_API_KEY");
}

#[test]
fn missing_token_errors_are_explained() {
    assert_eq!(
        explain_transcription_error("No token specified", "nexara", "", Some("locked")),
        "No token specified. keyring lookup error for NEXARA_API_KEY: locked"
    );
    assert_eq!(
        explain_transcription_error("No token specified", "nexara", " ", None),
        "No token specified. NEXARA_API_KEY is empty"
    );
    assert_eq!(
        explain_transcription_error("bad gateway", "salute_speech", "", None),
        "bad gateway. SALUTE_SPEECH_AUTH_KEY is empty"
    );
    assert_eq!(explain_transcription_error("bad gateway", "nexara", "", None), "bad gateway");
}

#[test]
fn endpoints_fall_back_to_defaults() {
    assert_eq!(endpoint_or_default(None, SALUTE_SPEECH_DEFAULT_API_BASE_URL), "https://smartspeech.sber.ru");
    assert_eq!(endpoint_or_default(Some("http://x".to_string()), "d"), "http://x");
}

#[test]
fn transcript_for_summary_rejects_blank() {
    assert_eq!(transcript_for_summary("  text \n"), Ok("text".to_string()));
    assert_eq!(transcript_for_summary(" \n "), Err("Transcript file is empty".to_string()));
}

#[test]
fn retry_and_api_log_lines() {
    assert_eq!(retry_scheduled_detail(2, "boom"), "Attempt 2 scheduled due to: boom");
    assert_eq!(retry_scheduled_detail(-3, "boom"), "Attempt -3 scheduled due to: boom");
    assert_eq!(retry_scheduled_detail(i64::MIN, "x"), "Attempt -9223372036854775808 scheduled due to: x");
    assert_eq!(api_call_log_line("t0", "summary_request", "x=1"), "t0 | summary_request | x=1");
}

#[test]
fn salute_speech_formats_follow_extension() {
    assert_eq!(salute_speech_audio_encoding("/a/b/audio.OPUS"), Ok("OPUS"));
    assert_eq!(salute_speech_audio_encoding("a.mp3"), Ok("MP3"));
    assert_eq!(salute_speech_audio_encoding("a.wav"), Ok("PCM_S16LE"));
    assert_eq!(
        salute_speech_audio_encoding("a.flac"),
        Err("SalutSpeech does not support recorded audio format flac".to_string())
    );
    assert_eq!(salute_speech_upload_content_type("a.opus"), Ok("audio/ogg;codecs=opus".to_string()));
    assert_eq!(salute_speech_upload_content_type("a.mp3"), Ok("audio/mpeg".to_string()));
    assert_eq!(salute_speech_upload_content_type("a.wav"), Ok("audio/x-pcm;bit=16".to_string()));
    assert!(salute_speech_upload_content_type("noext").is_err());
}

#[test]
fn multiline_blocks_split_lines() {
    assert_eq!(format_multiline_block(""), vec!["<empty>".to_string()]);
    assert_eq!(
        format_multiline_block("a\r\nb\n\nc\n"),
        vec!["a".to_string(), "b".to_string(), "".to_string(), "c".to_string()]
    );
}

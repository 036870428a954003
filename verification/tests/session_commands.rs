use bigecho::audio::{RecordingMuteState, SharedRecordingControl};
use bigecho::session::{SessionArtifacts, SessionMeta};
use bigecho::session_commands::{
    build_ui_sync_state_view, content_matches_query, delete_check, imported_audio_file_name,
    imported_topic_from_path, numbered_dir_name, resolve_artifact_path, search_hit, search_query,
    session_relative_dir, set_ui_sync_state, summary_name, supported_audio_extension,
    transcript_name, UiSyncState, apply_session_details, open_command, open_failure_message,
    session_meta_view, UpdateSessionDetailsRequest,
};

fn sample_meta() -> SessionMeta {
    let mut meta = SessionMeta::new(
        "s1".to_string(),
        "slack".to_string(),
        vec!["slack".to_string()],
        "Topic".to_string(),
        String::new(),
    );
    meta.artifacts = SessionArtifacts {
        audio_file: "audio.opus".to_string(),
        transcript_file: "transcript.txt".to_string(),
        summary_file: "summary.md".to_string(),
        meta_file: "meta.json".to_string(),
        ..SessionArtifacts::default()
    };
    meta
}

#[test]
fn resolves_transcript_artifact_path() {
    let path = resolve_artifact_path("/tmp/s1", &sample_meta(), "transcript").expect("path");
    assert_eq!(path, "/tmp/s1/transcript.txt");
}

#[test]
fn resolves_summary_artifact_path() {
    let path = resolve_artifact_path("/tmp/s1", &sample_meta(), "summary").expect("path");
    assert_eq!(path, "/tmp/s1/summary.md");
}

#[test]
fn rejects_unknown_artifact_kind() {
    let result = resolve_artifact_path("/tmp/s1", &sample_meta(), "audio");
    assert_eq!(result, Err("Unsupported artifact kind".to_string()));
}

#[test]
fn ui_sync_state_view_includes_authoritative_mute_state() {
    let mut ui = UiSyncState::default();
    ui.source = "telegram".to_string();
    ui.topic = "Daily sync".to_string();
    let active = SessionMeta::new(
        "active-session".to_string(),
        "telegram".to_string(),
        vec!["telegram".to_string()],
        "Daily sync".to_string(),
        String::new(),
    );
    let mut control = SharedRecordingControl::new();
    control.set_channel("mic", true).expect("mute mic");

    let view = build_ui_sync_state_view(&ui, Some(&active), &control);

    assert_eq!(view.source, "telegram");
    assert_eq!(view.topic, "Daily sync");
    assert!(view.is_recording);
    assert_eq!(view.active_session_id.as_deref(), Some("active-session"));
    assert_eq!(view.mute_state, RecordingMuteState { mic_muted: true, system_muted: false });
}

#[test]
fn ui_sync_state_keeps_source_when_blank() {
    let mut ui = UiSyncState::default();
    assert_eq!(ui.source, "slack");
    set_ui_sync_state(&mut ui, "  zoom ", "A".to_string());
    assert_eq!(ui.source, "zoom");
    assert_eq!(ui.topic, "A");
    set_ui_sync_state(&mut ui, "   ", "B".to_string());
    assert_eq!(ui.source, "zoom");
    assert_eq!(ui.topic, "B");
}

#[test]
fn import_names_follow_the_file() {
    assert_eq!(supported_audio_extension("/x/Call.MP3"), Ok("mp3".to_string()));
    assert_eq!(supported_audio_extension("/x/call.flac"), Err("Unsupported audio file".to_string()));
    assert_eq!(supported_audio_extension("/x/call"), Err("Unsupported audio file".to_string()));
    assert_eq!(imported_topic_from_path("/x/Weekly call.m4a"), "Weekly call");
    assert_eq!(imported_audio_file_name("m4a"), "audio.m4a");
    assert_eq!(session_relative_dir("10.04.2026", "15-06-07"), "10.04.2026/meeting_15-06-07");
    assert_eq!(transcript_name("10.04.2026"), "transcript_10.04.2026.txt");
    assert_eq!(summary_name("10.04.2026"), "summary_10.04.2026.md");
    assert_eq!(numbered_dir_name("meeting_15-06-07", 2), "meeting_15-06-07_2");
}

#[test]
fn search_matches_case_insensitively() {
    let q = search_query("  ACME Renewal Risk ");
    assert_eq!(q, "acme renewal risk");
    assert!(content_matches_query("Обсудили ACME renewal risk и дедлайн", &q));
    assert!(!content_matches_query("anything", ""));
    let hit = search_hit(
        Some("Обсудили ACME renewal risk и дедлайн поставки"),
        Some("Decision: postpone rollout"),
        &q,
    );
    assert!(hit.transcript_match);
    assert!(!hit.summary_match);
    let hit = search_hit(None, Some("Decision: postpone rollout"), &search_query("POSTPONE"));
    assert!(!hit.transcript_match);
    assert!(hit.summary_match);
}

#[test]
fn active_session_needs_force_to_delete() {
    assert_eq!(delete_check(Some("s1"), "s1", None), Err("Cannot delete active recording session".to_string()));
    assert_eq!(delete_check(Some("s1"), "s1", Some(false)), Err("Cannot delete active recording session".to_string()));
    assert_eq!(delete_check(Some("s1"), "s1", Some(true)), Ok(true));
    assert_eq!(delete_check(Some("s2"), "s1", None), Ok(false));
    assert_eq!(delete_check(None, "s1", None), Ok(false));
}

#[test]
fn session_details_update_trims_and_keeps_source() {
    let mut meta = sample_meta();
    let req = UpdateSessionDetailsRequest {
        session_id: "s1".to_string(),
        source: "   ".to_string(),
        notes: " n ".to_string(),
        custom_summary_prompt: " Decisions ".to_string(),
        topic: " Weekly ".to_string(),
        tags: vec![" a ".to_string(), "  ".to_string(), "b".to_string()],
    };
    apply_session_details(&mut meta, &req);
    assert_eq!(meta.source, "slack");
    assert_eq!(meta.primary_tag, "slack");
    assert_eq!(meta.topic, "Weekly");
    assert_eq!(meta.custom_summary_prompt, "Decisions");
    assert_eq!(meta.tags, vec!["a".to_string(), "b".to_string()]);
    assert_eq!(meta.notes, " n ");
    let req = UpdateSessionDetailsRequest { source: " zoom ".to_string(), ..req };
    apply_session_details(&mut meta, &req);
    assert_eq!(meta.source, "zoom");
    let view = session_meta_view(&meta);
    assert_eq!(view.source, "zoom");
    assert_eq!(view.tags, vec!["a".to_string(), "b".to_string()]);
}

#[test]
fn opener_commands_follow_platform() {
    let c = open_command(" /s/dir ", None, "macos").ok().expect("cmd");
    assert_eq!((c.program.as_str(), c.args.clone()), ("open", vec!["/s/dir".to_string()]));
    let c = open_command("/s/dir", None, "windows").ok().expect("cmd");
    assert_eq!(c.program, "explorer");
    let c = open_command("/s/dir", None, "linux").ok().expect("cmd");
    assert_eq!(c.program, "xdg-open");
    let c = open_command("/s/t.md", Some(" TextEdit "), "macos").ok().expect("cmd");
    assert_eq!((c.program.as_str(), c.args.clone()), ("open", vec!["-a".to_string(), "TextEdit".to_string(), "/s/t.md".to_string()]));
    let c = open_command("/s/t.md", Some("code"), "linux").ok().expect("cmd");
    assert_eq!((c.program.as_str(), c.args.clone()), ("code", vec!["/s/t.md".to_string()]));
    let c = open_command("/s/t.md", Some("  "), "linux").ok().expect("cmd");
    assert_eq!(c.program, "xdg-open");
    assert_eq!(open_command("  ", None, "linux").err(), Some("Path is empty".to_string()));
    assert_eq!(open_failure_message(true, "1"), "failed to open path with preferred app: exit status 1");
    assert_eq!(open_failure_message(false, "2"), "failed to open session folder: exit status 2");
}

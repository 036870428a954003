use bigecho::session::{
    default_tasks_sync_file, format_ru_date, format_time_part, normalize_legacy_source, normalize_legacy_summary_artifact,
    SessionArtifacts, SessionMeta, SessionStatus,
};
use bigecho::tags::{normalize_tag, normalize_tags};

#[test]
fn session_meta_new_stores_source_tags_and_notes_independently() {
    let meta = SessionMeta::new(
        "s-meta".to_string(),
        "zoom".to_string(),
        vec!["project/acme".to_string(), "call/sales".to_string()],
        "Renewal sync".to_string(),
        "Check contract renewal".to_string(),
    );
    assert_eq!(meta.source, "zoom");
    assert_eq!(meta.tags, vec!["project/acme".to_string(), "call/sales".to_string()]);
    assert_eq!(meta.notes, "Check contract renewal");
    assert_eq!(meta.primary_tag, "zoom");
}

#[test]
fn session_artifacts_default_includes_tasks_sync_file() {
    let artifacts = SessionArtifacts::default();
    assert_eq!(artifacts.tasks_sync_file, "tasks_sync.json");
}

#[test]
fn session_artifacts_default_has_no_speed_adjusted_audio() {
    let artifacts = SessionArtifacts::default();
    assert_eq!(artifacts.speed_adjusted_audio_file, "");
    assert!(artifacts.audio_speed_multiplier_bits.is_none());
}

#[test]
fn blank_source_becomes_general() {
    let meta = SessionMeta::new("s".to_string(), "   ".to_string(), vec![], "T".to_string(), String::new());
    assert_eq!(meta.source, "general");
    assert_eq!(meta.primary_tag, "general");
    assert_eq!(meta.status, SessionStatus::Recording);
    assert_eq!(meta.created_at_iso, meta.started_at_iso);
}

#[test]
fn new_session_at_given_instant() {
    let meta = SessionMeta::new_at(
        "s".to_string(),
        " zoom ".to_string(),
        vec![],
        "T".to_string(),
        "N".to_string(),
        "2026-03-10T15:06:07+03:00".to_string(),
        "10.03.2026".to_string(),
    );
    assert_eq!(meta.source, "zoom");
    assert_eq!(meta.started_at_iso, "2026-03-10T15:06:07+03:00");
    assert_eq!(meta.display_date_ru, "10.03.2026");
    assert_eq!(meta.artifacts.audio_file, "audio.opus");
    assert_eq!(meta.artifacts.summary_file, "summary.md");
    assert_eq!(default_tasks_sync_file(), "tasks_sync.json");
}

#[test]
fn status_names() {
    assert_eq!(SessionStatus::Recording.as_str(), "recording");
    assert_eq!(SessionStatus::Done.as_str(), "done");
    assert_eq!(SessionStatus::Failed.as_str(), "failed");
}

#[test]
fn load_meta_keeps_md_summary_artifact_name() {
    let mut meta = SessionMeta::new(
        "session-md".to_string(),
        "zoom".to_string(),
        vec!["zoom".to_string()],
        "Topic".to_string(),
        "Notes".to_string(),
    );
    meta.artifacts.summary_file = "summary_10.03.2026.md".to_string();
    normalize_legacy_summary_artifact(&mut meta);
    assert_eq!(meta.artifacts.summary_file, "summary_10.03.2026.md");
}

#[test]
fn load_meta_normalizes_legacy_summary_txt_to_md() {
    let mut meta = SessionMeta::new(
        "session-txt".to_string(),
        "zoom".to_string(),
        vec!["zoom".to_string()],
        "Topic".to_string(),
        "Notes".to_string(),
    );
    meta.artifacts.summary_file = "summary_10.03.2026.txt".to_string();
    normalize_legacy_summary_artifact(&mut meta);
    assert_eq!(meta.artifacts.summary_file, "summary_10.03.2026.md");
}

#[test]
fn legacy_blank_source_takes_primary_tag() {
    let mut meta = SessionMeta::new("s".to_string(), "zoom".to_string(), vec![], "T".to_string(), String::new());
    meta.source = "  ".to_string();
    meta.primary_tag = "telegram".to_string();
    normalize_legacy_source(&mut meta);
    assert_eq!(meta.source, "telegram");
}

#[test]
fn tags_are_trimmed_sorted_and_deduplicated() {
    let tags = normalize_tags(vec![
        " zoom ".to_string(),
        "".to_string(),
        "acme".to_string(),
        "zoom".to_string(),
        "   ".to_string(),
    ]);
    assert_eq!(tags, vec!["acme".to_string(), "zoom".to_string()]);
    assert_eq!(normalize_tag("  x "), Some("x".to_string()));
    assert_eq!(normalize_tag("   "), None);
}

#[test]
fn ru_date_is_zero_padded_day_month_year() {
    assert_eq!(format_ru_date(10, 3, 2026), "10.03.2026");
    assert_eq!(format_ru_date(5, 1, 987), "05.01.0987");
    assert_eq!(format_ru_date(31, 12, 2026), "31.12.2026");
}

#[test]
fn ru_date_signs_years_outside_four_digits() {
    assert_eq!(format_ru_date(1, 1, 12345), "01.01.+12345");
    assert_eq!(format_ru_date(1, 1, -1), "01.01.-0001");
}

#[test]
fn time_part_is_dashed_and_zero_padded() {
    assert_eq!(format_time_part(9, 5, 7), "09-05-07");
    assert_eq!(format_time_part(23, 59, 59), "23-59-59");
}

#[test]
fn new_session_date_matches_its_start() {
    let meta = SessionMeta::new("s".to_string(), "zoom".to_string(), vec![], String::new(), String::new());
    let iso = meta.started_at_iso.clone();
    let expected = format!("{}.{}.{}", &iso[8..10], &iso[5..7], &iso[0..4]);
    assert_eq!(meta.display_date_ru, expected);
}

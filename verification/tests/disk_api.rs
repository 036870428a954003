use bigecho::disk_api::{
    auth_header_value, elapsed_ms, ensure_dir_status, finished_summary, is_in_sync,
    list_dir_status, list_page_url, listed_files, next_list_offset, normalize_base_url,
    parent_paths, resolved_local_root, resources_url, root_dir_failure_summary,
    unreadable_root_summary, upload_href_status, upload_href_url, upload_put_status, ListItem,
    StatusOutcome, SyncTally, YandexError, url_encode,
};

fn item(name: &str, kind: &str, size: Option<u64>) -> ListItem {
    ListItem { name: name.to_string(), kind: kind.to_string(), size }
}

#[test]
fn auth_header_is_oauth_prefixed() {
    assert_eq!(auth_header_value("tok"), "OAuth tok");
}

#[test]
fn ensure_dir_treats_409_as_success() {
    assert!(matches!(ensure_dir_status(409, String::new()), StatusOutcome::Done));
    assert!(matches!(ensure_dir_status(201, String::new()), StatusOutcome::Done));
    assert!(matches!(
        ensure_dir_status(500, "boom".to_string()),
        StatusOutcome::Fail(YandexError::Http { status: 500, ref body }) if body == "boom"
    ));
}

#[test]
fn ensure_dir_creates_missing_parents_recursively() {
    assert_eq!(
        parent_paths("disk:/BigEcho/A/B"),
        vec!["disk:/BigEcho".to_string(), "disk:/BigEcho/A".to_string(), "disk:/BigEcho/A/B".to_string()]
    );
    assert_eq!(parent_paths("disk:/"), Vec::<String>::new());
    assert_eq!(parent_paths("/plain"), vec!["/plain".to_string()]);
}

#[test]
fn list_dir_returns_empty_on_404() {
    assert!(matches!(list_dir_status(404, String::new()), StatusOutcome::Done));
    assert!(matches!(list_dir_status(200, String::new()), StatusOutcome::Proceed));
}

#[test]
fn unauthorized_status_maps_to_unauthorized_error() {
    assert!(matches!(list_dir_status(401, String::new()), StatusOutcome::Fail(YandexError::Unauthorized)));
    assert!(matches!(upload_put_status(403, String::new()), StatusOutcome::Fail(YandexError::Unauthorized)));
}

#[test]
fn upload_file_treats_409_on_href_as_success() {
    assert!(matches!(upload_href_status(409, String::new()), StatusOutcome::Done));
    assert!(matches!(upload_href_status(200, String::new()), StatusOutcome::Proceed));
    assert!(matches!(upload_put_status(202, String::new()), StatusOutcome::Done));
}

#[test]
fn list_dir_parses_files_only() {
    let items = vec![
        item("a.opus", "file", Some(10)),
        item("sub", "dir", None),
        item("b.md", "file", None),
    ];
    assert_eq!(listed_files(&items), vec![("a.opus".to_string(), 10), ("b.md".to_string(), 0)]);
}

#[test]
fn list_dir_pages_through_large_directories() {
    assert_eq!(next_list_offset(0, 1000, Some(1500)), Some(1000));
    assert_eq!(next_list_offset(1000, 500, Some(1500)), None);
    assert_eq!(next_list_offset(0, 0, Some(1500)), None);
    assert_eq!(next_list_offset(0, 1000, None), None);
}

#[test]
fn in_sync_needs_same_size() {
    assert!(is_in_sync(Some(5), 5));
    assert!(!is_in_sync(Some(4), 5));
    assert!(!is_in_sync(None, 0));
}

#[test]
fn urls_are_built_from_normalized_base() {
    let base = normalize_base_url("https://cloud-api.yandex.net/v1/disk//");
    assert_eq!(base, "https://cloud-api.yandex.net/v1/disk");
    assert_eq!(
        resources_url(&base, "disk:/BigEcho/A B"),
        "https://cloud-api.yandex.net/v1/disk/resources?path=disk%3A%2FBigEcho%2FA%20B"
    );
    assert_eq!(
        upload_href_url(&base, "disk:/x"),
        "https://cloud-api.yandex.net/v1/disk/resources/upload?path=disk%3A%2Fx&overwrite=false"
    );
    assert_eq!(
        list_page_url(&base, "disk:/x", 1000),
        "https://cloud-api.yandex.net/v1/disk/resources?path=disk%3A%2Fx&limit=1000&offset=1000&fields=_embedded.items.name%2C_embedded.items.size%2C_embedded.items.type%2C_embedded.total"
    );
}

#[test]
fn error_messages_match_display() {
    assert_eq!(YandexError::Network("dns".into()).message(), "network error: dns");
    assert_eq!(YandexError::Http { status: 500, body: "x".into() }.message(), "http error: 500 — x");
    assert_eq!(YandexError::Unauthorized.message(), "unauthorized");
    assert_eq!(YandexError::Parse("p".into()).message(), "parse error: p");
    assert_eq!(YandexError::Io("i".into()).message(), "io error: i");
}

#[test]
fn continues_after_single_file_failure() {
    let mut tally = SyncTally::new();
    tally.record_upload("a.opus", Ok(()));
    tally.record_upload("b.opus", Err(YandexError::Network("reset".into())));
    tally.record_upload("c.opus", Ok(()));
    assert_eq!(tally.uploaded, 2);
    assert_eq!(tally.failed, 1);
    assert_eq!(tally.errors.len(), 1);
    assert_eq!(tally.errors[0].path, "b.opus");
    assert_eq!(tally.errors[0].message, "network error: reset");
}

#[test]
fn caps_error_list_at_twenty_entries() {
    let mut tally = SyncTally::new();
    for i in 0..25 {
        tally.record_upload(&format!("f{i}.opus"), Err(YandexError::Unauthorized));
    }
    tally.record_dir_failure("g.opus", &YandexError::Unauthorized);
    assert_eq!(tally.failed, 26);
    assert_eq!(tally.errors.len(), 20);
    assert_eq!(tally.errors[19].path, "f19.opus");
}

#[test]
fn empty_local_root_produces_zero_counters() {
    let s = finished_summary("s".into(), "f".into(), 7, 0, 0, 0, SyncTally::new());
    assert_eq!((s.total_objects, s.not_synced, s.uploaded, s.skipped, s.failed), (0, 0, 0, 0, 0));
    assert!(s.errors.is_empty());
    assert_eq!(s.duration_ms, 7);
}

#[test]
fn run_summaries_for_early_failures() {
    let s = unreadable_root_summary("s".into(), "f".into(), 1, "/rec", "denied");
    assert_eq!(s.failed, 1);
    assert_eq!(s.errors[0].path, "/rec");
    assert_eq!(s.errors[0].message, "cannot read local root: denied");
    let s = root_dir_failure_summary("s".into(), "f".into(), 1, 3, "BigEcho", &YandexError::Unauthorized);
    assert_eq!(s.failed, 3);
    assert_eq!(s.not_synced, 3);
    assert_eq!(s.errors[0].message, "ensure root dir: unauthorized");
    let s = root_dir_failure_summary("s".into(), "f".into(), 1, 0, "BigEcho", &YandexError::Unauthorized);
    assert_eq!(s.failed, 1);
}

#[test]
fn elapsed_and_local_root() {
    assert_eq!(elapsed_ms(1_000, 3_500), 2_500);
    assert_eq!(elapsed_ms(3_500, 1_000), 0);
    assert_eq!(resolved_local_root("/app", "./recordings"), "/app/./recordings");
    assert_eq!(resolved_local_root("/app", "/abs/rec"), "/abs/rec");
}

#[test]
fn url_encode_escapes_every_byte_but_unreserved_ones() {
    assert_eq!(url_encode("disk:/BigEcho/A B"), "disk%3A%2FBigEcho%2FA%20B");
    assert_eq!(url_encode("a-b_c.d~e09XZ"), "a-b_c.d~e09XZ");
    assert_eq!(url_encode("Встреча"), "%D0%92%D1%81%D1%82%D1%80%D0%B5%D1%87%D0%B0");
    assert_eq!(url_encode(""), "");
    assert_eq!(url_encode("€&=+"), "%E2%82%AC%26%3D%2B");
}

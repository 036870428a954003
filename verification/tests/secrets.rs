use bigecho::secrets::{
    fallback_lock_path, fallback_path, resolve_secret, secrets_from_stored, set_secret_value,
    SecretMap, FALLBACK_FILE_NAME, SERVICE_NAME,
};

fn no_keychain() -> Result<String, String> {
    Err("No matching entry found in secure storage".to_string())
}

#[test]
fn fallback_lock_path_uses_secrets_local_json_lock() {
    let dir = "/tmp/app-data";
    assert_eq!(fallback_path(dir), "/tmp/app-data/secrets.local.json");
    assert_eq!(fallback_lock_path(dir), "/tmp/app-data/secrets.local.json.lock");
    assert_eq!(FALLBACK_FILE_NAME, "secrets.local.json");
    assert_eq!(SERVICE_NAME, "BigEcho");
}

#[test]
fn stored_token_reads_back() {
    let mut map = SecretMap::new();
    set_secret_value(&mut map, "BRAIN_SERVER_API_TOKEN".to_string(), " fresh-token ").expect("set");
    assert_eq!(
        resolve_secret(no_keychain(), map.get("BRAIN_SERVER_API_TOKEN")),
        Ok("fresh-token".to_string())
    );
    set_secret_value(&mut map, "BRAIN_SERVER_API_TOKEN".to_string(), "second").expect("set again");
    assert_eq!(map.get("BRAIN_SERVER_API_TOKEN"), Some("second"));
    assert_eq!(map.to_entries().len(), 1);
}

#[test]
fn clear_secret_removes_previously_stored_value() {
    let mut map = SecretMap::new();
    set_secret_value(&mut map, "YANDEX_DISK_OAUTH_TOKEN".to_string(), "abc123").expect("set");
    assert!(map.remove("YANDEX_DISK_OAUTH_TOKEN"));
    match resolve_secret(no_keychain(), map.get("YANDEX_DISK_OAUTH_TOKEN")) {
        Err(_) => {}
        Ok(v) => panic!("expected secret to be cleared, got {v:?}"),
    }
}

#[test]
fn clear_secret_is_idempotent_after_prior_clear() {
    let mut map = SecretMap::new();
    set_secret_value(&mut map, "YANDEX_DISK_OAUTH_TOKEN".to_string(), "abc123").expect("set");
    assert!(map.remove("YANDEX_DISK_OAUTH_TOKEN"));
    assert!(!map.remove("YANDEX_DISK_OAUTH_TOKEN"));
    match resolve_secret(no_keychain(), map.get("YANDEX_DISK_OAUTH_TOKEN")) {
        Err(_) => {}
        Ok(v) => panic!("expected secret to remain cleared, got {v:?}"),
    }
}

#[test]
fn concurrent_fallback_secret_writes_keep_both_values() {
    let mut map = SecretMap::new();
    set_secret_value(&mut map, "BRAIN_SERVER_API_TOKEN".to_string(), "brain-token").expect("left");
    set_secret_value(&mut map, "YANDEX_DISK_OAUTH_TOKEN".to_string(), "yandex-token").expect("right");
    assert_eq!(resolve_secret(no_keychain(), map.get("BRAIN_SERVER_API_TOKEN")), Ok("brain-token".to_string()));
    assert_eq!(resolve_secret(no_keychain(), map.get("YANDEX_DISK_OAUTH_TOKEN")), Ok("yandex-token".to_string()));
}

#[test]
fn set_secret_rejects_control_characters_in_token() {
    let mut map = SecretMap::new();
    let err = set_secret_value(&mut map, "BRAIN_SERVER_API_TOKEN".to_string(), "bad\nvalue")
        .expect_err("newline token should fail");
    assert_eq!(err, "Token must not contain control characters");
    assert_eq!(map.get("BRAIN_SERVER_API_TOKEN"), None);
}

#[test]
fn get_secret_rejects_stored_token_with_control_characters() {
    let stored = vec![("BRAIN_SERVER_API_TOKEN".to_string(), Some("bad\u{2028}value".to_string()))];
    let err = secrets_from_stored(&stored).err().expect("stored bad token");
    assert!(err.contains("control characters"));
    assert_eq!(err, "Invalid stored secret for BRAIN_SERVER_API_TOKEN: control characters are not allowed");
}

#[test]
fn stored_file_ignores_non_string_values() {
    let stored = vec![
        ("A".to_string(), Some("a1".to_string())),
        ("N".to_string(), None),
        ("B".to_string(), Some("b1".to_string())),
    ];
    let map = secrets_from_stored(&stored).ok().expect("valid file");
    assert_eq!(map.get("A"), Some("a1"));
    assert_eq!(map.get("N"), None);
    assert_eq!(map.get("B"), Some("b1"));
}

#[test]
fn keychain_value_wins_and_is_validated() {
    assert_eq!(resolve_secret(Ok(" k ".to_string()), Some("f")), Ok("k".to_string()));
    assert_eq!(
        resolve_secret(Ok("  ".to_string()), Some("f")),
        Err("Token must not be empty".to_string())
    );
    assert_eq!(resolve_secret(Err("locked".to_string()), None), Err("locked".to_string()));
}

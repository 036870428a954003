use bigecho::integrations::{
    availability_from, checked_new_token, has_stored_token, hotkey_action, nexara_balance_failure,
    nexara_key_from, parse_major_version, parse_u32_text, sidecar_binary_name, sidecar_failure,
    todoist_token_from, HotkeyAction, NEXARA_API_KEY, REC_HOTKEY, STOP_HOTKEY, TODOIST_TOKEN_KEY,
};

#[test]
fn todoist_token_reports_missing_token() {
    let err = todoist_token_from(Err("secret not found".to_string())).expect_err("missing token");
    assert!(err.starts_with("missing_token:"));
    let err = todoist_token_from(Ok("   ".to_string())).expect_err("blank token");
    assert_eq!(err, "missing_token: Todoist token is empty");
}

#[test]
fn todoist_token_trims_stored_token() {
    let stored = "  abc  ".to_string();
    assert_eq!(todoist_token_from(Ok(stored.clone())).expect("token"), "abc");
    assert_eq!(stored, "  abc  ");
}

#[test]
fn token_names_and_hotkeys() {
    assert_eq!(TODOIST_TOKEN_KEY, "TODOIST_API_TOKEN");
    assert_eq!(NEXARA_API_KEY, "NEXARA_API_KEY");
    assert_eq!(hotkey_action(REC_HOTKEY, true), HotkeyAction::StartRecording);
    assert_eq!(hotkey_action(STOP_HOTKEY, true), HotkeyAction::StopRecording);
    assert_eq!(hotkey_action(REC_HOTKEY, false), HotkeyAction::Nothing);
    assert_eq!(hotkey_action("CmdOrCtrl+Shift+X", true), HotkeyAction::Nothing);
}

#[test]
fn new_tokens_must_not_be_blank() {
    assert_eq!(checked_new_token("  t1 "), Ok("t1"));
    assert_eq!(checked_new_token("   "), Err("Token must not be empty".to_string()));
    assert!(has_stored_token(Ok(" x "), true));
    assert!(!has_stored_token(Ok("  "), true));
    assert!(has_stored_token(Ok("  "), false));
    assert!(!has_stored_token(Ok(""), false));
    assert!(!has_stored_token(Err("nope"), false));
}

#[test]
fn nexara_key_and_balance_errors() {
    assert_eq!(nexara_key_from(Ok(" k ".to_string())), Ok("k".to_string()));
    assert_eq!(nexara_key_from(Ok(" ".to_string())), Err("Nexara API key is not configured".to_string()));
    assert_eq!(nexara_key_from(Err("x".to_string())), Err("Nexara API key is not configured".to_string()));
    assert_eq!(
        nexara_balance_failure("402 Payment Required", "{}"),
        "Nexara balance request failed: 402 Payment Required {}"
    );
}

#[test]
fn speech_availability_reasons_in_order() {
    let a = availability_from(false, true, Some(26), true);
    assert!(!a.supported);
    assert_eq!(a.reason.as_deref(), Some("requires_macos"));
    let a = availability_from(true, false, Some(26), true);
    assert_eq!(a.reason.as_deref(), Some("requires_apple_silicon"));
    let a = availability_from(true, true, Some(15), true);
    assert_eq!(a.reason.as_deref(), Some("requires_macos_26"));
    let a = availability_from(true, true, None, true);
    assert_eq!(a.reason.as_deref(), Some("requires_macos_26"));
    let a = availability_from(true, true, Some(26), false);
    assert_eq!(a.reason.as_deref(), Some("sidecar_missing"));
    let a = availability_from(true, true, Some(26), true);
    assert!(a.supported);
    assert!(a.reason.is_none());
}

#[test]
fn version_numbers_parse_like_std() {
    assert_eq!(parse_u32_text("26"), Some(26));
    assert_eq!(parse_u32_text("+7"), Some(7));
    assert_eq!(parse_u32_text("4294967295"), Some(4294967295));
    assert_eq!(parse_u32_text("4294967296"), None);
    assert_eq!(parse_u32_text(""), None);
    assert_eq!(parse_u32_text("+"), None);
    assert_eq!(parse_u32_text("1a"), None);
    assert_eq!(parse_major_version(" 26.0.1\n"), Some(26));
    assert_eq!(parse_major_version("15"), Some(15));
    assert_eq!(parse_major_version("x.1"), None);
}

#[test]
fn sidecar_names_and_failures() {
    assert_eq!(sidecar_binary_name("aarch64-apple-darwin"), "apple-speech-aarch64-apple-darwin");
    assert_eq!(sidecar_failure("exit status: 1", "", "", Some("boom".to_string())), "boom");
    assert_eq!(
        sidecar_failure("exit status: 1", "", " warn \n", Some("boom".to_string())),
        "boom | stderr: warn"
    );
    assert_eq!(
        sidecar_failure("exit status: 2", " out ", " err ", None),
        "sidecar exited with exit status: 2: stdout=out stderr=err"
    );
}

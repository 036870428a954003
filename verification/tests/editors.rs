use bigecho::editors::{
    dedupe_editor_apps, default_app_id, fallback_icon_for_editor, is_text_editor_name,
    macos_fallback_editor_apps, normalize_id, offered_editor, DetectedEditorApp,
};

fn found(name: &str) -> DetectedEditorApp {
    DetectedEditorApp {
        id: format!("id-{name}"),
        name: name.to_string(),
        bundle_path: None,
        executable_path: None,
    }
}

#[test]
fn ids_are_normalized() {
    assert_eq!(normalize_id("  Visual Studio Code "), "visual_studio_code");
    assert_eq!(normalize_id("__Zed!__"), "zed");
    assert_eq!(normalize_id("Блокнот"), "");
}

#[test]
fn editor_names_are_recognised() {
    assert!(is_text_editor_name("Visual Studio Code"));
    assert!(is_text_editor_name("TextEdit"));
    assert!(is_text_editor_name("Notepad++"));
    assert!(!is_text_editor_name("Safari"));
}

#[test]
fn fallback_icons_follow_name() {
    assert_eq!(fallback_icon_for_editor("Visual Studio Code"), "💠");
    assert_eq!(fallback_icon_for_editor("Notepad"), "📓");
    assert_eq!(fallback_icon_for_editor("Sublime Text"), "🟧");
    assert_eq!(fallback_icon_for_editor("Cursor"), "🧩");
    assert_eq!(fallback_icon_for_editor("Zed"), "🧩");
    assert_eq!(fallback_icon_for_editor("TextEdit"), "📝");
}

#[test]
fn macos_fallback_list() {
    let apps = macos_fallback_editor_apps();
    let names: Vec<&str> = apps.iter().map(|a| a.name.as_str()).collect();
    assert_eq!(names, vec!["TextEdit", "Visual Studio Code", "Cursor", "Windsurf", "Sublime Text", "Zed"]);
    assert_eq!(default_app_id(&apps, "macos"), Some("TextEdit".to_string()));
    assert_eq!(default_app_id(&apps, "windows"), None);
    assert_eq!(default_app_id(&apps, "linux"), None);
}

#[test]
fn duplicates_keep_first_find_in_key_order() {
    let finds = vec![found("Zed"), found("TextEdit"), found("zed"), found("Cursor")];
    assert_eq!(dedupe_editor_apps(&finds), vec![3, 1, 0]);
}

#[test]
fn offered_editor_keeps_icon() {
    let app = offered_editor(&found("Cursor"), Some("data:image/png;base64,AAA".to_string()));
    assert_eq!(app.id, "id-Cursor");
    assert_eq!(app.icon_fallback, "🧩");
    assert_eq!(app.icon_data_url.as_deref(), Some("data:image/png;base64,AAA"));
}

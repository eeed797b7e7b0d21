use config_merge::error::{ConfigError, DocumentKind};
use config_merge::vscode::{
    configure_vscode_claude, configure_vscode_codex, find_existing_settings, get_vscode_paths_info,
    patch_editor_settings,
    settings_paths_under, vscode_product_dirs,
};

#[test]
fn patch_keeps_comment_and_unrelated_key() {
    let orig = "{\n  // my comment\n  \"editor.fontSize\": 14\n}";
    let out = configure_vscode_codex(Some(orig.to_string()), "U".to_string()).unwrap();
    let expected = "{\n  // my comment\n  \"editor.fontSize\": 14\n,\n  \"chatgpt.apiBase\": \"U\",\n  \"chatgpt.config\": {\n    \"preferred_auth_method\": \"apikey\"\n  }\n}";
    assert_eq!(out, expected);
    assert!(out.contains("\n  // my comment\n"));
    assert!(out.contains("\n  \"editor.fontSize\": 14\n"));
}

#[test]
fn patch_replaces_both_existing_keys() {
    let orig = "{\n  \"chatgpt.apiBase\": \"old\",\n  \"chatgpt.config\": {\n    \"preferred_auth_method\": \"chatgpt\"\n  },\n  \"x\": 1\n}";
    let out = patch_editor_settings(orig, "U");
    assert_eq!(out, "{\n  \"chatgpt.apiBase\": \"U\",\n  \"chatgpt.config\": {\n    \"preferred_auth_method\": \"apikey\"\n  },\n  \"x\": 1\n}");
}

#[test]
fn patch_adds_api_base_before_config() {
    let orig = "{\n  \"chatgpt.config\": {\n    \"preferred_auth_method\": \"chatgpt\"\n  }\n}";
    let out = patch_editor_settings(orig, "U");
    assert_eq!(out, "{\n  \"chatgpt.apiBase\": \"U\",\n  \"chatgpt.config\": {\n    \"preferred_auth_method\": \"apikey\"\n  }\n}");
}

#[test]
fn patch_adds_config_before_api_base() {
    let orig = "{\n  \"chatgpt.apiBase\": \"old\"\n}";
    let out = patch_editor_settings(orig, "U");
    assert_eq!(out, "{\n  \"chatgpt.config\": {\n    \"preferred_auth_method\": \"apikey\"\n  },\n  \"chatgpt.apiBase\": \"U\"\n}");
}

#[test]
fn patch_keeps_crlf_line_breaks() {
    let orig = "{\r\n  \"chatgpt.apiBase\": \"a\",\r\n  \"x\": 1\r\n}\r\n";
    let out = patch_editor_settings(orig, "U");
    assert_eq!(out, "{\r\n  \"chatgpt.config\": {\r\n    \"preferred_auth_method\": \"apikey\"\r\n  },\r\n  \"chatgpt.apiBase\": \"U\",\r\n  \"x\": 1\r\n}\r\n");
}

#[test]
fn patch_keeps_final_newline_and_is_idempotent() {
    let once = patch_editor_settings("{\n}\n", "U");
    assert_eq!(once, "{\n\n\"chatgpt.apiBase\": \"U\",\n\"chatgpt.config\": {\n  \"preferred_auth_method\": \"apikey\"\n}\n}\n");
    let twice = patch_editor_settings(&once, "U");
    assert_eq!(once, twice);
}

#[test]
fn patch_replaces_single_line_config_object() {
    let orig = "{\n  \"chatgpt.apiBase\": \"a\",\n  \"chatgpt.config\": {\"preferred_auth_method\": \"x\"},\n  \"k\": 1\n}";
    let out = configure_vscode_codex(Some(orig.to_string()), "U".to_string()).unwrap();
    assert_eq!(out, "{\n  \"chatgpt.apiBase\": \"U\",\n  \"chatgpt.config\": {\n    \"preferred_auth_method\": \"apikey\"\n  },\n  \"k\": 1\n}");
}

#[test]
fn patch_counts_nested_braces_in_config_object() {
    let orig = "{\n  \"chatgpt.config\": {\n    \"a\": {\"b\": 1},\n    \"c\": {\n    }\n  },\n  \"chatgpt.apiBase\": \"a\"\n}";
    let out = patch_editor_settings(orig, "U");
    assert_eq!(out, "{\n  \"chatgpt.config\": {\n    \"preferred_auth_method\": \"apikey\"\n  },\n  \"chatgpt.apiBase\": \"U\"\n}");
}

#[test]
fn patch_of_missing_file_starts_from_empty_object() {
    let out = configure_vscode_codex(None, "U".to_string()).unwrap();
    assert_eq!(out, "{\n\n\"chatgpt.apiBase\": \"U\",\n\"chatgpt.config\": {\n  \"preferred_auth_method\": \"apikey\"\n}\n}");
}

#[test]
fn patch_is_idempotent_once_both_keys_exist() {
    let orig = "{\n  // keep\n  \"a\": [1, 2],\n}";
    let once = configure_vscode_codex(Some(orig.to_string()), "U".to_string()).unwrap();
    let twice = configure_vscode_codex(Some(once.clone()), "U".to_string()).unwrap();
    assert_eq!(once, twice);
}

#[test]
fn malformed_settings_are_refused() {
    let r = configure_vscode_codex(Some("{\"a\": }".to_string()), "U".to_string());
    assert_eq!(r, Err(ConfigError::Malformed(DocumentKind::EditorSettings)));
}

#[test]
fn comments_and_trailing_commas_pass_validation() {
    let orig = "{\n  /* block */ \"a\": 1, // tail\n}";
    assert!(configure_vscode_codex(Some(orig.to_string()), "U".to_string()).is_ok());
}

#[test]
fn extension_config_holds_the_key() {
    let out = configure_vscode_claude(true, None, "k\"1".to_string()).unwrap();
    let v: serde_json::Value = serde_json::from_str(&out).unwrap();
    assert_eq!(v["primaryApiKey"], "k\"1");
    assert_eq!(out, "{\n  \"primaryApiKey\": \"k\\\"1\"\n}");
    assert_eq!(configure_vscode_claude(false, None, "k".to_string()), Err(ConfigError::AssistantNotConfigured));
}

#[test]
fn extension_config_keeps_other_members() {
    let existing = "{\"theme\":\"dark\",\"primaryApiKey\":\"old\",\"n\":2}";
    let out = configure_vscode_claude(true, Some(existing.to_string()), "new".to_string()).unwrap();
    assert_eq!(out, "{\n  \"theme\": \"dark\",\n  \"primaryApiKey\": \"new\",\n  \"n\": 2\n}");
}

#[test]
fn product_dirs_in_preference_order() {
    assert_eq!(vscode_product_dirs(), vec!["Code", "Code - Insiders", "VSCodium", "Code - OSS"]);
}

#[test]
fn candidate_paths_under_a_directory() {
    let ps = settings_paths_under(Some("/home/a/.config".to_string()), '/');
    assert_eq!(
        ps,
        vec![
            "/home/a/.config/Code/User/settings.json".to_string(),
            "/home/a/.config/Code - Insiders/User/settings.json".to_string(),
            "/home/a/.config/VSCodium/User/settings.json".to_string(),
            "/home/a/.config/Code - OSS/User/settings.json".to_string(),
        ]
    );
    let ps = settings_paths_under(Some("C:\\Roaming\\".to_string()), '\\');
    assert_eq!(ps[0], "C:\\Roaming\\Code\\User\\settings.json");
    assert!(settings_paths_under(None, '/').is_empty());
}

#[test]
fn paths_info_lists_every_distribution_or_none() {
    let ps = get_vscode_paths_info();
    assert!(ps.is_empty() || ps.len() == 4);
    for p in &ps {
        assert!(p.ends_with("settings.json"));
    }
}

#[test]
fn settings_target_prefers_first_existing_file() {
    assert_eq!(find_existing_settings(&vec![false, true, true, false]), Ok((1, true)));
    assert_eq!(find_existing_settings(&vec![false, false]), Ok((0, false)));
    assert_eq!(find_existing_settings(&vec![]), Err(ConfigError::NoSettingsLocation));
}

#[test]
fn patch_handles_brace_on_the_line_after_the_key() {
    let orig = "{\n  \"chatgpt.config\":\n  {\n    \"a\": 1\n  },\n  \"chatgpt.apiBase\": \"a\"\n}\n";
    let out = patch_editor_settings(orig, "U");
    assert_eq!(out, "{\n  \"chatgpt.config\": {\n    \"preferred_auth_method\": \"apikey\"\n  },\n  \"chatgpt.apiBase\": \"U\"\n}\n");
}

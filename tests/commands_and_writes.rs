use config_merge::commands::{
    configure_claude_code, configure_codex, configure_vscode_claude, configure_vscode_codex,
    delete_codex_config, resolve_or_default, trimmed,
};
use config_merge::error::ConfigError;
use config_merge::safe_write::{atomic_write_plan, needs_backup, BackupLedger, WriteStep};

#[test]
fn blank_key_is_refused_everywhere() {
    assert_eq!(configure_claude_code(None, "u".to_string(), "  ".to_string()), Err(ConfigError::EmptyApiKey));
    assert_eq!(configure_codex(None, None, "u".to_string(), "\t".to_string()), Err(ConfigError::EmptyApiKey));
    assert_eq!(configure_vscode_codex(None, "u".to_string(), "".to_string()), Err(ConfigError::EmptyApiKey));
}

#[test]
fn blank_base_url_takes_the_default() {
    let out = configure_claude_code(None, "   ".to_string(), "k".to_string()).unwrap();
    assert!(out.contains("\"ANTHROPIC_BASE_URL\": \"https://www.88code.org/api\""));
    let (_, config) = configure_codex(None, None, "".to_string(), "k".to_string()).unwrap();
    assert!(config.contains("base_url = \"https://88code.org/openai/v1\""));
    let out = configure_vscode_codex(None, " ".to_string(), "k".to_string()).unwrap();
    assert!(out.contains("\"chatgpt.apiBase\": \"https://88code.org/openai/v1\""));
}

#[test]
fn base_url_is_trimmed() {
    let out = configure_claude_code(None, "  https://z \n".to_string(), "k".to_string()).unwrap();
    assert!(out.contains("\"ANTHROPIC_BASE_URL\": \"https://z\""));
    assert_eq!(resolve_or_default(" a b ", "d"), "a b");
    assert_eq!(resolve_or_default("\u{3000}", "d"), "d");
    assert_eq!(trimmed("\t x \r\n"), "x");
}

#[test]
fn extension_key_defaults_and_trims() {
    let out = configure_vscode_claude(true, None, "  ".to_string()).unwrap();
    assert!(out.contains("\"primaryApiKey\": \"key\""));
    let out = configure_vscode_claude(true, None, " abc ".to_string()).unwrap();
    assert!(out.contains("\"primaryApiKey\": \"abc\""));
}

#[test]
fn deletion_report_messages() {
    assert_eq!(delete_codex_config(true, false).message(), "已删除: auth.json；不存在: config.toml");
    assert_eq!(delete_codex_config(true, true).message(), "已删除: auth.json, config.toml");
    assert_eq!(delete_codex_config(false, false).message(), "不存在: auth.json, config.toml");
    let r = delete_codex_config(false, true);
    assert_eq!(r.deleted, vec!["config.toml".to_string()]);
    assert_eq!(r.absent, vec!["auth.json".to_string()]);
}

#[test]
fn write_goes_through_a_temporary_file() {
    let plan = atomic_write_plan("/d".to_string(), "/d/f.json".to_string(), "x".to_string());
    assert_eq!(plan.len(), 3);
    assert!(matches!(&plan[0], WriteStep::CreateDir(d) if d == "/d"));
    assert!(matches!(&plan[1], WriteStep::WriteFile(p, c) if p == "/d/f.json.tmp" && c == "x"));
    assert!(matches!(&plan[2], WriteStep::Rename(a, b) if a == "/d/f.json.tmp" && b == "/d/f.json"));
}

fn run(files: &mut std::collections::HashMap<String, String>, step: &WriteStep) {
    match step {
        WriteStep::CreateDir(_) => {}
        WriteStep::WriteFile(p, c) => {
            files.insert(p.clone(), c.clone());
        }
        WriteStep::Rename(a, b) => {
            if let Some(c) = files.remove(a) {
                files.insert(b.clone(), c);
            }
        }
    }
}

#[test]
fn crash_before_rename_leaves_target_untouched() {
    let plan = atomic_write_plan("/d".to_string(), "/d/f".to_string(), "new".to_string());
    for crash_after in 0..plan.len() {
        let mut files = std::collections::HashMap::new();
        files.insert("/d/f".to_string(), "old".to_string());
        for step in plan.iter().take(crash_after) {
            run(&mut files, step);
        }
        assert_eq!(files.get("/d/f").map(String::as_str), Some("old"));
    }
    let mut files = std::collections::HashMap::new();
    files.insert("/d/f".to_string(), "old".to_string());
    for step in plan.iter() {
        run(&mut files, step);
    }
    assert_eq!(files.get("/d/f").map(String::as_str), Some("new"));
    assert!(!files.contains_key("/d/f.tmp"));
}

#[test]
fn backup_is_taken_once() {
    let mut ledger = BackupLedger::new();
    assert!(ledger.backup_once("/p".to_string(), Some("first".to_string())));
    assert!(!ledger.backup_once("/p".to_string(), Some("second".to_string())));
    assert_eq!(ledger.saved.len(), 1);
    assert_eq!(ledger.saved[0].1, "first");
    assert!(!ledger.backup_once("/q".to_string(), None));
    assert!(ledger.has_backup(&"/p".to_string()));
    assert!(!ledger.has_backup(&"/q".to_string()));
}

#[test]
fn backup_needed_only_for_existing_unbacked_target() {
    assert!(needs_backup(false, true));
    assert!(!needs_backup(true, true));
    assert!(!needs_backup(false, false));
}

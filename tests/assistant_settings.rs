use config_merge::claude_config::{configure_claude_advanced, configure_claude_code, get_claude_config};
use config_merge::error::{ConfigError, DocumentKind};

const FRESH: &str = "{\n  \"env\": {\n    \"ANTHROPIC_AUTH_TOKEN\": \"k\",\n    \"ANTHROPIC_BASE_URL\": \"u\",\n    \"CLAUDE_CODE_DISABLE_NONESSENTIAL_TRAFFIC\": \"1\"\n  },\n  \"permissions\": {\n    \"allow\": [],\n    \"deny\": []\n  }\n}\n";

#[test]
fn basic_update_without_existing_file() {
    let out = configure_claude_code(None, "u".to_string(), "k".to_string());
    assert_eq!(out, FRESH);
}

#[test]
fn basic_update_over_malformed_file_starts_empty() {
    let out = configure_claude_code(Some("{not json".to_string()), "u".to_string(), "k".to_string());
    assert_eq!(out, FRESH);
}

#[test]
fn basic_update_keeps_unmanaged_members_in_order() {
    let existing = "{\"env\":{\"FOO\":\"bar\",\"ANTHROPIC_AUTH_TOKEN\":\"old\",\"ZED\":2},\"model\":\"x\",\"permissions\":{\"allow\":[\"a\"]},\"hooks\":{}}";
    let out = configure_claude_code(Some(existing.to_string()), "u".to_string(), "k".to_string());
    let expected = "{\n  \"env\": {\n    \"ANTHROPIC_AUTH_TOKEN\": \"k\",\n    \"ANTHROPIC_BASE_URL\": \"u\",\n    \"CLAUDE_CODE_DISABLE_NONESSENTIAL_TRAFFIC\": \"1\",\n    \"FOO\": \"bar\",\n    \"ZED\": 2\n  },\n  \"permissions\": {\n    \"allow\": [\n      \"a\"\n    ]\n  },\n  \"model\": \"x\",\n  \"hooks\": {}\n}\n";
    assert_eq!(out, expected);
}

#[test]
fn basic_update_overrides_managed_values() {
    let existing = "{\"env\":{\"ANTHROPIC_AUTH_TOKEN\":\"old\",\"ANTHROPIC_BASE_URL\":\"http://old\"}}";
    let out = configure_claude_code(Some(existing.to_string()), "https://new".to_string(), "T".to_string());
    let v: serde_json::Value = serde_json::from_str(&out).unwrap();
    assert_eq!(v["env"]["ANTHROPIC_AUTH_TOKEN"], "T");
    assert_eq!(v["env"]["ANTHROPIC_BASE_URL"], "https://new");
    assert_eq!(v["env"]["CLAUDE_CODE_DISABLE_NONESSENTIAL_TRAFFIC"], "1");
}

#[test]
fn basic_update_is_idempotent() {
    let existing = "{\"env\":{\"FOO\":\"bar\"},\"model\":\"x\",\"list\":[1,2,{\"a\":null}],\"permissions\":{\"allow\":[\"a\"],\"deny\":[]}}";
    let first = configure_claude_code(Some(existing.to_string()), "u".to_string(), "k".to_string());
    let second = configure_claude_code(Some(first.clone()), "u".to_string(), "k".to_string());
    assert_eq!(first, second);
    let fresh_again = configure_claude_code(Some(FRESH.to_string()), "u".to_string(), "k".to_string());
    assert_eq!(fresh_again, FRESH);
}

#[test]
fn basic_update_escapes_token_and_url() {
    let out = configure_claude_code(None, "a\\b".to_string(), "q\"t".to_string());
    let v: serde_json::Value = serde_json::from_str(&out).unwrap();
    assert_eq!(v["env"]["ANTHROPIC_AUTH_TOKEN"], "q\"t");
    assert_eq!(v["env"]["ANTHROPIC_BASE_URL"], "a\\b");
}

#[test]
fn advanced_merge_incoming_wins_key_by_key() {
    let out = configure_claude_advanced(Some("{\"a\":1,\"b\":2}".to_string()), "{\"b\":3,\"c\":4}".to_string()).unwrap();
    assert_eq!(out, "{\n  \"env\": {\n\n  },\n  \"a\": 1,\n  \"b\": 3,\n  \"c\": 4\n}\n");
}

#[test]
fn advanced_merge_of_env_and_permissions() {
    let existing = "{\"env\":{\"A\":\"1\",\"B\":\"2\"},\"permissions\":{\"allow\":[]}}";
    let incoming = "{\"env\":{\"B\":\"9\",\"C\":\"3\"},\"permissions\":{\"deny\":[\"x\"]}}";
    let out = configure_claude_advanced(Some(existing.to_string()), incoming.to_string()).unwrap();
    let expected = "{\n  \"env\": {\n    \"A\": \"1\",\n    \"B\": \"9\",\n    \"C\": \"3\"\n  },\n  \"permissions\": {\n    \"deny\": [\n      \"x\"\n    ]\n  }\n}\n";
    assert_eq!(out, expected);
}

#[test]
fn advanced_merge_keeps_existing_permissions() {
    let out = configure_claude_advanced(Some("{\"permissions\":{\"allow\":[]}}".to_string()), "{}".to_string()).unwrap();
    assert_eq!(out, "{\n  \"env\": {\n\n  },\n  \"permissions\": {\n    \"allow\": []\n  }\n}\n");
}

#[test]
fn advanced_merge_refuses_malformed_replacement() {
    let r = configure_claude_advanced(None, "{oops".to_string());
    assert_eq!(r, Err(ConfigError::Malformed(DocumentKind::AssistantSettings)));
}

#[test]
fn settings_read_as_typed_record() {
    let s = get_claude_config(Some("{\"env\":{\"A\":\"1\"},\"permissions\":{\"allow\":[\"x\"]},\"extra\":true}".to_string())).unwrap();
    assert_eq!(s.env, vec![("A".to_string(), "1".to_string())]);
    assert_eq!(s.permissions.allow, vec!["x".to_string()]);
    assert!(s.permissions.deny.is_empty());
    assert_eq!(s.extra.len(), 1);
    assert_eq!(s.extra[0].0, "extra");
}

#[test]
fn settings_without_file_are_empty() {
    let s = get_claude_config(None).unwrap();
    assert!(s.env.is_empty() && s.extra.is_empty());
}

#[test]
fn settings_without_env_are_refused() {
    let r = get_claude_config(Some("{\"model\":\"x\"}".to_string()));
    assert!(matches!(r, Err(ConfigError::Malformed(DocumentKind::AssistantSettings))));
    let r = get_claude_config(Some("{\"env\":{\"A\":1}}".to_string()));
    assert!(r.is_err());
}

#[test]
fn kept_member_keys_are_escaped() {
    let existing = "{\"env\":{\"A\\\"B\":\"1\"},\"q\\\\k\":true}";
    let out = configure_claude_code(Some(existing.to_string()), "u".to_string(), "k".to_string());
    let v: serde_json::Value = serde_json::from_str(&out).unwrap();
    assert_eq!(v["env"]["A\"B"], "1");
    assert_eq!(v["q\\k"], true);
    let again = configure_claude_code(Some(out.clone()), "u".to_string(), "k".to_string());
    assert_eq!(out, again);
}

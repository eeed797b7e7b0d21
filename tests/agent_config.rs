use config_merge::codex_config::{configure_codex, configure_codex_advanced, format_toml_value, get_codex_auth};
use config_merge::error::{ConfigError, DocumentKind};
use config_merge::value::ConfigValue;

const FRESH_CONFIG: &str = "model_provider = \"88code\"\nmodel = \"gpt-5-codex\"\nmodel_reasoning_effort = \"high\"\ndisable_response_storage = true\n\n[model_providers.88code]\nname = \"88code\"\nbase_url = \"https://x\"\nwire_api = \"responses\"\nenv_key = \"key88\"\nrequires_openai_auth = true\n";

#[test]
fn agent_basic_update_without_existing_files() {
    let (auth, config) = configure_codex(None, None, "https://x".to_string(), "sk".to_string());
    assert_eq!(auth, "{\n  \"OPENAI_API_KEY\": \"sk\"\n}\n");
    assert_eq!(config, FRESH_CONFIG);
}

#[test]
fn basic_update_over_empty_config_text() {
    let (_, config) = configure_codex(None, Some(String::new()), "https://x".to_string(), "sk".to_string());
    assert_eq!(config, FRESH_CONFIG);
}

#[test]
fn basic_update_keeps_auth_members() {
    let existing = "{\"OPENAI_API_KEY\":\"old\",\"tokens\":{\"a\":1},\"last\":\"x\"}";
    let (auth, _) = configure_codex(Some(existing.to_string()), None, "u".to_string(), "new".to_string());
    assert_eq!(auth, "{\n  \"OPENAI_API_KEY\": \"new\",\n  \"tokens\": {\"a\":1},\n  \"last\": \"x\"\n}\n");
}

#[test]
fn basic_update_keeps_config_members_and_providers() {
    let existing = "model = \"old\"\napproval = \"never\"\n[model_providers.88code]\nname = \"x\"\ntimeout = 30\n[model_providers.other]\nname = \"Other\"\nbase_url = \"https://o\"\n";
    let (_, config) = configure_codex(None, Some(existing.to_string()), "https://x".to_string(), "sk".to_string());
    let expected = "model_provider = \"88code\"\nmodel = \"gpt-5-codex\"\nmodel_reasoning_effort = \"high\"\ndisable_response_storage = true\napproval = \"never\"\n\n[model_providers.88code]\nname = \"88code\"\nbase_url = \"https://x\"\nwire_api = \"responses\"\nenv_key = \"key88\"\nrequires_openai_auth = true\ntimeout = 30\n\n[model_providers.other]\nname = \"Other\"\nbase_url = \"https://o\"\n";
    assert_eq!(config, expected);
}

#[test]
fn agent_basic_update_is_idempotent() {
    let existing = "approval = \"never\"\nlist = [1, 2]\n[model_providers.other]\nname = \"Other\"\n";
    let (auth1, c1) = configure_codex(Some("{\"z\":true}".to_string()), Some(existing.to_string()), "https://x".to_string(), "sk".to_string());
    let (auth2, c2) = configure_codex(Some(auth1.clone()), Some(c1.clone()), "https://x".to_string(), "sk".to_string());
    assert_eq!(auth1, auth2);
    assert_eq!(c1, c2);
}

#[test]
fn agent_advanced_update_merges_both_documents() {
    let (auth, config) = configure_codex_advanced(
        Some("{\"OPENAI_API_KEY\":\"old\",\"a\":1}".to_string()),
        Some("approval = \"never\"\nmodel = \"old\"\n".to_string()),
        "{\"b\":2,\"a\":5}".to_string(),
        "model = \"m2\"\n[model_providers.88code]\nbase_url = \"https://b\"\n".to_string(),
        "given".to_string(),
    )
    .unwrap();
    assert_eq!(auth, "{\n  \"OPENAI_API_KEY\": \"old\",\n  \"a\": 5,\n  \"b\": 2\n}\n");
    let expected = "model_provider = \"88code\"\nmodel = \"m2\"\nmodel_reasoning_effort = \"high\"\ndisable_response_storage = true\napproval = \"never\"\n\n[model_providers.88code]\nname = \"88code\"\nbase_url = \"https://b\"\nwire_api = \"responses\"\nenv_key = \"key88\"\nrequires_openai_auth = true\n";
    assert_eq!(config, expected);
}

#[test]
fn agent_advanced_update_key_precedence() {
    let (auth, _) = configure_codex_advanced(None, None, "{}".to_string(), "".to_string(), "given".to_string()).unwrap();
    assert_eq!(auth, "{\n  \"OPENAI_API_KEY\": \"given\"\n}\n");
    let (auth, _) = configure_codex_advanced(
        Some("{\"OPENAI_API_KEY\":\"old\"}".to_string()),
        None,
        "{\"OPENAI_API_KEY\":\"new\"}".to_string(),
        "".to_string(),
        "given".to_string(),
    )
    .unwrap();
    assert_eq!(auth, "{\n  \"OPENAI_API_KEY\": \"new\"\n}\n");
}

#[test]
fn agent_advanced_update_refuses_malformed_auth() {
    let r = configure_codex_advanced(None, None, "{".to_string(), "".to_string(), "k".to_string());
    assert_eq!(r, Err(ConfigError::Malformed(DocumentKind::AgentAuth)));
}

#[test]
fn agent_advanced_update_refuses_malformed_config() {
    let r = configure_codex_advanced(None, None, "{}".to_string(), "model = ".to_string(), "k".to_string());
    assert_eq!(r, Err(ConfigError::Malformed(DocumentKind::AgentConfig)));
}

#[test]
fn toml_lines_for_each_kind() {
    assert_eq!(format_toml_value("k", &ConfigValue::Str("v".to_string())), "k = \"v\"\n");
    assert_eq!(format_toml_value("k", &ConfigValue::Int(-42)), "k = -42\n");
    assert_eq!(format_toml_value("k", &ConfigValue::Number("1.5".to_string())), "k = 1.5\n");
    assert_eq!(format_toml_value("k", &ConfigValue::Bool(true)), "k = true\n");
    let arr = ConfigValue::Array(vec![
        ConfigValue::Str("a".to_string()),
        ConfigValue::Int(1),
        ConfigValue::Bool(false),
        ConfigValue::Table(vec![]),
    ]);
    assert_eq!(format_toml_value("k", &arr), "k = [\"a\", 1, false, {}]\n");
    assert_eq!(format_toml_value("a b", &ConfigValue::Str("q\"".to_string())), "\"a b\" = \"q\\\"\"\n");
    assert_eq!(format_toml_value("k", &ConfigValue::Array(vec![])), "k = []\n");
    assert_eq!(format_toml_value("k", &ConfigValue::Table(vec![])), "k = {}\n");
    assert_eq!(format_toml_value("k", &ConfigValue::Datetime("1979-05-27".to_string())), "k = 1979-05-27\n");
    assert_eq!(format_toml_value("k", &ConfigValue::Null), "");
}

#[test]
fn toml_floats_keep_their_text() {
    let (_, config) = configure_codex(None, Some("ratio = 0.25\n".to_string()), "u".to_string(), "k".to_string());
    assert!(config.contains("\nratio = 0.25\n"));
}

#[test]
fn auth_reads_as_typed_record() {
    let a = get_codex_auth(Some("{\"OPENAI_API_KEY\":\"k\",\"z\":1}".to_string())).unwrap().unwrap();
    assert_eq!(a.openai_api_key, "k");
    assert_eq!(a.extra.len(), 1);
    assert_eq!(a.extra[0].0, "z");
    assert!(get_codex_auth(None).unwrap().is_none());
    assert_eq!(get_codex_auth(Some("{}".to_string())).err(), Some(ConfigError::Malformed(DocumentKind::AgentAuth)));
    assert!(get_codex_auth(Some("[1]".to_string())).is_err());
}

#[test]
fn auth_member_keys_are_escaped() {
    let existing = "{\"a\\\"b\":1}";
    let (auth, _) = configure_codex(Some(existing.to_string()), None, "u".to_string(), "k".to_string());
    let v: serde_json::Value = serde_json::from_str(&auth).unwrap();
    assert_eq!(v["a\"b"], 1);
}

#[test]
fn toml_strings_and_keys_are_escaped() {
    let existing = "note = 'say \"hi\" \\ bye'\n\"odd key\" = 1\n";
    let (_, c1) = configure_codex(None, Some(existing.to_string()), "https://x\"y".to_string(), "k".to_string());
    let v: toml::Value = toml::from_str(&c1).unwrap();
    assert_eq!(v["note"].as_str(), Some("say \"hi\" \\ bye"));
    assert_eq!(v["odd key"].as_integer(), Some(1));
    assert_eq!(v["model_providers"]["88code"]["base_url"].as_str(), Some("https://x\"y"));
    let (_, c2) = configure_codex(None, Some(c1.clone()), "https://x\"y".to_string(), "k".to_string());
    assert_eq!(c1, c2);
}

#[test]
fn toml_tables_and_dates_are_kept() {
    let existing = "when = 1979-05-27T07:32:00Z\n[server]\nhost = \"h\"\nport = 8\n[model_providers.other]\nname = \"O\"\n[model_providers.other.extra]\nx = [1, { y = 2 }]\n";
    let (_, config) = configure_codex(None, Some(existing.to_string()), "u".to_string(), "k".to_string());
    let v: toml::Value = toml::from_str(&config).unwrap();
    let old: toml::Value = toml::from_str(existing).unwrap();
    assert_eq!(v["when"], old["when"]);
    assert_eq!(v["server"], old["server"]);
    assert_eq!(v["model_providers"]["other"], old["model_providers"]["other"]);
}

#[test]
fn advanced_update_keeps_existing_managed_values() {
    let (_, config) = configure_codex_advanced(
        None,
        Some("model = \"mine\"\n[model_providers.88code]\nbase_url = \"https://kept\"\nwire_api = \"chat\"\n".to_string()),
        "{}".to_string(),
        "model_reasoning_effort = \"low\"\n".to_string(),
        "k".to_string(),
    )
    .unwrap();
    let v: toml::Value = toml::from_str(&config).unwrap();
    assert_eq!(v["model"].as_str(), Some("mine"));
    assert_eq!(v["model_reasoning_effort"].as_str(), Some("low"));
    assert_eq!(v["model_provider"].as_str(), Some("88code"));
    assert_eq!(v["model_providers"]["88code"]["base_url"].as_str(), Some("https://kept"));
    assert_eq!(v["model_providers"]["88code"]["wire_api"].as_str(), Some("chat"));
    assert_eq!(v["model_providers"]["88code"]["env_key"].as_str(), Some("key88"));
}

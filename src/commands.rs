use crate::claude_config::claude_basic_text;
use crate::codex_config::{auth_reserved, auth_text, codex_basic_config_text};
use crate::error::ConfigError;
use crate::formats::{existing_json, existing_toml, json_parse, json_pretty};
use crate::lines::{trim, trim_line};
use crate::normalize::normalized;
use crate::text::{chars_of, string_of};
use crate::value::{drop_keys, views, ConfigValue};
use crate::vscode::{editor_text, is_primary_key_doc, patch_settings};
use vstd::prelude::*;

verus! {

/// Is the text empty once surrounding whitespace is removed?
pub open spec fn blank(s: Seq<char>) -> bool {
    trim(s).len() == 0
}

/// The trimmed text, or `default` where it is blank.
pub open spec fn or_default(s: Seq<char>, default: Seq<char>) -> Seq<char> {
    if blank(s) {
        default
    } else {
        trim(s)
    }
}

/// The base URL used for the assistant when none is given.
pub open spec fn default_claude_base_url() -> Seq<char> {
    "https://www.88code.org/api"@
}

/// The base URL used for the agent and the editor extension when none is given.
pub open spec fn default_codex_base_url() -> Seq<char> {
    "https://88code.org/openai/v1"@
}

/// The input trimmed of surrounding whitespace.
pub fn trimmed(s: &str) -> (r: String)
    ensures
        r@ == trim(s@),
{
    let cs = chars_of(s);
    let t = trim_line(&cs);
    string_of(&t)
}

/// The trimmed input, or `default` where it is blank.
pub fn resolve_or_default(s: &str, default: &str) -> (r: String)
    ensures
        r@ == or_default(s@, default@),
{
    let t = trimmed(s);
    if t.as_str().is_empty() {
        String::from_str(default)
    } else {
        t
    }
}

/// Refuses a blank API key, before any file is touched.
pub fn require_api_key(api_key: &str) -> (r: Result<(), ConfigError>)
    ensures
        blank(api_key@) ==> r == Err::<(), ConfigError>(ConfigError::EmptyApiKey),
        !blank(api_key@) ==> r == Ok::<(), ConfigError>(()),
{
    if trimmed(api_key).as_str().is_empty() {
        Err(ConfigError::EmptyApiKey)
    } else {
        Ok(())
    }
}

/// Validates the inputs of the assistant's basic update and computes the settings
/// text: a blank key is refused, a blank base URL replaced by the default.
pub fn configure_claude_code(existing: Option<String>, base_url: String, api_key: String) -> (r:
    Result<String, ConfigError>)
    ensures
        blank(api_key@) ==> r == Err::<String, ConfigError>(ConfigError::EmptyApiKey),
        !blank(api_key@) ==> (r matches Ok(t) && t@ == claude_basic_text(
            existing_json(existing),
            or_default(base_url@, default_claude_base_url()),
            api_key@,
        )),
{
    if trimmed(api_key.as_str()).as_str().is_empty() {
        return Err(ConfigError::EmptyApiKey);
    }
    let url = resolve_or_default(base_url.as_str(), "https://www.88code.org/api");
    Ok(crate::claude_config::configure_claude_code(existing, url, api_key))
}

/// Validates the inputs of the agent's basic update and computes `auth.json` and
/// `config.toml`: a blank key is refused, a blank base URL replaced by the default.
pub fn configure_codex(
    existing_auth: Option<String>,
    existing_config: Option<String>,
    base_url: String,
    api_key: String,
) -> (r: Result<(String, String), ConfigError>)
    ensures
        blank(api_key@) ==> r == Err::<(String, String), ConfigError>(ConfigError::EmptyApiKey),
        !blank(api_key@) ==> (r matches Ok(t) && t.0@ == auth_text(
            api_key@,
            drop_keys(existing_json(existing_auth), auth_reserved()),
        ) && t.1@ == codex_basic_config_text(
            existing_toml(existing_config),
            or_default(base_url@, default_codex_base_url()),
        )),
{
    if trimmed(api_key.as_str()).as_str().is_empty() {
        return Err(ConfigError::EmptyApiKey);
    }
    let url = resolve_or_default(base_url.as_str(), "https://88code.org/openai/v1");
    Ok(crate::codex_config::configure_codex(existing_auth, existing_config, url, api_key))
}

/// Validates the inputs of the editor extension's update: a blank key is refused, a
/// blank base URL replaced by the default.
pub fn configure_vscode_codex(existing: Option<String>, base_url: String, api_key: String) -> (r:
    Result<String, ConfigError>)
    ensures
        blank(api_key@) ==> r == Err::<String, ConfigError>(ConfigError::EmptyApiKey),
        !blank(api_key@) ==> match json_parse(normalized(editor_text(existing))) {
            None => r == Err::<String, ConfigError>(
                ConfigError::Malformed(crate::error::DocumentKind::EditorSettings),
            ),
            Some(_) => r matches Ok(t) && t@ == patch_settings(
                editor_text(existing),
                or_default(base_url@, default_codex_base_url()),
            ),
        },
{
    if trimmed(api_key.as_str()).as_str().is_empty() {
        return Err(ConfigError::EmptyApiKey);
    }
    let url = resolve_or_default(base_url.as_str(), "https://88code.org/openai/v1");
    crate::vscode::configure_vscode_codex(existing, url)
}

/// Computes the extension's `config.json` from the existing one; a blank key becomes `key`, any other is
/// trimmed.
pub fn configure_vscode_claude(
    assistant_configured: bool,
    existing: Option<String>,
    api_key: String,
) -> (r: Result<String, ConfigError>)
    ensures
        !assistant_configured ==> r == Err::<String, ConfigError>(
            ConfigError::AssistantNotConfigured,
        ),
        assistant_configured ==> (r matches Ok(t) && exists|doc: ConfigValue|
            t@ == json_pretty(doc) && is_primary_key_doc(
                doc,
                existing_json(existing),
                or_default(api_key@, "key"@),
            )),
{
    let key = resolve_or_default(api_key.as_str(), "key");
    crate::vscode::configure_vscode_claude(assistant_configured, existing, key)
}

/// Which of the agent's two files were removed and which were already absent.
pub struct DeletionReport {
    pub deleted: Vec<String>,
    pub absent: Vec<String>,
}

/// `name` where `b` holds, else nothing.
pub open spec fn name_if(b: bool, name: Seq<char>) -> Seq<Seq<char>> {
    if b {
        seq![name]
    } else {
        Seq::empty()
    }
}

/// Names joined by `", "`.
pub open spec fn join_names(ns: Seq<Seq<char>>) -> Seq<char>
    decreases ns.len(),
{
    if ns.len() == 0 {
        Seq::empty()
    } else if ns.len() == 1 {
        ns[0]
    } else {
        join_names(ns.drop_last()) + ", "@ + ns.last()
    }
}

/// The summary line of a deletion.
pub open spec fn deletion_message(deleted: Seq<Seq<char>>, absent: Seq<Seq<char>>) -> Seq<char> {
    (if deleted.len() > 0 {
        "已删除: "@ + join_names(deleted)
    } else {
        Seq::empty()
    }) + (if absent.len() > 0 {
        (if deleted.len() > 0 {
            "；"@
        } else {
            Seq::empty()
        }) + "不存在: "@ + join_names(absent)
    } else {
        Seq::empty()
    })
}

fn add_name(v: &mut Vec<String>, name: &str)
    ensures
        views(final(v)@) == views(old(v)@).push(name@),
{
    v.push(String::from_str(name));
    proof {
        assert(views(v@) =~= views(old(v)@).push(name@));
    }
}

/// Sorts the agent's two files, `auth.json` then `config.toml`, by whether each was
/// present (and so removed).
pub fn delete_codex_config(auth_present: bool, config_present: bool) -> (r: DeletionReport)
    ensures
        views(r.deleted@) == name_if(auth_present, "auth.json"@) + name_if(
            config_present,
            "config.toml"@,
        ),
        views(r.absent@) == name_if(!auth_present, "auth.json"@) + name_if(
            !config_present,
            "config.toml"@,
        ),
{
    let mut deleted: Vec<String> = Vec::new();
    let mut absent: Vec<String> = Vec::new();
    if auth_present {
        add_name(&mut deleted, "auth.json");
    } else {
        add_name(&mut absent, "auth.json");
    }
    if config_present {
        add_name(&mut deleted, "config.toml");
    } else {
        add_name(&mut absent, "config.toml");
    }
    proof {
        assert(views(deleted@) =~= name_if(auth_present, "auth.json"@) + name_if(
            config_present,
            "config.toml"@,
        ));
        assert(views(absent@) =~= name_if(!auth_present, "auth.json"@) + name_if(
            !config_present,
            "config.toml"@,
        ));
    }
    DeletionReport { deleted, absent }
}

fn push_joined(out: &mut String, ns: &Vec<String>)
    ensures
        final(out)@ == old(out)@ + join_names(views(ns@)),
{
    let mut i: usize = 0;
    while i < ns.len()
        invariant
            i <= ns@.len(),
            out@ == old(out)@ + join_names(views(ns@.subrange(0, i as int))),
        decreases ns@.len() - i,
    {
        proof {
            let p = views(ns@.subrange(0, i as int + 1));
            assert(p.drop_last() =~= views(ns@.subrange(0, i as int)));
            assert(p.last() == ns@[i as int]@);
        }
        if i > 0 {
            out.append(", ");
        }
        out.append(ns[i].as_str());
        proof {
            let p = views(ns@.subrange(0, i as int + 1));
            assert(out@ =~= old(out)@ + join_names(p));
        }
        i = i + 1;
    }
    proof {
        assert(ns@.subrange(0, i as int) =~= ns@);
    }
}

impl DeletionReport {
    /// The summary line: what was removed, then what was already absent.
    pub fn message(&self) -> (r: String)
        ensures
            r@ == deletion_message(views(self.deleted@), views(self.absent@)),
    {
        let mut out = String::new();
        if self.deleted.len() > 0 {
            out.append("已删除: ");
            push_joined(&mut out, &self.deleted);
        }
        if self.absent.len() > 0 {
            if self.deleted.len() > 0 {
                out.append("；");
            }
            out.append("不存在: ");
            push_joined(&mut out, &self.absent);
        }
        proof {
            assert(out@ =~= deletion_message(views(self.deleted@), views(self.absent@)));
        }
        out
    }
}

} // verus!

use crate::error::{ConfigError, DocumentKind};
use crate::formats::{existing_json, json_compact, json_parse, json_pretty, parse_json, read_json_entries, to_json_compact, to_json_pretty};
use crate::text::{escape_json, escape_json_str, nest, nest_str};
use crate::value::{
    drop_keys, lemma_lookup_drop_keys, lookup, merge_entries, merge_into, table_of, take_value, views, without_keys,
    into_table, ConfigValue, Entries,
};
use crate::settings::{
    all_string_members, all_strings, into_string_pairs, into_strings, pair_views, str_view,
    string_views,
};
use vstd::prelude::*;

verus! {

/// The top-level keys that the assistant settings engine reads itself.
pub open spec fn root_reserved() -> Seq<Seq<char>> {
    seq!["env"@, "permissions"@]
}

/// The `env` keys that the basic update owns.
pub open spec fn env_managed() -> Seq<Seq<char>> {
    seq!["ANTHROPIC_AUTH_TOKEN"@, "ANTHROPIC_BASE_URL"@, "CLAUDE_CODE_DISABLE_NONESSENTIAL_TRAFFIC"@]
}

fn root_reserved_keys() -> (r: Vec<String>)
    ensures
        views(r@) == root_reserved(),
{
    let r = vec![String::from_str("env"), String::from_str("permissions")];
    proof {
        assert(views(r@) =~= root_reserved());
    }
    r
}

fn env_managed_keys() -> (r: Vec<String>)
    ensures
        views(r@) == env_managed(),
{
    let r = vec![
        String::from_str("ANTHROPIC_AUTH_TOKEN"),
        String::from_str("ANTHROPIC_BASE_URL"),
        String::from_str("CLAUDE_CODE_DISABLE_NONESSENTIAL_TRAFFIC"),
    ];
    proof {
        assert(views(r@) =~= env_managed());
    }
    r
}

/// The `env` object of a settings document (empty where it is missing or not an object).
pub open spec fn env_of(doc: Seq<(String, ConfigValue)>) -> Seq<(String, ConfigValue)> {
    table_of(lookup(doc, "env"@))
}

/// `env` members, each on its own line after a comma, values written on one line.
pub open spec fn env_member_lines(es: Seq<(String, ConfigValue)>) -> Seq<char>
    decreases es.len(),
{
    if es.len() == 0 {
        Seq::empty()
    } else {
        env_member_lines(es.drop_last()) + ",\n    \""@ + escape_json(es.last().0@) + "\": "@ + json_compact(
            es.last().1,
        )
    }
}

/// `env` members separated by commas, each on its own line.
pub open spec fn env_member_list(es: Seq<(String, ConfigValue)>) -> Seq<char> {
    if es.len() == 0 {
        Seq::empty()
    } else {
        "    \""@ + escape_json(es[0].0@) + "\": "@ + json_compact(es[0].1) + env_member_lines(es.drop_first())
    }
}

/// Top-level members, each on its own line after a comma, values indented.
pub open spec fn root_member_lines(es: Seq<(String, ConfigValue)>) -> Seq<char>
    decreases es.len(),
{
    if es.len() == 0 {
        Seq::empty()
    } else {
        root_member_lines(es.drop_last()) + ",\n  \""@ + escape_json(es.last().0@) + "\": "@ + nest(
            json_pretty(es.last().1),
        )
    }
}

/// The `permissions` value as written: the existing one, or empty allow and deny lists.
pub open spec fn permissions_text(p: Option<ConfigValue>) -> Seq<char> {
    match p {
        Some(v) => nest(json_pretty(v)),
        None => "{\n    \"allow\": [],\n    \"deny\": []\n  }"@,
    }
}

/// The managed head of the settings text written by the basic update.
pub open spec fn managed_env_head(base_url: Seq<char>, api_key: Seq<char>) -> Seq<char> {
    "{\n  \"env\": {\n    \"ANTHROPIC_AUTH_TOKEN\": \""@ + escape_json(api_key)
        + "\",\n    \"ANTHROPIC_BASE_URL\": \""@ + escape_json(base_url)
        + "\",\n    \"CLAUDE_CODE_DISABLE_NONESSENTIAL_TRAFFIC\": \"1\""@
}

/// The settings text that the basic update writes over the document `doc`.
pub open spec fn claude_basic_text(
    doc: Seq<(String, ConfigValue)>,
    base_url: Seq<char>,
    api_key: Seq<char>,
) -> Seq<char> {
    managed_env_head(base_url, api_key) + env_member_lines(drop_keys(env_of(doc), env_managed()))
        + "\n  },\n  \"permissions\": "@ + permissions_text(lookup(doc, "permissions"@))
        + root_member_lines(drop_keys(doc, root_reserved())) + "\n}\n"@
}

/// The `env` members of the advanced update: the existing ones, then the incoming ones
/// merged key by key.
pub open spec fn advanced_env(
    doc: Seq<(String, ConfigValue)>,
    incoming: Seq<(String, ConfigValue)>,
) -> Seq<(String, ConfigValue)> {
    merge_entries(env_of(doc), env_of(incoming))
}

/// The `permissions` of the advanced update: the incoming one where given, else the
/// existing one.
pub open spec fn advanced_permissions(
    doc: Seq<(String, ConfigValue)>,
    incoming: Seq<(String, ConfigValue)>,
) -> Option<ConfigValue> {
    match lookup(incoming, "permissions"@) {
        Some(p) => Some(p),
        None => lookup(doc, "permissions"@),
    }
}

/// The other top-level members of the advanced update, merged key by key.
pub open spec fn advanced_root(
    doc: Seq<(String, ConfigValue)>,
    incoming: Seq<(String, ConfigValue)>,
) -> Seq<(String, ConfigValue)> {
    merge_entries(drop_keys(doc, root_reserved()), drop_keys(incoming, root_reserved()))
}

/// The settings text that the advanced update writes.
pub open spec fn claude_advanced_text(
    doc: Seq<(String, ConfigValue)>,
    incoming: Seq<(String, ConfigValue)>,
) -> Seq<char> {
    "{\n  \"env\": {\n"@ + env_member_list(advanced_env(doc, incoming)) + "\n  }"@ + match
        advanced_permissions(doc, incoming) {
        Some(p) => ",\n  \"permissions\": "@ + nest(json_pretty(p)),
        None => Seq::empty(),
    } + root_member_lines(advanced_root(doc, incoming)) + "\n}\n"@
}

fn push_env_member_lines(out: &mut String, es: Entries)
    ensures
        final(out)@ == old(out)@ + env_member_lines(es@),
{
    let total = es.len();
    let ghost orig = es@;
    let mut rest = es;
    let mut i: usize = 0;
    while rest.len() > 0
        invariant
            total == orig.len(),
            i <= orig.len(),
            rest@ == orig.subrange(i as int, orig.len() as int),
            out@ == old(out)@ + env_member_lines(orig.subrange(0, i as int)),
        decreases rest@.len(),
    {
        let e = rest.remove(0);
        proof {
            assert(orig.subrange(0, i as int + 1).drop_last() =~= orig.subrange(0, i as int));
            assert(e == orig[i as int]);
            assert(rest@ =~= orig.subrange(i as int + 1, orig.len() as int));
        }
        out.append(",\n    \"");
        let k = escape_json_str(e.0.as_str());
        out.append(k.as_str());
        out.append("\": ");
        let v = to_json_compact(&e.1);
        out.append(v.as_str());
        proof {
            assert(out@ =~= old(out)@ + env_member_lines(orig.subrange(0, i as int + 1)));
        }
        i = i + 1;
    }
    proof {
        assert(orig.subrange(0, i as int) =~= orig);
    }
}

fn push_root_member_lines(out: &mut String, es: Entries)
    ensures
        final(out)@ == old(out)@ + root_member_lines(es@),
{
    let total = es.len();
    let ghost orig = es@;
    let mut rest = es;
    let mut i: usize = 0;
    while rest.len() > 0
        invariant
            total == orig.len(),
            i <= orig.len(),
            rest@ == orig.subrange(i as int, orig.len() as int),
            out@ == old(out)@ + root_member_lines(orig.subrange(0, i as int)),
        decreases rest@.len(),
    {
        let e = rest.remove(0);
        proof {
            assert(orig.subrange(0, i as int + 1).drop_last() =~= orig.subrange(0, i as int));
            assert(e == orig[i as int]);
            assert(rest@ =~= orig.subrange(i as int + 1, orig.len() as int));
        }
        out.append(",\n  \"");
        let k = escape_json_str(e.0.as_str());
        out.append(k.as_str());
        out.append("\": ");
        let p = to_json_pretty(&e.1);
        let v = nest_str(p.as_str());
        out.append(v.as_str());
        proof {
            assert(out@ =~= old(out)@ + root_member_lines(orig.subrange(0, i as int + 1)));
        }
        i = i + 1;
    }
    proof {
        assert(orig.subrange(0, i as int) =~= orig);
    }
}

/// Writes the assistant settings with the given token and base URL, keeping every
/// other `env` member, the `permissions` block and every other top-level member of the
/// existing document (`None` where there is no file) in their order.
pub fn configure_claude_code(existing: Option<String>, base_url: String, api_key: String) -> (r:
    String)
    ensures
        r@ == claude_basic_text(existing_json(existing), base_url@, api_key@),
{
    let mut doc = read_json_entries(&existing);
    let ghost d0 = doc@;
    let env_key = String::from_str("env");
    let perm_key = String::from_str("permissions");
    let env = into_table(take_value(&mut doc, &env_key));
    let ghost d1 = doc@;
    let perms = take_value(&mut doc, &perm_key);
    let reserved = root_reserved_keys();
    proof {
        assert(root_reserved().contains("env"@));
        assert(root_reserved().contains("permissions"@));
        assert("permissions"@ != "env"@) by {
            reveal_strlit("permissions");
            reveal_strlit("env");
            assert("permissions"@[0] != "env"@[0]);
        }
    }
    let root = without_keys(doc, &reserved);
    let extra_env = without_keys(env, &env_managed_keys());

    let mut out = String::from_str("{\n  \"env\": {\n    \"ANTHROPIC_AUTH_TOKEN\": \"");
    let k = escape_json_str(api_key.as_str());
    out.append(k.as_str());
    out.append("\",\n    \"ANTHROPIC_BASE_URL\": \"");
    let u = escape_json_str(base_url.as_str());
    out.append(u.as_str());
    out.append("\",\n    \"CLAUDE_CODE_DISABLE_NONESSENTIAL_TRAFFIC\": \"1\"");
    push_env_member_lines(&mut out, extra_env);
    out.append("\n  },\n  \"permissions\": ");
    match perms {
        Some(p) => {
            let t = to_json_pretty(&p);
            let t = nest_str(t.as_str());
            out.append(t.as_str());
        },
        None => {
            out.append("{\n    \"allow\": [],\n    \"deny\": []\n  }");
        },
    }
    push_root_member_lines(&mut out, root);
    out.append("\n}\n");
    proof {
        assert(out@ =~= claude_basic_text(d0, base_url@, api_key@));
    }
    out
}

fn push_env_member_list(out: &mut String, es: Entries)
    ensures
        final(out)@ == old(out)@ + env_member_list(es@),
{
    if es.len() == 0 {
        return;
    }
    let ghost orig = es@;
    let mut rest = es;
    let first = rest.remove(0);
    proof {
        assert(rest@ =~= orig.drop_first());
    }
    out.append("    \"");
    let k = escape_json_str(first.0.as_str());
    out.append(k.as_str());
    out.append("\": ");
    let v = to_json_compact(&first.1);
    out.append(v.as_str());
    push_env_member_lines(out, rest);
    proof {
        assert(out@ =~= old(out)@ + env_member_list(orig));
    }
}

/// Merges a caller-supplied settings document into the existing one (`None` where
/// there is no file): members are matched by key, the incoming value wins, and members
/// that only the existing document holds are kept. Refused where the supplied text is
/// not JSON.
pub fn configure_claude_advanced(existing: Option<String>, config_content: String) -> (r: Result<
    String,
    ConfigError,
>)
    ensures
        match json_parse(config_content@) {
            None => r == Err::<String, ConfigError>(
                ConfigError::Malformed(DocumentKind::AssistantSettings),
            ),
            Some(v) => r matches Ok(t) && t@ == claude_advanced_text(
                existing_json(existing),
                table_of(Some(v)),
            ),
        },
{
    let parsed = parse_json(config_content.as_str());
    let ghost pv = parsed;
    let mut incoming = match parsed {
        None => {
            return Err(ConfigError::Malformed(DocumentKind::AssistantSettings));
        },
        Some(v) => into_table(Some(v)),
    };
    let ghost i0 = incoming@;
    let mut doc = read_json_entries(&existing);
    let ghost d0 = doc@;
    let env_key = String::from_str("env");
    let perm_key = String::from_str("permissions");
    let reserved = root_reserved_keys();
    proof {
        assert(root_reserved().contains("env"@));
        assert(root_reserved().contains("permissions"@));
        assert("permissions"@ != "env"@) by {
            reveal_strlit("permissions");
            reveal_strlit("env");
            assert("permissions"@[0] != "env"@[0]);
        }
    }
    let mut env = into_table(take_value(&mut doc, &env_key));
    let old_perms = take_value(&mut doc, &perm_key);
    let mut root = without_keys(doc, &reserved);
    let new_env = into_table(take_value(&mut incoming, &env_key));
    let new_perms = take_value(&mut incoming, &perm_key);
    let new_root = without_keys(incoming, &reserved);
    merge_into(&mut env, new_env);
    merge_into(&mut root, new_root);
    let perms = match new_perms {
        Some(p) => Some(p),
        None => old_perms,
    };

    let mut out = String::from_str("{\n  \"env\": {\n");
    push_env_member_list(&mut out, env);
    out.append("\n  }");
    match perms {
        Some(p) => {
            out.append(",\n  \"permissions\": ");
            let t = to_json_pretty(&p);
            let t = nest_str(t.as_str());
            out.append(t.as_str());
        },
        None => {},
    }
    push_root_member_lines(&mut out, root);
    out.append("\n}\n");
    proof {
        assert(out@ =~= claude_advanced_text(d0, i0));
    }
    Ok(out)
}

/// The assistant's tool permissions.
pub struct Permissions {
    pub allow: Vec<String>,
    pub deny: Vec<String>,
}

impl Default for Permissions {
    fn default() -> (r: Permissions)
        ensures
            r.allow@.len() == 0,
            r.deny@.len() == 0,
    {
        Permissions { allow: Vec::new(), deny: Vec::new() }
    }
}

/// The assistant's settings as a typed record.
pub struct ClaudeSettings {
    /// The `env` members, in order.
    pub env: Vec<(String, String)>,
    pub permissions: Permissions,
    /// Every other top-level member, in order.
    pub extra: Entries,
}

impl Default for ClaudeSettings {
    fn default() -> (r: ClaudeSettings)
        ensures
            r.env@.len() == 0,
            r.permissions.allow@.len() == 0,
            r.permissions.deny@.len() == 0,
            r.extra@.len() == 0,
    {
        ClaudeSettings { env: Vec::new(), permissions: Permissions::default(), extra: Vec::new() }
    }
}

/// A list of strings, or nothing (which reads as an empty list).
pub open spec fn string_list_ok(v: Option<ConfigValue>) -> bool {
    match v {
        None => true,
        Some(ConfigValue::Array(items)) => all_strings(items@),
        _ => false,
    }
}

/// The strings of a list (none where there is no list).
pub open spec fn string_list_view(v: Option<ConfigValue>) -> Seq<Seq<char>> {
    match v {
        Some(ConfigValue::Array(items)) => items@.map_values(|x: ConfigValue| str_view(x)),
        _ => Seq::empty(),
    }
}

/// Absent, or an object whose `allow` and `deny` are lists of strings where present.
pub open spec fn permissions_ok(v: Option<ConfigValue>) -> bool {
    match v {
        None => true,
        Some(ConfigValue::Table(p)) => string_list_ok(lookup(p@, "allow"@)) && string_list_ok(
            lookup(p@, "deny"@),
        ),
        _ => false,
    }
}

/// An object of strings.
pub open spec fn env_ok(v: Option<ConfigValue>) -> bool {
    match v {
        Some(ConfigValue::Table(e)) => all_string_members(e@),
        _ => false,
    }
}

/// An object whose `env` is an object of strings and whose `permissions` are well formed.
pub open spec fn settings_ok(doc: Option<ConfigValue>) -> bool {
    match doc {
        Some(ConfigValue::Table(t)) => env_ok(lookup(t@, "env"@)) && permissions_ok(
            lookup(t@, "permissions"@),
        ),
        _ => false,
    }
}

/// The `env` strings of a well-formed settings object.
pub open spec fn env_strings(t: Seq<(String, ConfigValue)>) -> Seq<(Seq<char>, Seq<char>)> {
    env_of(t).map_values(|e: (String, ConfigValue)| (e.0@, str_view(e.1)))
}

fn string_list(v: Option<ConfigValue>) -> (r: Option<Vec<String>>)
    ensures
        (r is Some) == string_list_ok(v),
        r matches Some(l) ==> string_views(l@) == string_list_view(v),
{
    match v {
        None => {
            let l: Vec<String> = Vec::new();
            proof {
                assert(string_views(l@) =~= Seq::<Seq<char>>::empty());
            }
            Some(l)
        },
        Some(ConfigValue::Array(items)) => into_strings(items),
        _ => None,
    }
}

fn permissions_from(v: Option<ConfigValue>) -> (r: Option<Permissions>)
    ensures
        (r is Some) == permissions_ok(v),
        r matches Some(p) ==> string_views(p.allow@) == string_list_view(
            lookup(table_of(v), "allow"@),
        ) && string_views(p.deny@) == string_list_view(lookup(table_of(v), "deny"@)),
{
    match v {
        None => {
            let p = Permissions::default();
            proof {
                assert(string_views(p.allow@) =~= Seq::<Seq<char>>::empty());
                assert(string_views(p.deny@) =~= Seq::<Seq<char>>::empty());
            }
            Some(p)
        },
        Some(ConfigValue::Table(t)) => {
            let mut t = t;
            proof {
                assert("deny"@ != "allow"@) by {
                    reveal_strlit("deny");
                    reveal_strlit("allow");
                    assert("deny"@[0] != "allow"@[0]);
                }
            }
            let allow = string_list(take_value(&mut t, &String::from_str("allow")));
            let deny = string_list(take_value(&mut t, &String::from_str("deny")));
            match (allow, deny) {
                (Some(a), Some(d)) => Some(Permissions { allow: a, deny: d }),
                _ => None,
            }
        },
        _ => None,
    }
}

/// Reads the assistant's settings from a parsed document; `None` where the document
/// is not a well-formed settings object.
pub fn claude_settings_from(doc: Option<ConfigValue>) -> (r: Option<ClaudeSettings>)
    ensures
        (r is Some) == settings_ok(doc),
        r matches Some(s) ==> pair_views(s.env@) == env_strings(table_of(doc))
            && string_views(s.permissions.allow@) == string_list_view(
            lookup(table_of(lookup(table_of(doc), "permissions"@)), "allow"@),
        ) && string_views(s.permissions.deny@) == string_list_view(
            lookup(table_of(lookup(table_of(doc), "permissions"@)), "deny"@),
        ) && s.extra@ == drop_keys(table_of(doc), root_reserved()),
{
    match doc {
        Some(ConfigValue::Table(t)) => {
            let mut t = t;
            let ghost t0 = t@;
            proof {
                assert(root_reserved().contains("env"@));
                assert(root_reserved().contains("permissions"@));
                assert("permissions"@ != "env"@) by {
                    reveal_strlit("permissions");
                    reveal_strlit("env");
                    assert("permissions"@[0] != "env"@[0]);
                }
            }
            let env_v = take_value(&mut t, &String::from_str("env"));
            let perm_v = take_value(&mut t, &String::from_str("permissions"));
            let extra = without_keys(t, &root_reserved_keys());
            let env = match env_v {
                Some(ConfigValue::Table(e)) => into_string_pairs(e),
                _ => None,
            };
            let permissions = permissions_from(perm_v);
            match (env, permissions) {
                (Some(env), Some(permissions)) => Some(ClaudeSettings { env, permissions, extra }),
                _ => None,
            }
        },
        _ => None,
    }
}

/// Reads the assistant's settings file (`None` where there is none, which reads as
/// empty settings); refused where the text is not a well-formed settings object.
pub fn get_claude_config(existing: Option<String>) -> (r: Result<ClaudeSettings, ConfigError>)
    ensures
        existing is None ==> (r matches Ok(s) && s.env@.len() == 0 && s.permissions.allow@.len()
            == 0 && s.permissions.deny@.len() == 0 && s.extra@.len() == 0),
        existing matches Some(text) ==> ((r is Ok) == settings_ok(json_parse(text@))),
        existing matches Some(text) ==> (r is Err ==> r == Err::<ClaudeSettings, ConfigError>(
            ConfigError::Malformed(DocumentKind::AssistantSettings),
        )),
        existing matches Some(text) ==> (r matches Ok(s) ==> pair_views(s.env@) == env_strings(
            table_of(json_parse(text@)),
        ) && s.extra@ == drop_keys(table_of(json_parse(text@)), root_reserved())),
{
    match existing {
        None => Ok(ClaudeSettings::default()),
        Some(text) => match claude_settings_from(parse_json(text.as_str())) {
            Some(s) => Ok(s),
            None => Err(ConfigError::Malformed(DocumentKind::AssistantSettings)),
        },
    }
}

/// The basic update keeps every member it does not manage: each other top-level
/// member and each other `env` member goes to the output with its value, in the order
/// of the existing document.
pub proof fn basic_update_keeps_extras(doc: Seq<(String, ConfigValue)>, k: Seq<char>)
    ensures
        !root_reserved().contains(k) ==> lookup(drop_keys(doc, root_reserved()), k) == lookup(
            doc,
            k,
        ),
        !env_managed().contains(k) ==> lookup(drop_keys(env_of(doc), env_managed()), k)
            == lookup(env_of(doc), k),
{
    if !root_reserved().contains(k) {
        lemma_lookup_drop_keys(doc, root_reserved(), k);
    }
    if !env_managed().contains(k) {
        lemma_lookup_drop_keys(env_of(doc), env_managed(), k);
    }
}

/// Whatever the existing document held, the basic update's text starts with the
/// managed `env` members holding exactly the given token and base URL.
pub proof fn basic_update_sets_managed(
    doc: Seq<(String, ConfigValue)>,
    base_url: Seq<char>,
    api_key: Seq<char>,
)
    ensures
        claude_basic_text(doc, base_url, api_key).subrange(
            0,
            managed_env_head(base_url, api_key).len() as int,
        ) == managed_env_head(base_url, api_key),
{
    let h = managed_env_head(base_url, api_key);
    let t = claude_basic_text(doc, base_url, api_key);
    assert(t.subrange(0, h.len() as int) =~= h);
}

/// Running the basic update again over a document that reads back with the same
/// unmanaged `env` members, the same permissions text and the same other members, as
/// the first run's output does, writes the same text again.
pub proof fn basic_update_idempotent(
    doc: Seq<(String, ConfigValue)>,
    reread: Seq<(String, ConfigValue)>,
    base_url: Seq<char>,
    api_key: Seq<char>,
)
    requires
        drop_keys(env_of(reread), env_managed()) == drop_keys(env_of(doc), env_managed()),
        permissions_text(lookup(reread, "permissions"@)) == permissions_text(
            lookup(doc, "permissions"@),
        ),
        drop_keys(reread, root_reserved()) == drop_keys(doc, root_reserved()),
    ensures
        claude_basic_text(reread, base_url, api_key) == claude_basic_text(doc, base_url, api_key),
{
}

} // verus!

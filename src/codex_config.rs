use crate::error::{ConfigError, DocumentKind};
use crate::formats::{
    existing_json, existing_toml, json_compact, json_parse, parse_json, parse_toml,
    read_json_entries, read_toml_entries, to_json_compact, to_toml_inline, toml_inline, toml_parse,
};
use crate::text::{chars_of, escape_json, escape_json_str, int_text, int_to_text};
use crate::value::{
    drop_keys, into_table, lemma_key_index_bounds, lemma_lookup_index, lookup,
    merge_entries, merge_into, position_of, supplement, supplement_into, table_of, take_value,
    views, without_keys, ConfigValue, Entries,
};
use vstd::prelude::*;

verus! {

/// `true` or `false`.
pub open spec fn bool_text(b: bool) -> Seq<char> {
    if b {
        "true"@
    } else {
        "false"@
    }
}

/// A TOML basic string: quoted, backslash and quote escaped.
pub open spec fn toml_str(s: Seq<char>) -> Seq<char> {
    "\""@ + escape_json(s) + "\""@
}

/// A character that a bare TOML key may hold.
pub open spec fn bare_char(c: char) -> bool {
    ('A' <= c && c <= 'Z') || ('a' <= c && c <= 'z') || ('0' <= c && c <= '9') || c == '_'
        || c == '-'
}

/// A key as TOML writes it: bare where it can be, else quoted.
pub open spec fn toml_key(k: Seq<char>) -> Seq<char> {
    if k.len() > 0 && forall|i: int| 0 <= i < k.len() ==> bare_char(k[i]) {
        k
    } else {
        toml_str(k)
    }
}

/// A value as TOML text: strings escaped, numbers, booleans and dates as their text,
/// arrays and tables inline as the toml crate writes them; nothing for a null, which
/// TOML lacks.
pub open spec fn toml_scalar(v: ConfigValue) -> Seq<char> {
    match v {
        ConfigValue::Str(s) => toml_str(s@),
        ConfigValue::Int(i) => int_text(i as int),
        ConfigValue::Number(t) => t@,
        ConfigValue::Bool(b) => bool_text(b),
        ConfigValue::Datetime(d) => d@,
        ConfigValue::Null => Seq::empty(),
        _ => toml_inline(v),
    }
}

/// Array elements joined by `", "`.
pub open spec fn toml_items(items: Seq<ConfigValue>) -> Seq<char>
    decreases items.len(),
{
    if items.len() == 0 {
        Seq::empty()
    } else if items.len() == 1 {
        toml_scalar(items[0])
    } else {
        toml_items(items.drop_last()) + ", "@ + toml_scalar(items.last())
    }
}

/// One `key = value` line; arrays are written element by element; a null gives
/// nothing.
pub open spec fn toml_line(key: Seq<char>, v: ConfigValue) -> Seq<char> {
    match v {
        ConfigValue::Null => Seq::empty(),
        ConfigValue::Array(items) => toml_key(key) + " = ["@ + toml_items(items@) + "]\n"@,
        _ => toml_key(key) + " = "@ + toml_scalar(v) + "\n"@,
    }
}

/// The lines of a list of members, in order.
pub open spec fn toml_lines(es: Seq<(String, ConfigValue)>) -> Seq<char>
    decreases es.len(),
{
    if es.len() == 0 {
        Seq::empty()
    } else {
        toml_lines(es.drop_last()) + toml_line(es.last().0@, es.last().1)
    }
}

/// One `[model_providers.<name>]` section per provider, in order.
pub open spec fn provider_blocks(ps: Seq<(String, ConfigValue)>) -> Seq<char>
    decreases ps.len(),
{
    if ps.len() == 0 {
        Seq::empty()
    } else {
        provider_blocks(ps.drop_last()) + "\n[model_providers."@ + toml_key(ps.last().0@) + "]\n"@
            + toml_lines(table_of(Some(ps.last().1)))
    }
}

/// The managed top-level lines of `config.toml`.
pub open spec fn root_head(provider: Seq<char>, model: Seq<char>, effort: Seq<char>, disable: bool) -> Seq<char> {
    "model_provider = "@ + toml_str(provider) + "\nmodel = "@ + toml_str(model)
        + "\nmodel_reasoning_effort = "@ + toml_str(effort) + "\ndisable_response_storage = "@
        + bool_text(disable) + "\n"@
}

/// The managed provider section of `config.toml`.
pub open spec fn provider_head(
    name: Seq<char>,
    base_url: Seq<char>,
    wire_api: Seq<char>,
    env_key: Seq<char>,
    requires_auth: bool,
) -> Seq<char> {
    "\n[model_providers.88code]\nname = "@ + toml_str(name) + "\nbase_url = "@ + toml_str(
        base_url,
    ) + "\nwire_api = "@ + toml_str(wire_api) + "\nenv_key = "@ + toml_str(env_key)
        + "\nrequires_openai_auth = "@ + bool_text(requires_auth) + "\n"@
}

/// The whole `config.toml` text: managed lines first, then the other top-level
/// members, the managed provider and its other members, then the other providers.
pub open spec fn config_text(
    head: Seq<char>,
    extra_root: Seq<(String, ConfigValue)>,
    provider: Seq<char>,
    extra_provider: Seq<(String, ConfigValue)>,
    others: Seq<(String, ConfigValue)>,
) -> Seq<char> {
    head + toml_lines(extra_root) + provider + toml_lines(extra_provider) + provider_blocks(
        others,
    )
}

/// The top-level keys of `config.toml` that the engine owns.
pub open spec fn config_reserved() -> Seq<Seq<char>> {
    seq![
        "model_provider"@,
        "model"@,
        "model_reasoning_effort"@,
        "disable_response_storage"@,
        "model_providers"@,
    ]
}

/// The keys of the managed provider section that the engine owns.
pub open spec fn provider_reserved() -> Seq<Seq<char>> {
    seq!["name"@, "base_url"@, "wire_api"@, "env_key"@, "requires_openai_auth"@]
}

/// The key of the managed provider.
pub open spec fn managed_provider() -> Seq<Seq<char>> {
    seq!["88code"@]
}

/// The key of `auth.json` that the engine owns.
pub open spec fn auth_reserved() -> Seq<Seq<char>> {
    seq!["OPENAI_API_KEY"@]
}

/// The `model_providers` table of a document.
pub open spec fn providers_of(doc: Seq<(String, ConfigValue)>) -> Seq<(String, ConfigValue)> {
    table_of(lookup(doc, "model_providers"@))
}

/// The managed provider's table within a document.
pub open spec fn managed_of(doc: Seq<(String, ConfigValue)>) -> Seq<(String, ConfigValue)> {
    table_of(lookup(providers_of(doc), "88code"@))
}

/// The `config.toml` text that the basic update writes over the document `doc`.
pub open spec fn codex_basic_config_text(doc: Seq<(String, ConfigValue)>, base_url: Seq<char>) -> Seq<
    char,
> {
    config_text(
        root_head("88code"@, "gpt-5-codex"@, "high"@, true),
        drop_keys(doc, config_reserved()),
        provider_head("88code"@, base_url, "responses"@, "key88"@, true),
        drop_keys(managed_of(doc), provider_reserved()),
        drop_keys(providers_of(doc), managed_provider()),
    )
}

/// The string under `k`, or `default` where there is no string there.
pub open spec fn str_or(t: Seq<(String, ConfigValue)>, k: Seq<char>, default: Seq<char>) -> Seq<char> {
    match lookup(t, k) {
        Some(ConfigValue::Str(s)) => s@,
        _ => default,
    }
}

/// The boolean under `k`, or `default` where there is no boolean there.
pub open spec fn bool_or(t: Seq<(String, ConfigValue)>, k: Seq<char>, default: bool) -> bool {
    match lookup(t, k) {
        Some(ConfigValue::Bool(b)) => b,
        _ => default,
    }
}

/// The `config.toml` text that the advanced update writes: each managed value from the
/// incoming document, else from the existing one, else its default; unmanaged members from the incoming document
/// first and then those that only the existing document holds.
pub open spec fn codex_advanced_config_text(
    incoming: Seq<(String, ConfigValue)>,
    doc: Seq<(String, ConfigValue)>,
) -> Seq<char> {
    let m = managed_of(incoming);
    let o = managed_of(doc);
    config_text(
        root_head(
            str_or(incoming, "model_provider"@, str_or(doc, "model_provider"@, "88code"@)),
            str_or(incoming, "model"@, str_or(doc, "model"@, "gpt-5-codex"@)),
            str_or(
                incoming,
                "model_reasoning_effort"@,
                str_or(doc, "model_reasoning_effort"@, "high"@),
            ),
            bool_or(
                incoming,
                "disable_response_storage"@,
                bool_or(doc, "disable_response_storage"@, true),
            ),
        ),
        supplement(drop_keys(incoming, config_reserved()), drop_keys(doc, config_reserved())),
        provider_head(
            str_or(m, "name"@, str_or(o, "name"@, "88code"@)),
            str_or(m, "base_url"@, str_or(o, "base_url"@, Seq::empty())),
            str_or(m, "wire_api"@, str_or(o, "wire_api"@, "responses"@)),
            str_or(m, "env_key"@, str_or(o, "env_key"@, "key88"@)),
            bool_or(m, "requires_openai_auth"@, bool_or(o, "requires_openai_auth"@, true)),
        ),
        supplement(
            drop_keys(m, provider_reserved()),
            drop_keys(managed_of(doc), provider_reserved()),
        ),
        supplement(
            drop_keys(providers_of(incoming), managed_provider()),
            drop_keys(providers_of(doc), managed_provider()),
        ),
    )
}

/// Other `auth.json` members, each on its own line after a comma.
pub open spec fn auth_member_lines(es: Seq<(String, ConfigValue)>) -> Seq<char>
    decreases es.len(),
{
    if es.len() == 0 {
        Seq::empty()
    } else {
        auth_member_lines(es.drop_last()) + ",\n  \""@ + escape_json(es.last().0@) + "\": "@ + json_compact(
            es.last().1,
        )
    }
}

/// The `auth.json` text: the key first, then the other members.
pub open spec fn auth_text(api_key: Seq<char>, extra: Seq<(String, ConfigValue)>) -> Seq<char> {
    "{\n  \"OPENAI_API_KEY\": \""@ + escape_json(api_key) + "\""@ + auth_member_lines(extra)
        + "\n}\n"@
}

/// The key that the advanced update writes to `auth.json`: the incoming string, else
/// the existing string, else the given key.
pub open spec fn advanced_api_key(
    incoming: Seq<(String, ConfigValue)>,
    doc: Seq<(String, ConfigValue)>,
    api_key: Seq<char>,
) -> Seq<char> {
    str_or(incoming, "OPENAI_API_KEY"@, str_or(doc, "OPENAI_API_KEY"@, api_key))
}

fn key_list1(a: &str) -> (r: Vec<String>)
    ensures
        views(r@) == seq![a@],
{
    let r = vec![String::from_str(a)];
    proof {
        assert(views(r@) =~= seq![a@]);
    }
    r
}

fn key_list5(a: &str, b: &str, c: &str, d: &str, e: &str) -> (r: Vec<String>)
    ensures
        views(r@) == seq![a@, b@, c@, d@, e@],
{
    let r = vec![
        String::from_str(a),
        String::from_str(b),
        String::from_str(c),
        String::from_str(d),
        String::from_str(e),
    ];
    proof {
        assert(views(r@) =~= seq![a@, b@, c@, d@, e@]);
    }
    r
}

fn config_reserved_keys() -> (r: Vec<String>)
    ensures
        views(r@) == config_reserved(),
{
    key_list5(
        "model_provider",
        "model",
        "model_reasoning_effort",
        "disable_response_storage",
        "model_providers",
    )
}

fn provider_reserved_keys() -> (r: Vec<String>)
    ensures
        views(r@) == provider_reserved(),
{
    key_list5("name", "base_url", "wire_api", "env_key", "requires_openai_auth")
}

/// Appends a TOML basic string.
fn push_toml_str(out: &mut String, s: &str)
    ensures
        final(out)@ == old(out)@ + toml_str(s@),
{
    out.append("\"");
    let e = escape_json_str(s);
    out.append(e.as_str());
    out.append("\"");
    proof {
        assert(final(out)@ =~= old(out)@ + toml_str(s@));
    }
}

/// Appends a key as TOML writes it.
fn push_toml_key(out: &mut String, k: &str)
    ensures
        final(out)@ == old(out)@ + toml_key(k@),
{
    let cs = chars_of(k);
    let mut bare = cs.len() > 0;
    let mut i: usize = 0;
    while i < cs.len()
        invariant
            i <= cs@.len(),
            cs@ == k@,
            bare == (cs@.len() > 0 && forall|j: int| 0 <= j < i ==> bare_char(cs@[j])),
        decreases cs@.len() - i,
    {
        let c = cs[i];
        let ok = ('A' <= c && c <= 'Z') || ('a' <= c && c <= 'z') || ('0' <= c && c <= '9')
            || c == '_' || c == '-';
        bare = bare && ok;
        i = i + 1;
    }
    if bare {
        out.append(k);
    } else {
        push_toml_str(out, k);
    }
}

fn push_toml_scalar(out: &mut String, v: &ConfigValue)
    ensures
        final(out)@ == old(out)@ + toml_scalar(*v),
{
    match v {
        ConfigValue::Str(s) => {
            push_toml_str(out, s.as_str());
        },
        ConfigValue::Int(i) => {
            let t = int_to_text(*i);
            out.append(t.as_str());
        },
        ConfigValue::Number(t) => {
            out.append(t.as_str());
        },
        ConfigValue::Bool(b) => {
            out.append(if *b { "true" } else { "false" });
        },
        ConfigValue::Datetime(d) => {
            out.append(d.as_str());
        },
        ConfigValue::Null => {},
        _ => {
            let t = to_toml_inline(v);
            out.append(t.as_str());
        },
    }
    proof {
        assert(final(out)@ =~= old(out)@ + toml_scalar(*v));
    }
}

/// Formats one member as a TOML `key = value` line.
pub fn format_toml_value(key: &str, value: &ConfigValue) -> (r: String)
    ensures
        r@ == toml_line(key@, *value),
{
    let mut out = String::new();
    match value {
        ConfigValue::Null => {},
        ConfigValue::Array(items) => {
            push_toml_key(&mut out, key);
            out.append(" = [");
            let ghost start = out@;
            let mut i: usize = 0;
            while i < items.len()
                invariant
                    i <= items@.len(),
                    out@ == start + toml_items(items@.subrange(0, i as int)),
                decreases items@.len() - i,
            {
                proof {
                    let p = items@.subrange(0, i as int + 1);
                    assert(p.drop_last() =~= items@.subrange(0, i as int));
                    assert(p[0] == items@[0]);
                }
                if i > 0 {
                    out.append(", ");
                }
                push_toml_scalar(&mut out, &items[i]);
                proof {
                    assert(out@ =~= start + toml_items(items@.subrange(0, i as int + 1)));
                }
                i = i + 1;
            }
            proof {
                assert(items@.subrange(0, i as int) =~= items@);
            }
            out.append("]\n");
        },
        _ => {
            push_toml_key(&mut out, key);
            out.append(" = ");
            push_toml_scalar(&mut out, value);
            out.append("\n");
        },
    }
    proof {
        assert(out@ =~= toml_line(key@, *value));
    }
    out
}

fn push_toml_lines(out: &mut String, es: &Entries)
    ensures
        final(out)@ == old(out)@ + toml_lines(es@),
{
    let mut i: usize = 0;
    while i < es.len()
        invariant
            i <= es@.len(),
            out@ == old(out)@ + toml_lines(es@.subrange(0, i as int)),
        decreases es@.len() - i,
    {
        proof {
            assert(es@.subrange(0, i as int + 1).drop_last() =~= es@.subrange(0, i as int));
        }
        let line = format_toml_value(es[i].0.as_str(), &es[i].1);
        out.append(line.as_str());
        proof {
            assert(out@ =~= old(out)@ + toml_lines(es@.subrange(0, i as int + 1)));
        }
        i = i + 1;
    }
    proof {
        assert(es@.subrange(0, i as int) =~= es@);
    }
}

fn push_provider_blocks(out: &mut String, ps: Entries)
    ensures
        final(out)@ == old(out)@ + provider_blocks(ps@),
{
    let total = ps.len();
    let ghost orig = ps@;
    let mut rest = ps;
    let mut i: usize = 0;
    while rest.len() > 0
        invariant
            total == orig.len(),
            i <= orig.len(),
            rest@ == orig.subrange(i as int, orig.len() as int),
            out@ == old(out)@ + provider_blocks(orig.subrange(0, i as int)),
        decreases rest@.len(),
    {
        let e = rest.remove(0);
        proof {
            assert(orig.subrange(0, i as int + 1).drop_last() =~= orig.subrange(0, i as int));
            assert(e == orig[i as int]);
            assert(rest@ =~= orig.subrange(i as int + 1, orig.len() as int));
        }
        out.append("\n[model_providers.");
        push_toml_key(out, e.0.as_str());
        out.append("]\n");
        let t = into_table(Some(e.1));
        push_toml_lines(out, &t);
        proof {
            assert(out@ =~= old(out)@ + provider_blocks(orig.subrange(0, i as int + 1)));
        }
        i = i + 1;
    }
    proof {
        assert(orig.subrange(0, i as int) =~= orig);
    }
}

fn push_auth_member_lines(out: &mut String, es: Entries)
    ensures
        final(out)@ == old(out)@ + auth_member_lines(es@),
{
    let total = es.len();
    let ghost orig = es@;
    let mut rest = es;
    let mut i: usize = 0;
    while rest.len() > 0
        invariant
            total == orig.len(),
            i <= orig.len(),
            rest@ == orig.subrange(i as int, orig.len() as int),
            out@ == old(out)@ + auth_member_lines(orig.subrange(0, i as int)),
        decreases rest@.len(),
    {
        let e = rest.remove(0);
        proof {
            assert(orig.subrange(0, i as int + 1).drop_last() =~= orig.subrange(0, i as int));
            assert(e == orig[i as int]);
            assert(rest@ =~= orig.subrange(i as int + 1, orig.len() as int));
        }
        out.append(",\n  \"");
        let k = escape_json_str(e.0.as_str());
        out.append(k.as_str());
        out.append("\": ");
        let v = to_json_compact(&e.1);
        out.append(v.as_str());
        proof {
            assert(out@ =~= old(out)@ + auth_member_lines(orig.subrange(0, i as int + 1)));
        }
        i = i + 1;
    }
    proof {
        assert(orig.subrange(0, i as int) =~= orig);
    }
}

/// Renders `auth.json` from the key and the other members.
pub fn render_auth(api_key: &str, extra: Entries) -> (r: String)
    ensures
        r@ == auth_text(api_key@, extra@),
{
    let mut out = String::from_str("{\n  \"OPENAI_API_KEY\": \"");
    let k = escape_json_str(api_key);
    out.append(k.as_str());
    out.append("\"");
    push_auth_member_lines(&mut out, extra);
    out.append("\n}\n");
    proof {
        assert(out@ =~= auth_text(api_key@, extra@));
    }
    out
}

/// Renders `config.toml` from its managed parts and its pass-through members.
pub fn render_config(
    head: String,
    extra_root: Entries,
    provider: String,
    extra_provider: Entries,
    others: Entries,
) -> (r: String)
    ensures
        r@ == config_text(head@, extra_root@, provider@, extra_provider@, others@),
{
    let mut out = head;
    push_toml_lines(&mut out, &extra_root);
    out.append(provider.as_str());
    push_toml_lines(&mut out, &extra_provider);
    push_provider_blocks(&mut out, others);
    proof {
        assert(out@ =~= config_text(head@, extra_root@, provider@, extra_provider@, others@));
    }
    out
}

/// Renders the managed top-level lines.
pub fn render_root_head(provider: &str, model: &str, effort: &str, disable: bool) -> (r: String)
    ensures
        r@ == root_head(provider@, model@, effort@, disable),
{
    let mut out = String::from_str("model_provider = ");
    push_toml_str(&mut out, provider);
    out.append("\nmodel = ");
    push_toml_str(&mut out, model);
    out.append("\nmodel_reasoning_effort = ");
    push_toml_str(&mut out, effort);
    out.append("\ndisable_response_storage = ");
    out.append(if disable { "true" } else { "false" });
    out.append("\n");
    proof {
        assert(out@ =~= root_head(provider@, model@, effort@, disable));
    }
    out
}

/// Renders the managed provider section.
pub fn render_provider_head(
    name: &str,
    base_url: &str,
    wire_api: &str,
    env_key: &str,
    requires_auth: bool,
) -> (r: String)
    ensures
        r@ == provider_head(name@, base_url@, wire_api@, env_key@, requires_auth),
{
    let mut out = String::from_str("\n[model_providers.88code]\nname = ");
    push_toml_str(&mut out, name);
    out.append("\nbase_url = ");
    push_toml_str(&mut out, base_url);
    out.append("\nwire_api = ");
    push_toml_str(&mut out, wire_api);
    out.append("\nenv_key = ");
    push_toml_str(&mut out, env_key);
    out.append("\nrequires_openai_auth = ");
    out.append(if requires_auth { "true" } else { "false" });
    out.append("\n");
    proof {
        assert(out@ =~= provider_head(name@, base_url@, wire_api@, env_key@, requires_auth));
    }
    out
}

/// Splits a `config.toml` document into its other top-level members, the managed
/// provider's table, and the other providers.
fn split_config(doc: Entries) -> (r: (Entries, Entries, Entries))
    ensures
        r.0@ == drop_keys(doc@, config_reserved()),
        r.1@ == managed_of(doc@),
        r.2@ == drop_keys(providers_of(doc@), managed_provider()),
{
    let mut doc = doc;
    let ghost d0 = doc@;
    let reserved = config_reserved_keys();
    let mp_key = String::from_str("model_providers");
    proof {
        assert(config_reserved().contains("model_providers"@));
        assert(managed_provider()[0] == "88code"@);
        assert(managed_provider().contains("88code"@));
    }
    let mut providers = into_table(take_value(&mut doc, &mp_key));
    let root = without_keys(doc, &reserved);
    let code_key = String::from_str("88code");
    let managed = into_table(take_value(&mut providers, &code_key));
    let others = without_keys(providers, &key_list1("88code"));
    (root, managed, others)
}

/// Writes `auth.json` and `config.toml` for the agent: the key and the managed
/// provider with the given base URL, every other member of the existing documents
/// (`None` where there is no file) kept in its order.
pub fn configure_codex(
    existing_auth: Option<String>,
    existing_config: Option<String>,
    base_url: String,
    api_key: String,
) -> (r: (String, String))
    ensures
        r.0@ == auth_text(api_key@, drop_keys(existing_json(existing_auth), auth_reserved())),
        r.1@ == codex_basic_config_text(existing_toml(existing_config), base_url@),
{
    let auth_doc = read_json_entries(&existing_auth);
    let extra = without_keys(auth_doc, &key_list1("OPENAI_API_KEY"));
    let auth = render_auth(api_key.as_str(), extra);

    let doc = read_toml_entries(&existing_config);
    let (root, managed, others) = split_config(doc);
    let extra_provider = without_keys(managed, &provider_reserved_keys());
    let head = render_root_head("88code", "gpt-5-codex", "high", true);
    let provider = render_provider_head("88code", base_url.as_str(), "responses", "key88", true);
    let config = render_config(head, root, provider, extra_provider, others);
    (auth, config)
}

/// The string under `k`, or `default` where there is no string there.
fn string_or(t: &Entries, k: &str, default: &str) -> (r: String)
    ensures
        r@ == str_or(t@, k@, default@),
{
    let key = String::from_str(k);
    proof {
        lemma_lookup_index(t@, k@);
        lemma_key_index_bounds(t@, k@);
    }
    match position_of(t, &key) {
        Some(i) => match &t[i].1 {
            ConfigValue::Str(s) => s.clone(),
            _ => String::from_str(default),
        },
        None => String::from_str(default),
    }
}

/// The boolean under `k`, or `default` where there is no boolean there.
fn boolean_or(t: &Entries, k: &str, default: bool) -> (r: bool)
    ensures
        r == bool_or(t@, k@, default),
{
    let key = String::from_str(k);
    proof {
        lemma_lookup_index(t@, k@);
        lemma_key_index_bounds(t@, k@);
    }
    match position_of(t, &key) {
        Some(i) => match &t[i].1 {
            ConfigValue::Bool(b) => *b,
            _ => default,
        },
        None => default,
    }
}

/// Merges caller-supplied `auth.json` and `config.toml` texts into the existing
/// documents (`None` where there is no file). In `auth.json` incoming members win key
/// by key; the key is the incoming string, else the existing one, else `api_key`. In
/// `config.toml` managed values come from the incoming document or their defaults, and
/// unmanaged members from the incoming document come first, followed by those only the
/// existing document holds. Refused, before anything is written, where either text does
/// not parse.
pub fn configure_codex_advanced(
    existing_auth: Option<String>,
    existing_config: Option<String>,
    auth_json: String,
    config_toml: String,
    api_key: String,
) -> (r: Result<(String, String), ConfigError>)
    ensures
        json_parse(auth_json@) is None ==> r == Err::<(String, String), ConfigError>(
            ConfigError::Malformed(DocumentKind::AgentAuth),
        ),
        json_parse(auth_json@) is Some && toml_parse(config_toml@) is None ==> r == Err::<
            (String, String),
            ConfigError,
        >(ConfigError::Malformed(DocumentKind::AgentConfig)),
        json_parse(auth_json@) is Some && toml_parse(config_toml@) is Some ==> (r matches Ok(t)
            && t.0@ == auth_text(
            advanced_api_key(table_of(json_parse(auth_json@)), existing_json(existing_auth), api_key@),
            merge_entries(
                drop_keys(existing_json(existing_auth), auth_reserved()),
                drop_keys(table_of(json_parse(auth_json@)), auth_reserved()),
            ),
        ) && t.1@ == codex_advanced_config_text(
            table_of(toml_parse(config_toml@)),
            existing_toml(existing_config),
        )),
{
    let new_auth = parse_json(auth_json.as_str());
    if new_auth.is_none() {
        return Err(ConfigError::Malformed(DocumentKind::AgentAuth));
    }
    let new_config = parse_toml(config_toml.as_str());
    if new_config.is_none() {
        return Err(ConfigError::Malformed(DocumentKind::AgentConfig));
    }

    let incoming_auth = into_table(new_auth);
    let auth_doc = read_json_entries(&existing_auth);
    let existing_key = string_or(&auth_doc, "OPENAI_API_KEY", api_key.as_str());
    let key = string_or(&incoming_auth, "OPENAI_API_KEY", existing_key.as_str());
    let auth_keys = key_list1("OPENAI_API_KEY");
    let mut extra = without_keys(auth_doc, &auth_keys);
    merge_into(&mut extra, without_keys(incoming_auth, &auth_keys));
    let auth = render_auth(key.as_str(), extra);

    let incoming = into_table(new_config);
    let doc = read_toml_entries(&existing_config);
    let head = render_root_head(
        string_or(&incoming, "model_provider", string_or(&doc, "model_provider", "88code").as_str())
            .as_str(),
        string_or(&incoming, "model", string_or(&doc, "model", "gpt-5-codex").as_str()).as_str(),
        string_or(
            &incoming,
            "model_reasoning_effort",
            string_or(&doc, "model_reasoning_effort", "high").as_str(),
        ).as_str(),
        boolean_or(
            &incoming,
            "disable_response_storage",
            boolean_or(&doc, "disable_response_storage", true),
        ),
    );
    let (mut root, managed, mut others) = split_config(incoming);
    let (old_root, old_managed, old_others) = split_config(doc);
    let provider = render_provider_head(
        string_or(&managed, "name", string_or(&old_managed, "name", "88code").as_str()).as_str(),
        string_or(&managed, "base_url", string_or(&old_managed, "base_url", "").as_str()).as_str(),
        string_or(&managed, "wire_api", string_or(&old_managed, "wire_api", "responses").as_str())
            .as_str(),
        string_or(&managed, "env_key", string_or(&old_managed, "env_key", "key88").as_str()).as_str(),
        boolean_or(
            &managed,
            "requires_openai_auth",
            boolean_or(&old_managed, "requires_openai_auth", true),
        ),
    );
    let provider_keys = provider_reserved_keys();
    let mut extra_provider = without_keys(managed, &provider_keys);
    supplement_into(&mut root, old_root);
    supplement_into(&mut extra_provider, without_keys(old_managed, &provider_keys));
    supplement_into(&mut others, old_others);
    proof {
        reveal_strlit("");
        assert(""@ =~= Seq::<char>::empty());
    }
    let config = render_config(head, root, provider, extra_provider, others);
    Ok((auth, config))
}

/// The agent's `auth.json` as a typed record.
pub struct CodexAuth {
    pub openai_api_key: String,
    /// Every other member, in order.
    pub extra: Entries,
}

/// An object whose `OPENAI_API_KEY` is a string.
pub open spec fn auth_ok(doc: Option<ConfigValue>) -> bool {
    match doc {
        Some(ConfigValue::Table(t)) => lookup(t@, "OPENAI_API_KEY"@) matches Some(
            ConfigValue::Str(_),
        ),
        _ => false,
    }
}

/// Reads the agent's `auth.json` (`None` where there is no file); refused where the
/// text is not an object with a string `OPENAI_API_KEY`.
pub fn get_codex_auth(existing: Option<String>) -> (r: Result<Option<CodexAuth>, ConfigError>)
    ensures
        existing is None ==> r == Ok::<Option<CodexAuth>, ConfigError>(None),
        existing matches Some(text) ==> ((r is Ok) == auth_ok(json_parse(text@))),
        existing matches Some(text) ==> (r is Err ==> r == Err::<Option<CodexAuth>, ConfigError>(
            ConfigError::Malformed(DocumentKind::AgentAuth),
        )),
        existing matches Some(text) ==> (r matches Ok(Some(a)) ==> a.openai_api_key@ == str_or(
            table_of(json_parse(text@)),
            "OPENAI_API_KEY"@,
            Seq::empty(),
        ) && a.extra@ == drop_keys(table_of(json_parse(text@)), auth_reserved())),
        existing is Some ==> !(r matches Ok(None)),
{
    let text = match existing {
        None => {
            return Ok(None);
        },
        Some(text) => text,
    };
    match parse_json(text.as_str()) {
        Some(ConfigValue::Table(t)) => {
            let mut t = t;
            let key_name = String::from_str("OPENAI_API_KEY");
            let keys = key_list1("OPENAI_API_KEY");
            proof {
                assert(views(keys@)[0] == "OPENAI_API_KEY"@);
                assert(views(keys@).contains("OPENAI_API_KEY"@));
            }
            let key = take_value(&mut t, &key_name);
            let extra = without_keys(t, &keys);
            match key {
                Some(ConfigValue::Str(k)) => Ok(Some(CodexAuth { openai_api_key: k, extra })),
                _ => Err(ConfigError::Malformed(DocumentKind::AgentAuth)),
            }
        },
        _ => Err(ConfigError::Malformed(DocumentKind::AgentAuth)),
    }
}

/// Running the basic update again over documents that read back with the same
/// unmanaged members, as the first run's output does, writes the same texts again.
pub proof fn codex_basic_update_idempotent(
    auth: Seq<(String, ConfigValue)>,
    auth_reread: Seq<(String, ConfigValue)>,
    doc: Seq<(String, ConfigValue)>,
    reread: Seq<(String, ConfigValue)>,
    base_url: Seq<char>,
    api_key: Seq<char>,
)
    requires
        drop_keys(auth_reread, auth_reserved()) == drop_keys(auth, auth_reserved()),
        drop_keys(reread, config_reserved()) == drop_keys(doc, config_reserved()),
        drop_keys(managed_of(reread), provider_reserved()) == drop_keys(
            managed_of(doc),
            provider_reserved(),
        ),
        drop_keys(providers_of(reread), managed_provider()) == drop_keys(
            providers_of(doc),
            managed_provider(),
        ),
    ensures
        auth_text(api_key, drop_keys(auth_reread, auth_reserved())) == auth_text(
            api_key,
            drop_keys(auth, auth_reserved()),
        ),
        codex_basic_config_text(reread, base_url) == codex_basic_config_text(doc, base_url),
{
}

} // verus!

use crate::error::{ConfigError, DocumentKind};
use crate::formats::{existing_json, json_parse, json_pretty, parse_json, read_json_entries, to_json_pretty};
use crate::value::{upsert, upsert_entry};
use crate::value::ConfigValue;
use crate::lines::{
    ends_with_comma, has_char, indent_of, lemma_rfind_char, line_ends_with_comma, line_indent,
    line_views, lines_of, rfind_char, rfind_in, slice_chars, split_lines, trim, trim_line,
};
use crate::normalize::{normalize_json_text, normalized};
use crate::text::{chars_of, contains_char, contains_seq, find_seq, push_chars, push_str, string_of};
use vstd::prelude::*;

verus! {

/// The quoted key of the API base URL setting.
pub open spec fn api_token() -> Seq<char> {
    "\"chatgpt.apiBase\""@
}

/// The quoted key of the extension's configuration object.
pub open spec fn config_token() -> Seq<char> {
    "\"chatgpt.config\""@
}

/// A line that holds `key` and a colon.
pub open spec fn is_key_line(l: Seq<char>, key: Seq<char>) -> bool {
    contains_seq(l, key) && contains_char(l, ':')
}

/// A comma, or nothing.
pub open spec fn comma_if(b: bool) -> Seq<char> {
    if b {
        ","@
    } else {
        Seq::empty()
    }
}

/// The pieces of a text, each line with its own line break (`"\n"` or `"\r\n"`); a
/// last line without a break is a piece when it is not empty. `cur` is the part of the
/// current piece already read.
pub open spec fn segs_from(s: Seq<char>, i: int, cur: Seq<char>) -> Seq<Seq<char>>
    decreases s.len() - i,
{
    if i < 0 || i >= s.len() {
        if cur.len() > 0 {
            seq![cur]
        } else {
            Seq::empty()
        }
    } else if s[i] == '\n' {
        seq![cur.push('\n')] + segs_from(s, i + 1, Seq::empty())
    } else {
        segs_from(s, i + 1, cur.push(s[i]))
    }
}

/// The lines of a text, each with its own line break.
pub open spec fn segments(s: Seq<char>) -> Seq<Seq<char>> {
    segs_from(s, 0, Seq::empty())
}

/// Pieces put back together.
pub open spec fn concat(ss: Seq<Seq<char>>) -> Seq<char>
    decreases ss.len(),
{
    if ss.len() == 0 {
        Seq::empty()
    } else {
        concat(ss.drop_last()) + ss.last()
    }
}

/// Length of a piece without its line break.
pub open spec fn body_len(seg: Seq<char>) -> int {
    if seg.len() > 0 && seg.last() == '\n' {
        if seg.len() > 1 && seg[seg.len() - 2] == '\r' {
            seg.len() - 2
        } else {
            seg.len() - 1
        }
    } else {
        seg.len() as int
    }
}

/// A piece without its line break.
pub open spec fn body(seg: Seq<char>) -> Seq<char> {
    seg.subrange(0, body_len(seg))
}

/// The line break of a piece (empty for a last line without one).
pub open spec fn eol(seg: Seq<char>) -> Seq<char> {
    seg.subrange(body_len(seg), seg.len() as int)
}

/// The line break to use for lines written next to this piece: its own, or `"\n"`.
pub open spec fn newline_of(seg: Seq<char>) -> Seq<char> {
    if body_len(seg) < seg.len() {
        eol(seg)
    } else {
        "\n"@
    }
}

/// A line with the API base key rewritten to the new value, its indentation, trailing
/// comma and line break kept; any other line unchanged.
pub open spec fn api_seg(seg: Seq<char>, url: Seq<char>) -> Seq<char> {
    if is_key_line(body(seg), api_token()) {
        indent_of(body(seg)) + "\"chatgpt.apiBase\": \""@ + url + "\""@ + comma_if(
            ends_with_comma(body(seg)),
        ) + eol(seg)
    } else {
        seg
    }
}

/// Scans a line of the configuration object from position `j` with `depth` open
/// braces: whether the object closes on it (a closing brace that brings the depth back
/// to zero, or one with nothing open), and the depth at its end otherwise. The depth is
/// counted up to `usize::MAX`.
pub open spec fn close_scan(l: Seq<char>, j: int, depth: nat) -> (bool, nat)
    decreases l.len() - j,
{
    if j < 0 || j >= l.len() {
        (false, depth)
    } else if l[j] == '{' {
        close_scan(l, j + 1, if depth < usize::MAX { depth + 1 } else { depth })
    } else if l[j] == '}' {
        if depth <= 1 {
            (true, 0)
        } else {
            close_scan(l, j + 1, (depth - 1) as nat)
        }
    } else {
        close_scan(l, j + 1, depth)
    }
}

/// The rewritten configuration object, up to its closing brace.
pub open spec fn config_head(ind: Seq<char>, nl: Seq<char>) -> Seq<char> {
    ind + "\"chatgpt.config\": {"@ + nl + ind + "  \"preferred_auth_method\": \"apikey\""@ + nl
        + ind + "}"@
}

/// The text from piece `i` on after the configuration object pass. The key line and
/// every line up to the one where the object closes (braces counted from the key line)
/// give way to the rewritten object, which takes the trailing comma and line break of
/// that closing line. `inside` and `depth` say whether lines are being replaced and how
/// many braces are open.
pub open spec fn config_pass(ss: Seq<Seq<char>>, i: int, inside: bool, depth: nat) -> Seq<char>
    decreases ss.len() - i,
{
    if i < 0 || i >= ss.len() {
        Seq::empty()
    } else {
        let b = body(ss[i]);
        if inside || is_key_line(b, config_token()) {
            let head = if inside {
                Seq::empty()
            } else {
                config_head(indent_of(b), newline_of(ss[i]))
            };
            let c = close_scan(b, 0, if inside { depth } else { 0 });
            if c.0 {
                head + comma_if(ends_with_comma(b)) + eol(ss[i]) + config_pass(ss, i + 1, false, 0)
            } else {
                head + config_pass(ss, i + 1, true, c.1)
            }
        } else {
            ss[i] + config_pass(ss, i + 1, false, 0)
        }
    }
}

/// The first piece at or after `i` whose line holds `key` and a colon, or -1.
pub open spec fn first_key_seg(ss: Seq<Seq<char>>, key: Seq<char>, i: int) -> int
    decreases ss.len() - i,
{
    if i < 0 || i >= ss.len() {
        -1
    } else if is_key_line(body(ss[i]), key) {
        i
    } else {
        first_key_seg(ss, key, i + 1)
    }
}

/// Does some line of the text hold `key` and a colon?
pub open spec fn has_key_line(s: Seq<char>, key: Seq<char>) -> bool {
    first_key_seg(segments(s), key, 0) >= 0
}

/// The lines inserted right before an existing key's line: the missing member, with
/// that line's indentation and line break and a trailing comma.
pub open spec fn member_before(api: bool, ind: Seq<char>, nl: Seq<char>, url: Seq<char>) -> Seq<char> {
    if api {
        ind + "\"chatgpt.apiBase\": \""@ + url + "\","@ + nl
    } else {
        config_head(ind, nl) + ","@ + nl
    }
}

/// Inserts the missing member right before the first line holding `key`.
pub open spec fn insert_before_key(t: Seq<char>, key: Seq<char>, api: bool, url: Seq<char>) -> Seq<char> {
    let ss = segments(t);
    let k = first_key_seg(ss, key, 0);
    if k < 0 {
        t
    } else {
        concat(ss.subrange(0, k)) + member_before(
            api,
            indent_of(body(ss[k])),
            newline_of(ss[k]),
            url,
        ) + concat(ss.subrange(k, ss.len() as int))
    }
}

/// The indentation for inserted lines: that of the last line, or two spaces.
pub open spec fn tail_indent(ls: Seq<Seq<char>>) -> Seq<char> {
    if ls.len() > 0 {
        indent_of(ls.last())
    } else {
        "  "@
    }
}

/// The text inserted before the final brace when neither key exists.
pub open spec fn both_block(ind: Seq<char>, url: Seq<char>) -> Seq<char> {
    "\n"@ + ind + "\"chatgpt.apiBase\": \""@ + url + "\",\n"@ + ind + "\"chatgpt.config\": {\n"@
        + ind + "  \"preferred_auth_method\": \"apikey\"\n"@ + ind + "}\n"@
}

/// Inserts both keys before the last closing brace, with a comma after the previous
/// line where it needs one.
pub open spec fn insert_both(t: Seq<char>, url: Seq<char>) -> Seq<char> {
    let p = rfind_char(t, '}');
    if p < 0 {
        t
    } else {
        let ls = lines_of(t.subrange(0, p));
        let needs = ls.len() > 0 && trim(ls.last()).len() > 0 && !ends_with_comma(ls.last())
            && trim(ls.last()) != seq!['{'];
        t.subrange(0, p) + comma_if(needs) + both_block(tail_indent(ls), url) + t.subrange(
            p,
            t.len() as int,
        )
    }
}

/// The editor settings text with both managed keys set. Lines that hold neither key,
/// and are not inside the replaced configuration object, keep their bytes, line breaks
/// included; a missing key goes right before the existing one, or, when both are
/// missing, before the last closing brace.
pub open spec fn patch_settings(orig: Seq<char>, url: Seq<char>) -> Seq<char> {
    let has_api = has_key_line(orig, api_token());
    let has_cfg = has_key_line(orig, config_token());
    let t1 = concat(segments(orig).map_values(|s: Seq<char>| api_seg(s, url)));
    let t2 = config_pass(segments(t1), 0, false, 0);
    if !has_api && !has_cfg {
        insert_both(t2, url)
    } else if has_api && !has_cfg {
        insert_before_key(t2, api_token(), false, url)
    } else if !has_api && has_cfg {
        insert_before_key(t2, config_token(), true, url)
    } else {
        t2
    }
}

fn token_chars(api: bool) -> (r: Vec<char>)
    ensures
        r@ == (if api {
            api_token()
        } else {
            config_token()
        }),
{
    if api {
        chars_of("\"chatgpt.apiBase\"")
    } else {
        chars_of("\"chatgpt.config\"")
    }
}

fn key_line(l: &Vec<char>, key: &Vec<char>) -> (r: bool)
    ensures
        r == is_key_line(l@, key@),
{
    find_seq(l, key).is_some() && has_char(l, ':')
}

fn copy_chars(t: &Vec<char>) -> (r: Vec<char>)
    ensures
        r@ == t@,
{
    let r = slice_chars(t, 0, t.len());
    proof {
        assert(t@.subrange(0, t@.len() as int) =~= t@);
    }
    r
}

/// Splits a text into its lines, each with its own line break.
fn split_segments(s: &Vec<char>) -> (r: Vec<Vec<char>>)
    ensures
        line_views(r@) == segments(s@),
{
    let n = s.len();
    let mut out: Vec<Vec<char>> = Vec::new();
    let mut cur: Vec<char> = Vec::new();
    let mut i: usize = 0;
    while i < n
        invariant
            n == s@.len(),
            i <= n,
            line_views(out@) + segs_from(s@, i as int, cur@) == segments(s@),
        decreases n - i,
    {
        let ghost before = line_views(out@);
        let ghost cur0 = cur@;
        cur.push(s[i]);
        if s[i] == '\n' {
            out.push(cur);
            cur = Vec::new();
            proof {
                assert(line_views(out@) =~= before.push(cur0.push('\n')));
                assert(line_views(out@) + segs_from(s@, i + 1, cur@) =~= before + segs_from(
                    s@,
                    i as int,
                    cur0,
                ));
            }
        }
        i = i + 1;
    }
    let ghost before = line_views(out@);
    if cur.len() > 0 {
        out.push(cur);
    }
    proof {
        assert(line_views(out@) =~= before + segs_from(s@, i as int, cur@));
    }
    out
}

/// Appends pieces `from..to` to `out`.
fn push_segments(out: &mut Vec<char>, ss: &Vec<Vec<char>>, from: usize, to: usize)
    requires
        from <= to <= ss@.len(),
    ensures
        final(out)@ == old(out)@ + concat(line_views(ss@).subrange(from as int, to as int)),
{
    let mut i = from;
    while i < to
        invariant
            from <= i <= to <= ss@.len(),
            out@ == old(out)@ + concat(line_views(ss@).subrange(from as int, i as int)),
        decreases to - i,
    {
        proof {
            let p = line_views(ss@).subrange(from as int, i + 1);
            assert(p.drop_last() =~= line_views(ss@).subrange(from as int, i as int));
            assert(p.last() == ss@[i as int]@);
        }
        push_chars(out, &ss[i]);
        proof {
            assert(out@ =~= old(out)@ + concat(line_views(ss@).subrange(from as int, i + 1)));
        }
        i = i + 1;
    }
}

/// Length of a piece without its line break.
fn seg_body_len(seg: &Vec<char>) -> (r: usize)
    ensures
        r as int == body_len(seg@),
{
    let n = seg.len();
    if n > 0 && seg[n - 1] == '\n' {
        if n > 1 && seg[n - 2] == '\r' {
            n - 2
        } else {
            n - 1
        }
    } else {
        n
    }
}

/// The line break to use next to a piece.
fn seg_newline(seg: &Vec<char>) -> (r: Vec<char>)
    ensures
        r@ == newline_of(seg@),
{
    let b = seg_body_len(seg);
    if b < seg.len() {
        slice_chars(seg, b, seg.len())
    } else {
        chars_of("\n")
    }
}

fn rewrite_api_segments(ss: &Vec<Vec<char>>, url: &Vec<char>) -> (r: Vec<char>)
    ensures
        r@ == concat(line_views(ss@).map_values(|s: Seq<char>| api_seg(s, url@))),
{
    let key = token_chars(true);
    let ghost mapped = line_views(ss@).map_values(|s: Seq<char>| api_seg(s, url@));
    let mut out: Vec<char> = Vec::new();
    let mut i: usize = 0;
    while i < ss.len()
        invariant
            i <= ss@.len(),
            key@ == api_token(),
            mapped == line_views(ss@).map_values(|s: Seq<char>| api_seg(s, url@)),
            out@ == concat(mapped.subrange(0, i as int)),
        decreases ss@.len() - i,
    {
        let seg = &ss[i];
        let b = seg_body_len(seg);
        let body_v = slice_chars(seg, 0, b);
        let piece = if key_line(&body_v, &key) {
            let mut n = line_indent(&body_v);
            push_str(&mut n, "\"chatgpt.apiBase\": \"");
            push_chars(&mut n, url);
            push_str(&mut n, "\"");
            if line_ends_with_comma(&body_v) {
                push_str(&mut n, ",");
            }
            let e = slice_chars(seg, b, seg.len());
            push_chars(&mut n, &e);
            n
        } else {
            copy_chars(seg)
        };
        proof {
            reveal_strlit(",");
            assert(piece@ =~= api_seg(seg@, url@));
            assert(mapped[i as int] == piece@);
            assert(mapped.subrange(0, i + 1).drop_last() =~= mapped.subrange(0, i as int));
        }
        push_chars(&mut out, &piece);
        i = i + 1;
    }
    proof {
        assert(mapped.subrange(0, i as int) =~= mapped);
    }
    out
}

fn scan_close(l: &Vec<char>, depth: usize) -> (r: (bool, usize))
    ensures
        (r.0, r.1 as nat) == close_scan(l@, 0, depth as nat),
{
    let mut d = depth;
    let mut j: usize = 0;
    while j < l.len()
        invariant
            j <= l@.len(),
            close_scan(l@, 0, depth as nat) == close_scan(l@, j as int, d as nat),
        decreases l@.len() - j,
    {
        if l[j] == '{' {
            if d < usize::MAX {
                d = d + 1;
            }
        } else if l[j] == '}' {
            if d <= 1 {
                return (true, 0);
            }
            d = d - 1;
        }
        j = j + 1;
    }
    (false, d)
}

fn push_config_head(out: &mut Vec<char>, ind: &Vec<char>, nl: &Vec<char>)
    ensures
        final(out)@ == old(out)@ + config_head(ind@, nl@),
{
    push_chars(out, ind);
    push_str(out, "\"chatgpt.config\": {");
    push_chars(out, nl);
    push_chars(out, ind);
    push_str(out, "  \"preferred_auth_method\": \"apikey\"");
    push_chars(out, nl);
    push_chars(out, ind);
    push_str(out, "}");
    proof {
        assert(final(out)@ =~= old(out)@ + config_head(ind@, nl@));
    }
}

fn rewrite_config_segments(ss: &Vec<Vec<char>>) -> (r: Vec<char>)
    ensures
        r@ == config_pass(line_views(ss@), 0, false, 0),
{
    let key = token_chars(false);
    let ghost lv = line_views(ss@);
    let mut out: Vec<char> = Vec::new();
    let mut inside = false;
    let mut depth: usize = 0;
    let mut i: usize = 0;
    while i < ss.len()
        invariant
            i <= ss@.len(),
            key@ == config_token(),
            lv == line_views(ss@),
            !inside ==> depth == 0,
            out@ + config_pass(lv, i as int, inside, depth as nat) == config_pass(lv, 0, false, 0),
        decreases ss@.len() - i,
    {
        let ghost before = out@;
        let ghost (in0, d0) = (inside, depth);
        let seg = &ss[i];
        proof {
            assert(lv[i as int] == seg@);
        }
        let b = seg_body_len(seg);
        let body_v = slice_chars(seg, 0, b);
        if inside || key_line(&body_v, &key) {
            let start = if inside {
                depth
            } else {
                let ind = line_indent(&body_v);
                let nl = seg_newline(seg);
                push_config_head(&mut out, &ind, &nl);
                0
            };
            let (closed, d) = scan_close(&body_v, start);
            if closed {
                if line_ends_with_comma(&body_v) {
                    out.push(',');
                }
                let e = slice_chars(seg, b, seg.len());
                push_chars(&mut out, &e);
                inside = false;
                depth = 0;
            } else {
                inside = true;
                depth = d;
            }
        } else {
            push_chars(&mut out, seg);
        }
        proof {
            reveal_strlit(",");
            assert(out@ + config_pass(lv, i + 1, inside, depth as nat) =~= before + config_pass(
                lv,
                i as int,
                in0,
                d0 as nat,
            ));
        }
        i = i + 1;
    }
    proof {
        assert(out@ =~= out@ + config_pass(lv, i as int, inside, depth as nat));
    }
    out
}

fn first_key_segment(ss: &Vec<Vec<char>>, key: &Vec<char>) -> (r: Option<usize>)
    ensures
        match r {
            Some(k) => k as int == first_key_seg(line_views(ss@), key@, 0) && k < ss@.len(),
            None => first_key_seg(line_views(ss@), key@, 0) == -1,
        },
{
    let mut k: usize = 0;
    while k < ss.len()
        invariant
            k <= ss@.len(),
            first_key_seg(line_views(ss@), key@, 0) == first_key_seg(line_views(ss@), key@, k as int),
        decreases ss@.len() - k,
    {
        let seg = &ss[k];
        proof {
            assert(line_views(ss@)[k as int] == seg@);
        }
        let b = seg_body_len(seg);
        let body_v = slice_chars(seg, 0, b);
        if key_line(&body_v, key) {
            return Some(k);
        }
        k = k + 1;
    }
    None
}

fn has_key(t: &Vec<char>, api: bool) -> (r: bool)
    ensures
        r == has_key_line(t@, if api { api_token() } else { config_token() }),
{
    let ss = split_segments(t);
    first_key_segment(&ss, &token_chars(api)).is_some()
}

/// Inserts the missing member right before the existing key's line.
fn insert_member_before(t: &Vec<char>, api: bool, url: &Vec<char>) -> (r: Vec<char>)
    ensures
        r@ == insert_before_key(
            t@,
            if api { config_token() } else { api_token() },
            api,
            url@,
        ),
{
    let ss = split_segments(t);
    let key = token_chars(!api);
    match first_key_segment(&ss, &key) {
        None => copy_chars(t),
        Some(k) => {
            let seg = &ss[k];
            proof {
                assert(line_views(ss@)[k as int] == seg@);
            }
            let b = seg_body_len(seg);
            let body_v = slice_chars(seg, 0, b);
            let ind = line_indent(&body_v);
            let nl = seg_newline(seg);
            let mut out: Vec<char> = Vec::new();
            push_segments(&mut out, &ss, 0, k);
            if api {
                push_chars(&mut out, &ind);
                push_str(&mut out, "\"chatgpt.apiBase\": \"");
                push_chars(&mut out, url);
                push_str(&mut out, "\",");
                push_chars(&mut out, &nl);
            } else {
                push_config_head(&mut out, &ind, &nl);
                push_str(&mut out, ",");
                push_chars(&mut out, &nl);
            }
            push_segments(&mut out, &ss, k, ss.len());
            proof {
                assert(out@ =~= insert_before_key(
                    t@,
                    if api { config_token() } else { api_token() },
                    api,
                    url@,
                ));
            }
            out
        },
    }
}

/// The indentation for inserted lines and whether the line before the insertion point
/// needs a comma, for the text `before` that precedes the final brace.
fn tail_layout(before: &Vec<char>) -> (r: (Vec<char>, bool))
    ensures
        r.0@ == tail_indent(lines_of(before@)),
        r.1 == (lines_of(before@).len() > 0 && trim(lines_of(before@).last()).len() > 0
            && !ends_with_comma(lines_of(before@).last()) && trim(lines_of(before@).last())
            != seq!['{']),
{
    let ls = split_lines(before);
    if ls.len() == 0 {
        let ind = chars_of("  ");
        return (ind, false);
    }
    let last = &ls[ls.len() - 1];
    proof {
        assert(line_views(ls@).last() == last@);
    }
    let ind = line_indent(last);
    let comma = line_ends_with_comma(last);
    let tr = trim_line(last);
    let lone_open = tr.len() == 1 && tr[0] == '{';
    proof {
        if lone_open {
            assert(tr@ =~= seq!['{']);
        } else if tr@.len() == 1 {
            assert(tr@[0] != seq!['{'][0]);
        }
    }
    (ind, tr.len() > 0 && !comma && !lone_open)
}

fn both_block_chars(ind: &Vec<char>, url: &Vec<char>) -> (r: Vec<char>)
    ensures
        r@ == both_block(ind@, url@),
{
    let mut out: Vec<char> = Vec::new();
    push_str(&mut out, "\n");
    push_chars(&mut out, ind);
    push_str(&mut out, "\"chatgpt.apiBase\": \"");
    push_chars(&mut out, url);
    push_str(&mut out, "\",\n");
    push_chars(&mut out, ind);
    push_str(&mut out, "\"chatgpt.config\": {\n");
    push_chars(&mut out, ind);
    push_str(&mut out, "  \"preferred_auth_method\": \"apikey\"\n");
    push_chars(&mut out, ind);
    push_str(&mut out, "}\n");
    proof {
        assert(out@ =~= both_block(ind@, url@));
    }
    out
}

fn insert_before_last_brace(t: &Vec<char>, url: &Vec<char>) -> (r: Vec<char>)
    ensures
        r@ == insert_both(t@, url@),
{
    proof {
        lemma_rfind_char(t@, '}');
        assert(t@.subrange(0, t@.len() as int) =~= t@);
    }
    match rfind_in(t, t.len(), '}') {
        None => copy_chars(t),
        Some(p) => {
            let mut out = slice_chars(t, 0, p);
            let (ind, needs) = tail_layout(&out);
            if needs {
                out.push(',');
            }
            let block = both_block_chars(&ind, url);
            push_chars(&mut out, &block);
            let rest = slice_chars(t, p, t.len());
            push_chars(&mut out, &rest);
            proof {
                reveal_strlit(",");
                assert(out@ =~= insert_both(t@, url@));
            }
            out
        },
    }
}

/// Sets the two managed keys of an editor settings text by splicing lines, leaving
/// every comment, unrelated member and line break as it stood.
pub fn patch_editor_settings(orig: &str, base_url: &str) -> (r: String)
    ensures
        r@ == patch_settings(orig@, base_url@),
{
    let t0 = chars_of(orig);
    let url = chars_of(base_url);
    let has_api = has_key(&t0, true);
    let has_cfg = has_key(&t0, false);
    let t1 = rewrite_api_segments(&split_segments(&t0), &url);
    let t2 = rewrite_config_segments(&split_segments(&t1));
    let t3 = if !has_api && !has_cfg {
        insert_before_last_brace(&t2, &url)
    } else if has_api && !has_cfg {
        insert_member_before(&t2, false, &url)
    } else if !has_api && has_cfg {
        insert_member_before(&t2, true, &url)
    } else {
        t2
    };
    string_of(&t3)
}


/// The editor settings text to start from: the existing file, or an empty object.
pub open spec fn editor_text(existing: Option<String>) -> Seq<char> {
    match existing {
        Some(s) => s@,
        None => "{\n}"@,
    }
}

/// Points the editor's extension at `base_url`. The existing settings text (`None`
/// where there is no file) must be JSON once comments and trailing commas are removed;
/// the text itself is then patched in place.
pub fn configure_vscode_codex(existing: Option<String>, base_url: String) -> (r: Result<
    String,
    ConfigError,
>)
    ensures
        match json_parse(normalized(editor_text(existing))) {
            None => r == Err::<String, ConfigError>(
                ConfigError::Malformed(DocumentKind::EditorSettings),
            ),
            Some(_) => r matches Ok(t) && t@ == patch_settings(editor_text(existing), base_url@),
        },
{
    let orig = match existing {
        Some(s) => s,
        None => String::from_str("{\n}"),
    };
    let cleaned = normalize_json_text(orig.as_str());
    if parse_json(cleaned.as_str()).is_none() {
        return Err(ConfigError::Malformed(DocumentKind::EditorSettings));
    }
    Ok(patch_editor_settings(orig.as_str(), base_url.as_str()))
}

/// The editor distributions whose user settings are looked for, in order of preference.
pub open spec fn product_dirs() -> Seq<Seq<char>> {
    seq!["Code"@, "Code - Insiders"@, "VSCodium"@, "Code - OSS"@]
}

/// Names the editor distributions' configuration directories, in order of preference.
pub fn vscode_product_dirs() -> (r: Vec<&'static str>)
    ensures
        r@.map_values(|d: &str| d@) == product_dirs(),
{
    let r = vec!["Code", "Code - Insiders", "VSCodium", "Code - OSS"];
    proof {
        assert(r@.map_values(|d: &str| d@) =~= product_dirs());
    }
    r
}

/// `part` appended to `base` as `PathBuf::push` does with a relative part: a
/// separator goes between them unless `base` is empty or already ends with one.
pub open spec fn path_join(base: Seq<char>, part: Seq<char>, sep: char) -> Seq<char> {
    if base.len() == 0 || base.last() == sep {
        base + part
    } else {
        base + seq![sep] + part
    }
}

/// The user settings file of one distribution under the configuration directory.
pub open spec fn settings_path(dir: Seq<char>, product: Seq<char>, sep: char) -> Seq<char> {
    path_join(path_join(path_join(dir, product, sep), "User"@, sep), "settings.json"@, sep)
}

/// The candidate settings files under `dir`, one per distribution, or none without a
/// configuration directory.
pub open spec fn candidate_paths(dir: Option<Seq<char>>, sep: char) -> Seq<Seq<char>> {
    match dir {
        Some(d) => product_dirs().map_values(|p: Seq<char>| settings_path(d, p, sep)),
        None => Seq::empty(),
    }
}

/// Relies on `dirs::config_dir`: the user's configuration directory, where the platform
/// has one, as text.
#[verifier::external_body]
fn user_config_dir() -> (r: Option<String>) {
    dirs::config_dir().map(|p| p.to_string_lossy().into_owned())
}

/// Relies on `std::path::MAIN_SEPARATOR`: the platform's path separator.
#[verifier::external_body]
fn path_separator() -> (r: char) {
    std::path::MAIN_SEPARATOR
}

fn join_path(base: &str, part: &str, sep: char) -> (r: String)
    ensures
        r@ == path_join(base@, part@, sep),
{
    let b = chars_of(base);
    let mut out = copy_chars(&b);
    if b.len() > 0 && b[b.len() - 1] != sep {
        out.push(sep);
    }
    push_str(&mut out, part);
    proof {
        assert(out@ =~= path_join(base@, part@, sep));
    }
    string_of(&out)
}

/// The candidate settings files under a given configuration directory, in order of
/// preference.
pub fn settings_paths_under(dir: Option<String>, sep: char) -> (r: Vec<String>)
    ensures
        views_of(r@) == candidate_paths(opt_view(dir), sep),
{
    let mut out: Vec<String> = Vec::new();
    match dir {
        None => {
            proof {
                assert(views_of(out@) =~= Seq::<Seq<char>>::empty());
            }
        },
        Some(d) => {
            let prods = vscode_product_dirs();
            let mut i: usize = 0;
            while i < prods.len()
                invariant
                    i <= prods@.len(),
                    prods@.map_values(|x: &str| x@) == product_dirs(),
                    out@.len() == i,
                    forall|k: int|
                        0 <= k < i ==> #[trigger] out@[k]@ == settings_path(d@, prods@[k]@, sep),
                decreases prods@.len() - i,
            {
                let a = join_path(d.as_str(), prods[i], sep);
                let b = join_path(a.as_str(), "User", sep);
                let c = join_path(b.as_str(), "settings.json", sep);
                out.push(c);
                i = i + 1;
            }
            proof {
                assert forall|k: int| 0 <= k < prods@.len() implies prods@[k]@ == product_dirs()[k] by {
                    assert(prods@.map_values(|x: &str| x@)[k] == prods@[k]@);
                }
                assert(views_of(out@) =~= candidate_paths(Some(d@), sep));
            }
        },
    }
    out
}

/// The view of an optional string.
pub open spec fn opt_view(o: Option<String>) -> Option<Seq<char>> {
    match o {
        Some(s) => Some(s@),
        None => None,
    }
}

/// The views of a list of strings.
pub open spec fn views_of(v: Seq<String>) -> Seq<Seq<char>> {
    v.map_values(|x: String| x@)
}

/// The candidate user settings files of the editor on this machine, in order of
/// preference; none where the platform has no configuration directory.
pub fn candidate_settings_paths() -> (r: Vec<String>)
    ensures
        exists|dir: Option<Seq<char>>, sep: char| views_of(r@) == candidate_paths(dir, sep),
{
    let dir = user_config_dir();
    let ghost g = opt_view(dir);
    let sep = path_separator();
    let r = settings_paths_under(dir, sep);
    proof {
        assert(views_of(r@) == candidate_paths(g, sep));
    }
    r
}

/// The candidate user settings files, as text, for display.
pub fn get_vscode_paths_info() -> (r: Vec<String>)
    ensures
        exists|dir: Option<Seq<char>>, sep: char| views_of(r@) == candidate_paths(dir, sep),
{
    candidate_settings_paths()
}

/// The existing members of the extension's `config.json` with `primaryApiKey` set to
/// the string `key` (in place where it exists, else appended).
pub open spec fn is_primary_key_doc(
    doc: ConfigValue,
    existing: Seq<(String, ConfigValue)>,
    key: Seq<char>,
) -> bool {
    match doc {
        ConfigValue::Table(m) => exists|k: String, v: String|
            k@ == "primaryApiKey"@ && v@ == key && m@ == upsert(existing, k, ConfigValue::Str(v)),
        _ => false,
    }
}

/// Sets the API key in the extension's own `config.json` (`None` where there is no
/// file), keeping its other members; refused until the assistant's settings exist.
pub fn configure_vscode_claude(
    assistant_configured: bool,
    existing: Option<String>,
    api_key: String,
) -> (r: Result<String, ConfigError>)
    ensures
        !assistant_configured ==> r == Err::<String, ConfigError>(
            ConfigError::AssistantNotConfigured,
        ),
        assistant_configured ==> (r matches Ok(t) && exists|doc: ConfigValue|
            t@ == json_pretty(doc) && is_primary_key_doc(doc, existing_json(existing), api_key@)),
{
    if !assistant_configured {
        return Err(ConfigError::AssistantNotConfigured);
    }
    let mut entries = read_json_entries(&existing);
    let ghost e0 = entries@;
    let k = String::from_str("primaryApiKey");
    let ghost kg = k;
    let ghost vg = api_key;
    upsert_entry(&mut entries, k, ConfigValue::Str(api_key));
    let doc = ConfigValue::Table(entries);
    let t = to_json_pretty(&doc);
    proof {
        assert(doc matches ConfigValue::Table(m) && m@ == upsert(e0, kg, ConfigValue::Str(vg)));
        assert(is_primary_key_doc(doc, e0, vg@));
    }
    Ok(t)
}

/// The first candidate that is present, if any.
pub open spec fn first_present(present: Seq<bool>, i: int) -> int
    decreases present.len() - i,
{
    if i < 0 || i >= present.len() {
        -1
    } else if present[i] {
        i
    } else {
        first_present(present, i + 1)
    }
}

/// Picks the settings file to edit among the candidates, given which of them exist:
/// the first existing one (`true`: it exists and gets a backup first), else the first
/// candidate (`false`: it is created); refused where there is no candidate.
pub fn find_existing_settings(present: &Vec<bool>) -> (r: Result<(usize, bool), ConfigError>)
    ensures
        present@.len() == 0 ==> r == Err::<(usize, bool), ConfigError>(
            ConfigError::NoSettingsLocation,
        ),
        present@.len() > 0 && first_present(present@, 0) >= 0 ==> r == Ok::<
            (usize, bool),
            ConfigError,
        >((first_present(present@, 0) as usize, true)),
        present@.len() > 0 && first_present(present@, 0) < 0 ==> r == Ok::<
            (usize, bool),
            ConfigError,
        >((0, false)),
{
    if present.len() == 0 {
        return Err(ConfigError::NoSettingsLocation);
    }
    let mut i: usize = 0;
    while i < present.len()
        invariant
            i <= present@.len(),
            first_present(present@, 0) == first_present(present@, i as int),
        decreases present@.len() - i,
    {
        if present[i] {
            return Ok((i, true));
        }
        i = i + 1;
    }
    Ok((0, false))
}

proof fn lemma_concat_one(x: Seq<char>)
    ensures
        concat(seq![x]) == x,
{
    assert(seq![x].drop_last() =~= Seq::<Seq<char>>::empty());
    assert(concat(Seq::<Seq<char>>::empty()) == Seq::<char>::empty());
    assert(concat(seq![x]) == concat(seq![x].drop_last()) + seq![x].last());
    assert(Seq::<char>::empty() + x =~= x);
}

proof fn lemma_concat_prepend(x: Seq<char>, ss: Seq<Seq<char>>)
    ensures
        concat(seq![x] + ss) == x + concat(ss),
    decreases ss.len(),
{
    if ss.len() == 0 {
        assert(seq![x] + ss =~= seq![x]);
        lemma_concat_one(x);
        assert(concat(ss) == Seq::<char>::empty());
        assert(x + concat(ss) =~= x);
    } else {
        lemma_concat_prepend(x, ss.drop_last());
        let t = seq![x] + ss;
        assert(t.drop_last() =~= seq![x] + ss.drop_last());
        assert(t.last() == ss.last());
        assert(concat(t) == concat(t.drop_last()) + t.last());
        assert(concat(ss) == concat(ss.drop_last()) + ss.last());
        assert(x + concat(ss) =~= x + concat(ss.drop_last()) + ss.last());
    }
}

/// A text is its lines put back together, line breaks included.
pub proof fn lemma_segments_concat(s: Seq<char>, i: int, cur: Seq<char>)
    requires
        0 <= i <= s.len(),
    ensures
        concat(segs_from(s, i, cur)) == cur + s.subrange(i, s.len() as int),
    decreases s.len() - i,
{
    if i == s.len() {
        if cur.len() > 0 {
            lemma_concat_one(cur);
        } else {
            assert(cur =~= Seq::<char>::empty());
            assert(concat(Seq::<Seq<char>>::empty()) == Seq::<char>::empty());
        }
        assert(cur + s.subrange(i, s.len() as int) =~= cur);
    } else if s[i] == '\n' {
        lemma_segments_concat(s, i + 1, Seq::empty());
        lemma_concat_prepend(cur.push('\n'), segs_from(s, i + 1, Seq::empty()));
        assert(segs_from(s, i, cur) == seq![cur.push('\n')] + segs_from(s, i + 1, Seq::empty()));
        assert(cur.push('\n') + (Seq::<char>::empty() + s.subrange(i + 1, s.len() as int))
            =~= cur + s.subrange(i, s.len() as int));
    } else {
        lemma_segments_concat(s, i + 1, cur.push(s[i]));
        assert(segs_from(s, i, cur) == segs_from(s, i + 1, cur.push(s[i])));
        assert(cur.push(s[i]) + s.subrange(i + 1, s.len() as int) =~= cur + s.subrange(
            i,
            s.len() as int,
        ));
    }
}

proof fn lemma_no_key_seg(ss: Seq<Seq<char>>, key: Seq<char>, i: int)
    requires
        0 <= i,
        first_key_seg(ss, key, i) < 0,
    ensures
        forall|j: int| i <= j < ss.len() ==> !is_key_line(body(ss[j]), key),
    decreases ss.len() - i,
{
    if i < ss.len() {
        lemma_no_key_seg(ss, key, i + 1);
    }
}

/// Without a configuration key line, the configuration pass keeps every line.
proof fn lemma_config_pass_keeps(ss: Seq<Seq<char>>, i: int)
    requires
        0 <= i <= ss.len(),
        forall|j: int| i <= j < ss.len() ==> !is_key_line(body(ss[j]), config_token()),
    ensures
        config_pass(ss, i, false, 0) == concat(ss.subrange(i, ss.len() as int)),
    decreases ss.len() - i,
{
    if i == ss.len() {
        assert(ss.subrange(i, i) =~= Seq::<Seq<char>>::empty());
    } else {
        lemma_config_pass_keeps(ss, i + 1);
        lemma_concat_prepend(ss[i], ss.subrange(i + 1, ss.len() as int));
        assert(seq![ss[i]] + ss.subrange(i + 1, ss.len() as int) =~= ss.subrange(
            i,
            ss.len() as int,
        ));
    }
}

/// Where no line holds either managed key, patching leaves the original text whole,
/// line breaks included: it only inserts one block, at a single position.
pub proof fn patch_only_inserts(orig: Seq<char>, url: Seq<char>)
    requires
        !has_key_line(orig, api_token()),
        !has_key_line(orig, config_token()),
    ensures
        exists|p: int, ins: Seq<char>|
            0 <= p <= orig.len() && patch_settings(orig, url) == orig.subrange(0, p) + ins
                + orig.subrange(p, orig.len() as int),
{
    let ss = segments(orig);
    lemma_segments_concat(orig, 0, Seq::empty());
    assert(Seq::<char>::empty() + orig.subrange(0, orig.len() as int) =~= orig);
    lemma_no_key_seg(ss, api_token(), 0);
    lemma_no_key_seg(ss, config_token(), 0);
    assert(ss.map_values(|x: Seq<char>| api_seg(x, url)) =~= ss);
    lemma_config_pass_keeps(ss, 0);
    assert(ss.subrange(0, ss.len() as int) =~= ss);
    let t2 = config_pass(segments(concat(ss.map_values(|x: Seq<char>| api_seg(x, url)))), 0, false, 0);
    assert(t2 == orig);
    let p = rfind_char(orig, '}');
    lemma_rfind_char(orig, '}');
    if p < 0 {
        assert(patch_settings(orig, url) == orig.subrange(0, 0) + Seq::<char>::empty()
            + orig.subrange(0, orig.len() as int));
    } else {
        let ls = lines_of(orig.subrange(0, p));
        let needs = ls.len() > 0 && trim(ls.last()).len() > 0 && !ends_with_comma(ls.last())
            && trim(ls.last()) != seq!['{'];
        let ins = comma_if(needs) + both_block(tail_indent(ls), url);
        assert(patch_settings(orig, url) == orig.subrange(0, p) + ins + orig.subrange(
            p,
            orig.len() as int,
        ));
    }
}

} // verus!

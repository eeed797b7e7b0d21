use crate::text::{chars_of, is_whitespace, is_ws, string_of};
use vstd::prelude::*;

verus! {

/// Where a left-to-right scan of JSON-with-comments text stands.
#[derive(Clone, Copy, Debug, PartialEq, Eq, Structural)]
pub enum ScanMode {
    /// Outside any string or comment.
    Code,
    /// Inside a string literal.
    Str,
    /// Inside a string literal, right after a backslash.
    Escape,
    /// Inside a `//` comment.
    LineComment,
    /// Inside a `/* */` comment.
    BlockComment,
}

/// Output of comment removal on `s` from position `i` on, in mode `m`.
///
/// A `//` comment is dropped up to and including its line break, which is kept; a
/// closed `/* */` comment becomes one space; an unclosed one is dropped to the end.
pub open spec fn strip_from(s: Seq<char>, i: int, m: ScanMode) -> Seq<char>
    decreases s.len() - i,
{
    if i < 0 || i >= s.len() {
        Seq::empty()
    } else {
        let c = s[i];
        let next = if i + 1 < s.len() {
            s[i + 1]
        } else {
            ' '
        };
        match m {
            ScanMode::Escape => seq![c] + strip_from(s, i + 1, ScanMode::Str),
            ScanMode::Str => if c == '\\' {
                seq![c] + strip_from(s, i + 1, ScanMode::Escape)
            } else if c == '"' {
                seq![c] + strip_from(s, i + 1, ScanMode::Code)
            } else {
                seq![c] + strip_from(s, i + 1, ScanMode::Str)
            },
            ScanMode::Code => if c == '"' {
                seq![c] + strip_from(s, i + 1, ScanMode::Str)
            } else if c == '/' && i + 1 < s.len() && next == '/' {
                strip_from(s, i + 2, ScanMode::LineComment)
            } else if c == '/' && i + 1 < s.len() && next == '*' {
                strip_from(s, i + 2, ScanMode::BlockComment)
            } else {
                seq![c] + strip_from(s, i + 1, ScanMode::Code)
            },
            ScanMode::LineComment => if c == '\n' {
                seq!['\n'] + strip_from(s, i + 1, ScanMode::Code)
            } else {
                strip_from(s, i + 1, ScanMode::LineComment)
            },
            ScanMode::BlockComment => if c == '*' && i + 1 < s.len() && next == '/' {
                seq![' '] + strip_from(s, i + 2, ScanMode::Code)
            } else {
                strip_from(s, i + 1, ScanMode::BlockComment)
            },
        }
    }
}

/// Removes `//` and `/* */` comments that stand outside string literals.
pub fn strip_json_comments(content: &str) -> (r: String)
    ensures
        r@ == strip_from(content@, 0, ScanMode::Code),
{
    let s = chars_of(content);
    let n = s.len();
    let mut out: Vec<char> = Vec::new();
    let mut i: usize = 0;
    let mut m = ScanMode::Code;
    while i < n
        invariant
            n == s@.len(),
            i <= n,
            out@ + strip_from(s@, i as int, m) == strip_from(s@, 0, ScanMode::Code),
        decreases n - i,
    {
        let c = s[i];
        let has_next = i + 1 < n;
        let next = if has_next {
            s[i + 1]
        } else {
            ' '
        };
        let ghost before = out@;
        let ghost m0 = m;
        let mut step: usize = 1;
        match m {
            ScanMode::Escape => {
                out.push(c);
                m = ScanMode::Str;
            },
            ScanMode::Str => {
                out.push(c);
                if c == '\\' {
                    m = ScanMode::Escape;
                } else if c == '"' {
                    m = ScanMode::Code;
                }
            },
            ScanMode::Code => {
                if c == '"' {
                    out.push(c);
                    m = ScanMode::Str;
                } else if c == '/' && has_next && next == '/' {
                    m = ScanMode::LineComment;
                    step = 2;
                } else if c == '/' && has_next && next == '*' {
                    m = ScanMode::BlockComment;
                    step = 2;
                } else {
                    out.push(c);
                }
            },
            ScanMode::LineComment => {
                if c == '\n' {
                    out.push('\n');
                    m = ScanMode::Code;
                }
            },
            ScanMode::BlockComment => {
                if c == '*' && has_next && next == '/' {
                    out.push(' ');
                    m = ScanMode::Code;
                    step = 2;
                }
            },
        }
        proof {
            let rest = strip_from(s@, i + step, m);
            assert(strip_from(s@, i as int, m0) == (out@.subrange(before.len() as int, out@.len() as int)) + rest);
            assert(out@ =~= before + out@.subrange(before.len() as int, out@.len() as int));
            assert(out@ + rest =~= before + strip_from(s@, i as int, m0));
        }
        i = i + step;
    }
    proof {
        assert(out@ =~= out@ + strip_from(s@, i as int, m));
    }
    string_of(&out)
}

/// Does only whitespace stand between position `j` and a closing `}` or `]`?
pub open spec fn closes_after(s: Seq<char>, j: int) -> bool
    decreases s.len() - j,
{
    if j < 0 || j >= s.len() {
        false
    } else if is_ws(s[j]) {
        closes_after(s, j + 1)
    } else {
        s[j] == '}' || s[j] == ']'
    }
}

/// Output of trailing-comma removal on `s` from position `i` on, in mode `m`.
pub open spec fn untrail_from(s: Seq<char>, i: int, m: ScanMode) -> Seq<char>
    decreases s.len() - i,
{
    if i < 0 || i >= s.len() {
        Seq::empty()
    } else {
        let c = s[i];
        match m {
            ScanMode::Escape => seq![c] + untrail_from(s, i + 1, ScanMode::Str),
            ScanMode::Str => if c == '\\' {
                seq![c] + untrail_from(s, i + 1, ScanMode::Escape)
            } else if c == '"' {
                seq![c] + untrail_from(s, i + 1, ScanMode::Code)
            } else {
                seq![c] + untrail_from(s, i + 1, ScanMode::Str)
            },
            _ => if c == '"' {
                seq![c] + untrail_from(s, i + 1, ScanMode::Str)
            } else if c == ',' && closes_after(s, i + 1) {
                untrail_from(s, i + 1, ScanMode::Code)
            } else {
                seq![c] + untrail_from(s, i + 1, ScanMode::Code)
            },
        }
    }
}

fn closes_after_exec(s: &Vec<char>, j: usize) -> (r: bool)
    ensures
        r == closes_after(s@, j as int),
{
    let n = s.len();
    let mut k = j;
    while k < n
        invariant
            n == s@.len(),
            j <= k,
            closes_after(s@, j as int) == closes_after(s@, k as int),
        decreases n - k,
    {
        if !is_whitespace(s[k]) {
            return s[k] == '}' || s[k] == ']';
        }
        k = k + 1;
    }
    false
}

/// Removes each comma, outside string literals, that only whitespace separates
/// from a closing `}` or `]`.
pub fn fix_json_trailing_commas(content: &str) -> (r: String)
    ensures
        r@ == untrail_from(content@, 0, ScanMode::Code),
{
    let s = chars_of(content);
    let n = s.len();
    let mut out: Vec<char> = Vec::new();
    let mut i: usize = 0;
    let mut m = ScanMode::Code;
    while i < n
        invariant
            n == s@.len(),
            i <= n,
            out@ + untrail_from(s@, i as int, m) == untrail_from(s@, 0, ScanMode::Code),
        decreases n - i,
    {
        let c = s[i];
        let ghost before = out@;
        let ghost m0 = m;
        match m {
            ScanMode::Escape => {
                out.push(c);
                m = ScanMode::Str;
            },
            ScanMode::Str => {
                out.push(c);
                if c == '\\' {
                    m = ScanMode::Escape;
                } else if c == '"' {
                    m = ScanMode::Code;
                }
            },
            _ => {
                m = if c == '"' {
                    ScanMode::Str
                } else {
                    ScanMode::Code
                };
                if !(c == ',' && closes_after_exec(&s, i + 1)) {
                    out.push(c);
                }
            },
        }
        proof {
            let rest = untrail_from(s@, i + 1, m);
            assert(untrail_from(s@, i as int, m0) == (out@.subrange(before.len() as int, out@.len() as int)) + rest);
            assert(out@ =~= before + out@.subrange(before.len() as int, out@.len() as int));
            assert(out@ + rest =~= before + untrail_from(s@, i as int, m0));
        }
        i = i + 1;
    }
    proof {
        assert(out@ =~= out@ + untrail_from(s@, i as int, m));
    }
    string_of(&out)
}

/// The strict-JSON form of a JSON-with-comments text: comments removed first, then
/// trailing commas.
pub open spec fn normalized(s: Seq<char>) -> Seq<char> {
    untrail_from(strip_from(s, 0, ScanMode::Code), 0, ScanMode::Code)
}

/// Turns JSON-with-comments text into text that a strict JSON reader can judge.
pub fn normalize_json_text(content: &str) -> (r: String)
    ensures
        r@ == normalized(content@),
{
    let stripped = strip_json_comments(content);
    fix_json_trailing_commas(stripped.as_str())
}

} // verus!

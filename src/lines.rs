use crate::text::{is_whitespace, is_ws};
use vstd::prelude::*;

verus! {

/// `cur` without one trailing carriage return.
pub open spec fn strip_cr(cur: Seq<char>) -> Seq<char> {
    if cur.len() > 0 && cur.last() == '\r' {
        cur.drop_last()
    } else {
        cur
    }
}

/// The lines of `s` from position `i` on, `cur` being the part of the current line
/// already read: a line ends at `'\n'` (a `'\r'` right before it is dropped) and a last
/// line without a break is kept only when it is not empty, as `str::lines` does.
pub open spec fn lines_from(s: Seq<char>, i: int, cur: Seq<char>) -> Seq<Seq<char>>
    decreases s.len() - i,
{
    if i < 0 || i >= s.len() {
        if cur.len() > 0 {
            seq![cur]
        } else {
            Seq::empty()
        }
    } else if s[i] == '\n' {
        seq![strip_cr(cur)] + lines_from(s, i + 1, Seq::empty())
    } else {
        lines_from(s, i + 1, cur.push(s[i]))
    }
}

pub open spec fn lines_of(s: Seq<char>) -> Seq<Seq<char>> {
    lines_from(s, 0, Seq::empty())
}

/// The views of a list of character vectors.
pub open spec fn line_views(v: Seq<Vec<char>>) -> Seq<Seq<char>> {
    v.map_values(|l: Vec<char>| l@)
}

/// Length of the run of whitespace that starts at `i`, plus `i`.
pub open spec fn ws_end(l: Seq<char>, i: int) -> int
    decreases l.len() - i,
{
    if 0 <= i < l.len() && is_ws(l[i]) {
        ws_end(l, i + 1)
    } else {
        i
    }
}

/// The leading whitespace of a line.
pub open spec fn indent_of(l: Seq<char>) -> Seq<char> {
    l.subrange(0, ws_end(l, 0))
}

/// Length of a line without its trailing whitespace.
pub open spec fn trimmed_len(l: Seq<char>) -> int
    decreases l.len(),
{
    if l.len() > 0 && is_ws(l.last()) {
        trimmed_len(l.drop_last())
    } else {
        l.len() as int
    }
}

/// Does the line, trailing whitespace aside, end with a comma?
pub open spec fn ends_with_comma(l: Seq<char>) -> bool {
    trimmed_len(l) > 0 && l[trimmed_len(l) - 1] == ','
}

/// The line without leading and trailing whitespace.
pub open spec fn trim(l: Seq<char>) -> Seq<char> {
    if ws_end(l, 0) < trimmed_len(l) {
        l.subrange(ws_end(l, 0), trimmed_len(l))
    } else {
        Seq::empty()
    }
}

pub proof fn lemma_ws_end(l: Seq<char>, i: int)
    requires
        0 <= i <= l.len(),
    ensures
        i <= ws_end(l, i) <= l.len(),
        forall|j: int| i <= j < ws_end(l, i) ==> is_ws(l[j]),
        ws_end(l, i) < l.len() ==> !is_ws(l[ws_end(l, i)]),
    decreases l.len() - i,
{
    if i < l.len() && is_ws(l[i]) {
        lemma_ws_end(l, i + 1);
    }
}

pub proof fn lemma_trimmed_len(l: Seq<char>)
    ensures
        0 <= trimmed_len(l) <= l.len(),
        trimmed_len(l) > 0 ==> !is_ws(l[trimmed_len(l) - 1]),
        forall|j: int| trimmed_len(l) <= j < l.len() ==> is_ws(l[j]),
    decreases l.len(),
{
    if l.len() > 0 && is_ws(l.last()) {
        lemma_trimmed_len(l.drop_last());
        assert(forall|j: int| 0 <= j < l.len() - 1 ==> l.drop_last()[j] == l[j]);
    }
}

/// Splits a text into lines.
pub fn split_lines(s: &Vec<char>) -> (r: Vec<Vec<char>>)
    ensures
        line_views(r@) == lines_of(s@),
{
    let n = s.len();
    let mut out: Vec<Vec<char>> = Vec::new();
    let mut cur: Vec<char> = Vec::new();
    let mut i: usize = 0;
    while i < n
        invariant
            n == s@.len(),
            i <= n,
            line_views(out@) + lines_from(s@, i as int, cur@) == lines_of(s@),
        decreases n - i,
    {
        let ghost before = line_views(out@);
        let ghost cur0 = cur@;
        if s[i] == '\n' {
            if cur.len() > 0 && cur[cur.len() - 1] == '\r' {
                cur.pop();
            }
            proof {
                assert(cur@ == strip_cr(cur0));
            }
            out.push(cur);
            cur = Vec::new();
            proof {
                assert(line_views(out@) =~= before.push(strip_cr(cur0)));
                assert(line_views(out@) + lines_from(s@, i + 1, cur@) =~= before + lines_from(
                    s@,
                    i as int,
                    cur0,
                ));
            }
        } else {
            cur.push(s[i]);
        }
        i = i + 1;
    }
    let ghost before = line_views(out@);
    if cur.len() > 0 {
        out.push(cur);
        proof {
            assert(line_views(out@) =~= before + lines_from(s@, i as int, cur@));
        }
    } else {
        proof {
            assert(line_views(out@) =~= before + lines_from(s@, i as int, cur@));
        }
    }
    out
}

/// End of the leading whitespace of a line.
pub fn indent_end(l: &Vec<char>) -> (r: usize)
    ensures
        r as int == ws_end(l@, 0),
{
    let n = l.len();
    let mut i: usize = 0;
    while i < n && is_whitespace(l[i])
        invariant
            n == l@.len(),
            i <= n,
            ws_end(l@, 0) == ws_end(l@, i as int),
        decreases n - i,
    {
        i = i + 1;
    }
    i
}

/// The leading whitespace of a line.
pub fn line_indent(l: &Vec<char>) -> (r: Vec<char>)
    ensures
        r@ == indent_of(l@),
{
    let e = indent_end(l);
    proof {
        lemma_ws_end(l@, 0);
    }
    slice_chars(l, 0, e)
}

/// Length of a line without its trailing whitespace.
pub fn trimmed_length(l: &Vec<char>) -> (r: usize)
    ensures
        r as int == trimmed_len(l@),
{
    let mut k = l.len();
    proof {
        assert(l@.subrange(0, k as int) =~= l@);
    }
    while k > 0 && is_whitespace(l[k - 1])
        invariant
            k <= l@.len(),
            trimmed_len(l@) == trimmed_len(l@.subrange(0, k as int)),
        decreases k,
    {
        proof {
            assert(l@.subrange(0, k as int).drop_last() =~= l@.subrange(0, k - 1));
        }
        k = k - 1;
    }
    proof {
        if k == l@.len() {
            assert(l@.subrange(0, k as int) =~= l@);
        }
    }
    k
}

/// Does the line, trailing whitespace aside, end with a comma?
pub fn line_ends_with_comma(l: &Vec<char>) -> (r: bool)
    ensures
        r == ends_with_comma(l@),
{
    proof {
        lemma_trimmed_len(l@);
    }
    let k = trimmed_length(l);
    k > 0 && l[k - 1] == ','
}

/// The characters of `l` from `a` to `b`.
pub fn slice_chars(l: &Vec<char>, a: usize, b: usize) -> (r: Vec<char>)
    requires
        a <= b <= l@.len(),
    ensures
        r@ == l@.subrange(a as int, b as int),
{
    let mut out: Vec<char> = Vec::new();
    let mut i = a;
    while i < b
        invariant
            a <= i <= b,
            b <= l@.len(),
            out@ == l@.subrange(a as int, i as int),
        decreases b - i,
    {
        out.push(l[i]);
        proof {
            assert(out@ =~= l@.subrange(a as int, i + 1));
        }
        i = i + 1;
    }
    out
}

/// The line without leading and trailing whitespace.
pub fn trim_line(l: &Vec<char>) -> (r: Vec<char>)
    ensures
        r@ == trim(l@),
{
    proof {
        lemma_ws_end(l@, 0);
        lemma_trimmed_len(l@);
    }
    let a = indent_end(l);
    let b = trimmed_length(l);
    if a < b {
        slice_chars(l, a, b)
    } else {
        Vec::new()
    }
}

/// Position of the last `c` in `s`, or -1.
pub open spec fn rfind_char(s: Seq<char>, c: char) -> int
    decreases s.len(),
{
    if s.len() == 0 {
        -1
    } else if s.last() == c {
        s.len() - 1
    } else {
        rfind_char(s.drop_last(), c)
    }
}

pub proof fn lemma_rfind_char(s: Seq<char>, c: char)
    ensures
        -1 <= rfind_char(s, c) < s.len(),
        rfind_char(s, c) >= 0 ==> s[rfind_char(s, c)] == c,
    decreases s.len(),
{
    if s.len() > 0 && s.last() != c {
        lemma_rfind_char(s.drop_last(), c);
    }
}

/// Position of the last `c` among the first `end` characters of `s`.
pub fn rfind_in(s: &Vec<char>, end: usize, c: char) -> (r: Option<usize>)
    requires
        end <= s@.len(),
    ensures
        match r {
            Some(p) => p as int == rfind_char(s@.subrange(0, end as int), c),
            None => rfind_char(s@.subrange(0, end as int), c) == -1,
        },
{
    let mut k = end;
    while k > 0
        invariant
            k <= end <= s@.len(),
            rfind_char(s@.subrange(0, end as int), c) == rfind_char(s@.subrange(0, k as int), c),
        decreases k,
    {
        proof {
            assert(s@.subrange(0, k as int).drop_last() =~= s@.subrange(0, k - 1));
        }
        if s[k - 1] == c {
            return Some(k - 1);
        }
        k = k - 1;
    }
    None
}

/// Does `c` occur in `s`?
pub fn has_char(s: &Vec<char>, c: char) -> (r: bool)
    ensures
        r == (exists|p: int| 0 <= p < s@.len() && s@[p] == c),
{
    let mut i: usize = 0;
    while i < s.len()
        invariant
            i <= s@.len(),
            forall|p: int| 0 <= p < i ==> s@[p] != c,
        decreases s@.len() - i,
    {
        if s[i] == c {
            return true;
        }
        i = i + 1;
    }
    false
}

} // verus!

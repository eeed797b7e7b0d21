use vstd::prelude::*;

verus! {

/// Unicode `White_Space`, the set that `char::is_whitespace` tests.
pub open spec fn is_ws(c: char) -> bool {
    ('\t' <= c && c <= '\r') || c == ' ' || c == '\u{85}' || c == '\u{a0}' || c == '\u{1680}'
        || ('\u{2000}' <= c && c <= '\u{200a}') || c == '\u{2028}' || c == '\u{2029}' || c
        == '\u{202f}' || c == '\u{205f}' || c == '\u{3000}'
}

pub fn is_whitespace(c: char) -> (r: bool)
    ensures
        r == is_ws(c),
{
    ('\t' <= c && c <= '\r') || c == ' ' || c == '\u{85}' || c == '\u{a0}' || c == '\u{1680}'
        || ('\u{2000}' <= c && c <= '\u{200a}') || c == '\u{2028}' || c == '\u{2029}' || c
        == '\u{202f}' || c == '\u{205f}' || c == '\u{3000}'
}

/// Relies on `str::chars`: the characters of `s`, in order.
#[verifier::external_body]
pub fn chars_of(s: &str) -> (r: Vec<char>)
    ensures
        r@ == s@,
{
    s.chars().collect()
}

/// Relies on `String`'s `FromIterator<&char>`: the string made of `v`'s characters.
#[verifier::external_body]
pub fn string_of(v: &Vec<char>) -> (r: String)
    ensures
        r@ == v@,
{
    v.iter().collect()
}

/// Appends the characters of `s` to `out`.
pub fn push_chars(out: &mut Vec<char>, s: &Vec<char>)
    ensures
        final(out)@ == old(out)@ + s@,
{
    let mut i: usize = 0;
    while i < s.len()
        invariant
            i <= s@.len(),
            out@ == old(out)@ + s@.subrange(0, i as int),
        decreases s@.len() - i,
    {
        out.push(s[i]);
        proof {
            assert(out@ =~= old(out)@ + s@.subrange(0, i as int + 1));
        }
        i = i + 1;
    }
    proof {
        assert(s@.subrange(0, s@.len() as int) =~= s@);
    }
}

/// Appends the characters of `s` to `out`.
pub fn push_str(out: &mut Vec<char>, s: &str)
    ensures
        final(out)@ == old(out)@ + s@,
{
    let cs = chars_of(s);
    push_chars(out, &cs);
}

/// The body of a JSON string literal: backslash and quote are escaped.
pub open spec fn escape_json(s: Seq<char>) -> Seq<char>
    decreases s.len(),
{
    if s.len() == 0 {
        s
    } else {
        let c = s.last();
        let tail = if c == '\\' {
            seq!['\\', '\\']
        } else if c == '"' {
            seq!['\\', '"']
        } else {
            seq![c]
        };
        escape_json(s.drop_last()) + tail
    }
}

/// `s` with every line break followed by two more spaces of indentation.
pub open spec fn nest(s: Seq<char>) -> Seq<char>
    decreases s.len(),
{
    if s.len() == 0 {
        s
    } else {
        let c = s.last();
        let tail = if c == '\n' {
            seq!['\n', ' ', ' ']
        } else {
            seq![c]
        };
        nest(s.drop_last()) + tail
    }
}

/// Escapes backslash and quote characters for a JSON string body.
pub fn escape_json_str(s: &str) -> (r: String)
    ensures
        r@ == escape_json(s@),
{
    let cs = chars_of(s);
    let mut out: Vec<char> = Vec::new();
    let mut i: usize = 0;
    while i < cs.len()
        invariant
            i <= cs@.len(),
            out@ == escape_json(cs@.subrange(0, i as int)),
        decreases cs@.len() - i,
    {
        let c = cs[i];
        if c == '\\' {
            out.push('\\');
            out.push('\\');
        } else if c == '"' {
            out.push('\\');
            out.push('"');
        } else {
            out.push(c);
        }
        proof {
            let p = cs@.subrange(0, i as int + 1);
            assert(p.drop_last() =~= cs@.subrange(0, i as int));
            assert(out@ =~= escape_json(p));
        }
        i = i + 1;
    }
    proof {
        assert(cs@.subrange(0, cs@.len() as int) =~= cs@);
    }
    string_of(&out)
}

/// Indents every continuation line of `s` by two spaces.
pub fn nest_str(s: &str) -> (r: String)
    ensures
        r@ == nest(s@),
{
    let cs = chars_of(s);
    let mut out: Vec<char> = Vec::new();
    let mut i: usize = 0;
    while i < cs.len()
        invariant
            i <= cs@.len(),
            out@ == nest(cs@.subrange(0, i as int)),
        decreases cs@.len() - i,
    {
        let c = cs[i];
        out.push(c);
        if c == '\n' {
            out.push(' ');
            out.push(' ');
        }
        proof {
            let p = cs@.subrange(0, i as int + 1);
            assert(p.drop_last() =~= cs@.subrange(0, i as int));
            assert(out@ =~= nest(p));
        }
        i = i + 1;
    }
    proof {
        assert(cs@.subrange(0, cs@.len() as int) =~= cs@);
    }
    string_of(&out)
}

/// The character of a decimal digit.
pub open spec fn digit_char(d: nat) -> char {
    if d == 0 {
        '0'
    } else if d == 1 {
        '1'
    } else if d == 2 {
        '2'
    } else if d == 3 {
        '3'
    } else if d == 4 {
        '4'
    } else if d == 5 {
        '5'
    } else if d == 6 {
        '6'
    } else if d == 7 {
        '7'
    } else if d == 8 {
        '8'
    } else {
        '9'
    }
}

fn digit(d: u64) -> (c: char)
    requires
        d < 10,
    ensures
        c == digit_char(d as nat),
{
    match d {
        0 => '0',
        1 => '1',
        2 => '2',
        3 => '3',
        4 => '4',
        5 => '5',
        6 => '6',
        7 => '7',
        8 => '8',
        _ => '9',
    }
}

/// Decimal digits of a natural number.
pub open spec fn nat_digits(n: nat) -> Seq<char>
    decreases n,
{
    let d = digit_char(n % 10);
    if n < 10 {
        seq![d]
    } else {
        nat_digits(n / 10).push(d)
    }
}

/// Decimal text of an integer, with a leading minus sign when negative.
pub open spec fn int_text(i: int) -> Seq<char> {
    if i < 0 {
        seq!['-'] + nat_digits((-i) as nat)
    } else {
        nat_digits(i as nat)
    }
}

fn digits_of(n: u64) -> (r: Vec<char>)
    ensures
        r@ == nat_digits(n as nat),
    decreases n,
{
    let d = digit(n % 10);
    if n < 10 {
        let mut v: Vec<char> = Vec::new();
        v.push(d);
        v
    } else {
        let mut v = digits_of(n / 10);
        v.push(d);
        v
    }
}

/// Renders an integer in decimal.
pub fn int_to_text(i: i64) -> (r: String)
    ensures
        r@ == int_text(i as int),
{
    if i < 0 {
        let m: u64 = if i == i64::MIN {
            9223372036854775808u64
        } else {
            (-i) as u64
        };
        let mut v: Vec<char> = Vec::new();
        v.push('-');
        let ds = digits_of(m);
        push_chars(&mut v, &ds);
        proof {
            assert(v@ =~= seq!['-'] + nat_digits((-i) as nat));
        }
        string_of(&v)
    } else {
        let ds = digits_of(i as u64);
        string_of(&ds)
    }
}

/// Does `needle` occur in `hay` at position `p`?
pub open spec fn occurs_at(hay: Seq<char>, needle: Seq<char>, p: int) -> bool {
    0 <= p && p + needle.len() <= hay.len() && hay.subrange(p, p + needle.len()) == needle
}

pub open spec fn contains_seq(hay: Seq<char>, needle: Seq<char>) -> bool {
    exists|p: int| occurs_at(hay, needle, p)
}

pub open spec fn contains_char(s: Seq<char>, c: char) -> bool {
    exists|p: int| 0 <= p < s.len() && s[p] == c
}

/// The first position at or after `from` where `needle` occurs, or -1.
pub open spec fn find_from(hay: Seq<char>, needle: Seq<char>, from: int) -> int
    decreases hay.len() + 1 - from,
{
    if from < 0 || from + needle.len() > hay.len() {
        -1
    } else if occurs_at(hay, needle, from) {
        from
    } else {
        find_from(hay, needle, from + 1)
    }
}

pub proof fn lemma_find_from(hay: Seq<char>, needle: Seq<char>, from: int)
    requires
        0 <= from,
    ensures
        find_from(hay, needle, from) == -1 ==> forall|p: int|
            from <= p ==> !occurs_at(hay, needle, p),
        find_from(hay, needle, from) != -1 ==> from <= find_from(hay, needle, from) && occurs_at(
            hay,
            needle,
            find_from(hay, needle, from),
        ),
    decreases hay.len() + 1 - from,
{
    if from + needle.len() <= hay.len() && !occurs_at(hay, needle, from) {
        lemma_find_from(hay, needle, from + 1);
    }
}

/// Does `needle` occur in `hay` at position `p`?
pub fn matches_at(hay: &Vec<char>, needle: &Vec<char>, p: usize) -> (r: bool)
    requires
        p + needle@.len() <= hay@.len(),
    ensures
        r == occurs_at(hay@, needle@, p as int),
{
    let n = hay.len();
    let mut j: usize = 0;
    while j < needle.len()
        invariant
            n == hay@.len(),
            j <= needle@.len(),
            p + needle@.len() <= hay@.len(),
            hay@.subrange(p as int, p + j) == needle@.subrange(0, j as int),
        decreases needle@.len() - j,
    {
        if hay[p + j] != needle[j] {
            proof {
                assert(hay@.subrange(p as int, p + needle@.len())[j as int] != needle@[j as int]);
            }
            return false;
        }
        proof {
            assert(hay@.subrange(p as int, p + j + 1) =~= hay@.subrange(p as int, p + j).push(
                hay@[p + j],
            ));
            assert(needle@.subrange(0, j + 1) =~= needle@.subrange(0, j as int).push(
                needle@[j as int],
            ));
        }
        j = j + 1;
    }
    proof {
        assert(needle@.subrange(0, needle@.len() as int) =~= needle@);
    }
    true
}

/// Position of the first occurrence of `needle` in `hay`, if any.
pub fn find_seq(hay: &Vec<char>, needle: &Vec<char>) -> (r: Option<usize>)
    ensures
        match r {
            Some(p) => p as int == find_from(hay@, needle@, 0),
            None => find_from(hay@, needle@, 0) == -1,
        },
        r is Some <==> contains_seq(hay@, needle@),
{
    proof {
        lemma_find_from(hay@, needle@, 0);
    }
    if needle.len() > hay.len() {
        return None;
    }
    let last = hay.len() - needle.len();
    let mut p: usize = 0;
    while p <= last
        invariant
            last == hay@.len() - needle@.len(),
            find_from(hay@, needle@, 0) == find_from(hay@, needle@, p as int),
        decreases last + 1 - p,
    {
        if matches_at(hay, needle, p) {
            return Some(p);
        }
        if p == last {
            proof {
                assert(find_from(hay@, needle@, p as int + 1) == -1);
                assert(find_from(hay@, needle@, p as int) == -1);
                lemma_find_from(hay@, needle@, 0);
                assert(!contains_seq(hay@, needle@));
            }
            return None;
        }
        p = p + 1;
    }
    None
}

} // verus!

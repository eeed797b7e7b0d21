use crate::value::{ConfigValue, Entries};
use vstd::prelude::*;

verus! {

/// Are all the values strings?
pub open spec fn all_strings(items: Seq<ConfigValue>) -> bool {
    forall|i: int| 0 <= i < items.len() ==> (items[i] is Str)
}

/// The text of a string value (empty for any other value).
pub open spec fn str_view(v: ConfigValue) -> Seq<char> {
    match v {
        ConfigValue::Str(s) => s@,
        _ => Seq::empty(),
    }
}

/// Is every member's value a string?
pub open spec fn all_string_members(t: Seq<(String, ConfigValue)>) -> bool {
    forall|i: int| 0 <= i < t.len() ==> (t[i].1 is Str)
}

/// The views of a list of strings.
pub open spec fn string_views(v: Seq<String>) -> Seq<Seq<char>> {
    v.map_values(|s: String| s@)
}

/// The views of a list of string pairs.
pub open spec fn pair_views(v: Seq<(String, String)>) -> Seq<(Seq<char>, Seq<char>)> {
    v.map_values(|p: (String, String)| (p.0@, p.1@))
}

/// `s` is the string that `v` holds.
pub open spec fn holds_string(v: ConfigValue, s: String) -> bool {
    (v is Str) && s@ == str_view(v)
}

/// Takes the strings out of a list of values that holds only strings.
pub fn into_strings(items: Vec<ConfigValue>) -> (r: Option<Vec<String>>)
    ensures
        (r is Some) == all_strings(items@),
        r matches Some(v) ==> string_views(v@) == items@.map_values(|x: ConfigValue| str_view(x)),
{
    let total = items.len();
    let ghost orig = items@;
    let mut rest = items;
    let mut out: Vec<String> = Vec::new();
    let mut i: usize = 0;
    let mut failed = false;
    while !failed && rest.len() > 0
        invariant
            total == orig.len(),
            i <= orig.len(),
            !failed ==> rest@ == orig.subrange(i as int, orig.len() as int),
            out@.len() == i,
            forall|j: int| 0 <= j < i ==> #[trigger] holds_string(orig[j], out@[j]),
            failed ==> !all_strings(orig),
        decreases rest@.len(),
    {
        let e = rest.remove(0);
        proof {
            assert(e == orig[i as int]);
            assert(rest@ =~= orig.subrange(i as int + 1, orig.len() as int));
        }
        let ghost before = out@;
        match e {
            ConfigValue::Str(s) => {
                out.push(s);
                proof {
                    assert forall|j: int| 0 <= j < i + 1 implies #[trigger] holds_string(
                        orig[j],
                        out@[j],
                    ) by {
                        if j < i {
                            assert(out@[j] == before[j]);
                            assert(holds_string(orig[j], before[j]));
                        }
                    }
                }
                i = i + 1;
            },
            _ => {
                proof {
                    assert(!(orig[i as int] is Str));
                }
                failed = true;
            },
        }
    }
    if failed {
        return None;
    }
    proof {
        assert forall|j: int| 0 <= j < orig.len() implies (orig[j] is Str) by {
            assert(holds_string(orig[j], out@[j]));
        }
        assert forall|j: int| 0 <= j < orig.len() implies string_views(out@)[j] == orig.map_values(
            |x: ConfigValue| str_view(x),
        )[j] by {
            assert(holds_string(orig[j], out@[j]));
        }
        assert(string_views(out@) =~= orig.map_values(|x: ConfigValue| str_view(x)));
    }
    Some(out)
}

/// `p` is the key and string that `e` holds.
pub open spec fn holds_pair(e: (String, ConfigValue), p: (String, String)) -> bool {
    (e.1 is Str) && p.0@ == e.0@ && p.1@ == str_view(e.1)
}

/// Takes the string members out of a table whose values are all strings.
pub fn into_string_pairs(t: Entries) -> (r: Option<Vec<(String, String)>>)
    ensures
        (r is Some) == all_string_members(t@),
        r matches Some(v) ==> pair_views(v@) == t@.map_values(
            |e: (String, ConfigValue)| (e.0@, str_view(e.1)),
        ),
{
    let total = t.len();
    let ghost orig = t@;
    let mut rest = t;
    let mut out: Vec<(String, String)> = Vec::new();
    let mut i: usize = 0;
    let mut failed = false;
    while !failed && rest.len() > 0
        invariant
            total == orig.len(),
            i <= orig.len(),
            !failed ==> rest@ == orig.subrange(i as int, orig.len() as int),
            out@.len() == i,
            forall|j: int| 0 <= j < i ==> #[trigger] holds_pair(orig[j], out@[j]),
            failed ==> !all_string_members(orig),
        decreases rest@.len(),
    {
        let e = rest.remove(0);
        proof {
            assert(e == orig[i as int]);
            assert(rest@ =~= orig.subrange(i as int + 1, orig.len() as int));
        }
        let ghost before = out@;
        let (k, v) = e;
        match v {
            ConfigValue::Str(s) => {
                out.push((k, s));
                proof {
                    assert forall|j: int| 0 <= j < i + 1 implies #[trigger] holds_pair(
                        orig[j],
                        out@[j],
                    ) by {
                        if j < i {
                            assert(out@[j] == before[j]);
                            assert(holds_pair(orig[j], before[j]));
                        }
                    }
                }
                i = i + 1;
            },
            _ => {
                proof {
                    assert(!(orig[i as int].1 is Str));
                }
                failed = true;
            },
        }
    }
    if failed {
        return None;
    }
    proof {
        assert forall|j: int| 0 <= j < orig.len() implies (orig[j].1 is Str) by {
            assert(holds_pair(orig[j], out@[j]));
        }
        assert forall|j: int| 0 <= j < orig.len() implies pair_views(out@)[j] == orig.map_values(
            |e: (String, ConfigValue)| (e.0@, str_view(e.1)),
        )[j] by {
            assert(holds_pair(orig[j], out@[j]));
        }
        assert(pair_views(out@) =~= orig.map_values(
            |e: (String, ConfigValue)| (e.0@, str_view(e.1)),
        ));
    }
    Some(out)
}

} // verus!

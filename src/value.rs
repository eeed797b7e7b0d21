use vstd::prelude::*;

verus! {

/// A node of the in-memory document tree shared by the JSON and TOML engines.
#[derive(Debug)]
pub enum ConfigValue {
    Null,
    Bool(bool),
    Int(i64),
    /// A number kept as its literal text (every JSON number, a TOML float).
    Number(String),
    Str(String),
    /// A TOML date or time, kept as its literal text.
    Datetime(String),
    Array(Vec<ConfigValue>),
    /// An ordered mapping; the order of the entries is the document's order.
    Table(Vec<(String, ConfigValue)>),
}

/// An ordered association list of (key, value) pairs.
pub type Entries = Vec<(String, ConfigValue)>;

/// Position of the first entry whose key is `k`, or -1 when there is none.
pub open spec fn key_index(t: Seq<(String, ConfigValue)>, k: Seq<char>) -> int
    decreases t.len(),
{
    if t.len() == 0 {
        -1
    } else {
        let i = key_index(t.drop_last(), k);
        if i >= 0 {
            i
        } else if t.last().0@ == k {
            t.len() - 1
        } else {
            -1
        }
    }
}

/// The value stored under `k` (the first one), if any.
pub open spec fn lookup(t: Seq<(String, ConfigValue)>, k: Seq<char>) -> Option<ConfigValue>
    decreases t.len(),
{
    if t.len() == 0 {
        None
    } else {
        match lookup(t.drop_last(), k) {
            Some(v) => Some(v),
            None => if t.last().0@ == k {
                Some(t.last().1)
            } else {
                None
            },
        }
    }
}

/// The entries of a table, or none for any other value or for no value.
pub open spec fn table_of(v: Option<ConfigValue>) -> Seq<(String, ConfigValue)> {
    match v {
        Some(ConfigValue::Table(t)) => t@,
        _ => Seq::empty(),
    }
}

/// Every key occurs at most once.
pub open spec fn unique_keys(t: Seq<(String, ConfigValue)>) -> bool {
    forall|i: int, j: int| 0 <= i < j < t.len() ==> t[i].0@ != t[j].0@
}

/// Replaces the value under `k` in place, or appends the pair when `k` is absent.
pub open spec fn upsert(t: Seq<(String, ConfigValue)>, k: String, v: ConfigValue) -> Seq<
    (String, ConfigValue),
> {
    let i = key_index(t, k@);
    if i >= 0 {
        t.update(i, (k, v))
    } else {
        t.push((k, v))
    }
}

/// Key-wise merge: every pair of `incoming`, in order, is upserted into `base`.
pub open spec fn merge_entries(
    base: Seq<(String, ConfigValue)>,
    incoming: Seq<(String, ConfigValue)>,
) -> Seq<(String, ConfigValue)>
    decreases incoming.len(),
{
    if incoming.len() == 0 {
        base
    } else {
        let prev = merge_entries(base, incoming.drop_last());
        upsert(prev, incoming.last().0, incoming.last().1)
    }
}

/// The views of a list of strings.
pub open spec fn views(v: Seq<String>) -> Seq<Seq<char>> {
    v.map_values(|x: String| x@)
}

/// The entries of `t` whose keys are not in `ex`, in their order.
pub open spec fn drop_keys(t: Seq<(String, ConfigValue)>, ex: Seq<Seq<char>>) -> Seq<
    (String, ConfigValue),
>
    decreases t.len(),
{
    if t.len() == 0 {
        t
    } else if ex.contains(t.last().0@) {
        drop_keys(t.drop_last(), ex)
    } else {
        drop_keys(t.drop_last(), ex).push(t.last())
    }
}

/// `base` followed by the pairs of `extra` whose keys it does not hold yet; on a
/// repeated key the earlier pair stays.
pub open spec fn supplement(base: Seq<(String, ConfigValue)>, extra: Seq<(String, ConfigValue)>) -> Seq<
    (String, ConfigValue),
>
    decreases extra.len(),
{
    if extra.len() == 0 {
        base
    } else {
        let prev = supplement(base, extra.drop_last());
        if key_index(prev, extra.last().0@) >= 0 {
            prev
        } else {
            prev.push(extra.last())
        }
    }
}

pub proof fn lemma_key_index_bounds(t: Seq<(String, ConfigValue)>, k: Seq<char>)
    ensures
        -1 <= key_index(t, k) < t.len(),
        key_index(t, k) >= 0 ==> t[key_index(t, k)].0@ == k,
        key_index(t, k) == -1 ==> forall|j: int| 0 <= j < t.len() ==> t[j].0@ != k,
        forall|j: int| 0 <= j < key_index(t, k) ==> t[j].0@ != k,
    decreases t.len(),
{
    if t.len() > 0 {
        lemma_key_index_bounds(t.drop_last(), k);
        assert(forall|j: int| 0 <= j < t.len() - 1 ==> t.drop_last()[j] == t[j]);
    }
}

/// The index of a key is determined by any prefix that already holds it.
pub proof fn lemma_key_index_prefix(t: Seq<(String, ConfigValue)>, n: int, k: Seq<char>)
    requires
        0 <= n <= t.len(),
    ensures
        key_index(t.subrange(0, n), k) >= 0 ==> key_index(t, k) == key_index(t.subrange(0, n), k),
        key_index(t.subrange(0, n), k) == -1 && n < t.len() && t[n].0@ == k ==> key_index(t, k)
            == n,
        key_index(t.subrange(0, n), k) == -1 && n == t.len() ==> key_index(t, k) == -1,
    decreases t.len() - n,
{
    if n == t.len() {
        assert(t.subrange(0, n) =~= t);
    } else {
        lemma_key_index_prefix(t, n + 1, k);
        assert(t.subrange(0, n + 1).drop_last() =~= t.subrange(0, n));
        if key_index(t.subrange(0, n), k) == -1 && t[n].0@ != k {
            lemma_key_index_prefix(t, n + 1, k);
        }
    }
}

pub proof fn lemma_lookup_index(t: Seq<(String, ConfigValue)>, k: Seq<char>)
    ensures
        lookup(t, k) == (if key_index(t, k) >= 0 {
            Some(t[key_index(t, k)].1)
        } else {
            None
        }),
    decreases t.len(),
{
    if t.len() > 0 {
        lemma_lookup_index(t.drop_last(), k);
        lemma_key_index_bounds(t.drop_last(), k);
    }
}

pub proof fn lemma_drop_keys_remove(t: Seq<(String, ConfigValue)>, i: int, ex: Seq<Seq<char>>)
    requires
        0 <= i < t.len(),
        ex.contains(t[i].0@),
    ensures
        drop_keys(t.remove(i), ex) == drop_keys(t, ex),
    decreases t.len(),
{
    if i == t.len() - 1 {
        assert(t.remove(i) =~= t.drop_last());
    } else {
        lemma_drop_keys_remove(t.drop_last(), i, ex);
        assert(t.remove(i).drop_last() =~= t.drop_last().remove(i));
        assert(t.remove(i).last() == t.last());
    }
}

pub proof fn lemma_lookup_remove(t: Seq<(String, ConfigValue)>, i: int, k: Seq<char>)
    requires
        0 <= i < t.len(),
        t[i].0@ != k,
    ensures
        lookup(t.remove(i), k) == lookup(t, k),
    decreases t.len(),
{
    if i == t.len() - 1 {
        assert(t.remove(i) =~= t.drop_last());
    } else {
        lemma_lookup_remove(t.drop_last(), i, k);
        assert(t.remove(i).drop_last() =~= t.drop_last().remove(i));
        assert(t.remove(i).last() == t.last());
    }
}

/// Finds the first entry with key `k`.
pub fn position_of(t: &Entries, k: &String) -> (r: Option<usize>)
    ensures
        match r {
            Some(i) => i as int == key_index(t@, k@),
            None => key_index(t@, k@) == -1,
        },
{
    let mut i: usize = 0;
    while i < t.len()
        invariant
            i <= t@.len(),
            key_index(t@.subrange(0, i as int), k@) == -1,
        decreases t@.len() - i,
    {
        proof {
            lemma_key_index_prefix(t@, i as int, k@);
            lemma_key_index_prefix(t@, i as int + 1, k@);
            assert(t@.subrange(0, i as int + 1).drop_last() =~= t@.subrange(0, i as int));
        }
        if t[i].0 == *k {
            return Some(i);
        }
        i = i + 1;
    }
    proof {
        lemma_key_index_prefix(t@, i as int, k@);
    }
    None
}

/// The entries of a table, or none for any other value or for no value.
pub fn into_table(v: Option<ConfigValue>) -> (r: Entries)
    ensures
        r@ == table_of(v),
{
    match v {
        Some(ConfigValue::Table(t)) => t,
        _ => Vec::new(),
    }
}

/// Is `k` one of `ex`?
pub fn key_listed(ex: &Vec<String>, k: &String) -> (r: bool)
    ensures
        r == views(ex@).contains(k@),
{
    let mut i: usize = 0;
    while i < ex.len()
        invariant
            i <= ex@.len(),
            forall|j: int| 0 <= j < i ==> ex@[j]@ != k@,
        decreases ex@.len() - i,
    {
        if ex[i] == *k {
            proof {
                assert(views(ex@)[i as int] == k@);
            }
            return true;
        }
        i = i + 1;
    }
    proof {
        if views(ex@).contains(k@) {
            let j = choose|j: int| 0 <= j < views(ex@).len() && views(ex@)[j] == k@;
            assert(ex@[j]@ == k@);
        }
    }
    false
}

/// Keeps the entries whose keys are not in `ex`, in their order.
pub fn without_keys(t: Entries, ex: &Vec<String>) -> (r: Entries)
    ensures
        r@ == drop_keys(t@, views(ex@)),
{
    let total = t.len();
    let ghost orig = t@;
    let mut rest = t;
    let mut out: Entries = Vec::new();
    let mut i: usize = 0;
    while rest.len() > 0
        invariant
            total == orig.len(),
            i <= orig.len(),
            rest@ == orig.subrange(i as int, orig.len() as int),
            out@ == drop_keys(orig.subrange(0, i as int), views(ex@)),
        decreases rest@.len(),
    {
        let e = rest.remove(0);
        proof {
            assert(orig.subrange(0, i as int + 1).drop_last() =~= orig.subrange(0, i as int));
            assert(e == orig[i as int]);
        }
        if !key_listed(ex, &e.0) {
            out.push(e);
        }
        proof {
            assert(rest@ =~= orig.subrange(i as int + 1, orig.len() as int));
        }
        i = i + 1;
    }
    proof {
        assert(orig.subrange(0, i as int) =~= orig);
    }
    out
}

/// Moves out the value stored under `k` (the first one), if any.
pub fn take_value(t: &mut Entries, k: &String) -> (r: Option<ConfigValue>)
    ensures
        r == lookup(old(t)@, k@),
        forall|ex: Seq<Seq<char>>|
            ex.contains(k@) ==> #[trigger] drop_keys(final(t)@, ex) == drop_keys(old(t)@, ex),
        forall|k2: Seq<char>| k2 != k@ ==> #[trigger] lookup(final(t)@, k2) == lookup(old(t)@, k2),
{
    proof {
        lemma_lookup_index(t@, k@);
        lemma_key_index_bounds(t@, k@);
    }
    match position_of(t, k) {
        Some(i) => {
            let ghost before = t@;
            let e = t.remove(i);
            proof {
                assert forall|ex: Seq<Seq<char>>| ex.contains(k@) implies #[trigger] drop_keys(
                    t@,
                    ex,
                ) == drop_keys(before, ex) by {
                    lemma_drop_keys_remove(before, i as int, ex);
                }
                assert forall|k2: Seq<char>| k2 != k@ implies #[trigger] lookup(t@, k2) == lookup(
                    before,
                    k2,
                ) by {
                    lemma_lookup_remove(before, i as int, k2);
                }
            }
            Some(e.1)
        },
        None => None,
    }
}

/// Replaces the value under `k` in place, or appends the pair when `k` is absent.
pub fn upsert_entry(t: &mut Entries, k: String, v: ConfigValue)
    ensures
        final(t)@ == upsert(old(t)@, k, v),
{
    proof {
        lemma_key_index_bounds(t@, k@);
    }
    match position_of(t, &k) {
        Some(i) => {
            let ghost before = t@;
            t.remove(i);
            t.insert(i, (k, v));
            proof {
                assert(t@ =~= before.update(i as int, (k, v)));
            }
        },
        None => {
            t.push((k, v));
        },
    }
}

/// Upserts every pair of `incoming`, in order.
pub fn merge_into(base: &mut Entries, incoming: Entries)
    ensures
        final(base)@ == merge_entries(old(base)@, incoming@),
{
    let total = incoming.len();
    let ghost orig = incoming@;
    let mut rest = incoming;
    let mut i: usize = 0;
    while rest.len() > 0
        invariant
            total == orig.len(),
            i <= orig.len(),
            rest@ == orig.subrange(i as int, orig.len() as int),
            base@ == merge_entries(old(base)@, orig.subrange(0, i as int)),
        decreases rest@.len(),
    {
        let e = rest.remove(0);
        proof {
            assert(orig.subrange(0, i as int + 1).drop_last() =~= orig.subrange(0, i as int));
            assert(e == orig[i as int]);
            assert(rest@ =~= orig.subrange(i as int + 1, orig.len() as int));
        }
        upsert_entry(base, e.0, e.1);
        i = i + 1;
    }
    proof {
        assert(orig.subrange(0, i as int) =~= orig);
    }
}

/// Appends the pairs of `extra` whose keys `base` does not hold yet.
pub fn supplement_into(base: &mut Entries, extra: Entries)
    ensures
        final(base)@ == supplement(old(base)@, extra@),
{
    let total = extra.len();
    let ghost orig = extra@;
    let mut rest = extra;
    let mut i: usize = 0;
    while rest.len() > 0
        invariant
            total == orig.len(),
            i <= orig.len(),
            rest@ == orig.subrange(i as int, orig.len() as int),
            base@ == supplement(old(base)@, orig.subrange(0, i as int)),
        decreases rest@.len(),
    {
        let e = rest.remove(0);
        proof {
            assert(orig.subrange(0, i as int + 1).drop_last() =~= orig.subrange(0, i as int));
            assert(e == orig[i as int]);
            assert(rest@ =~= orig.subrange(i as int + 1, orig.len() as int));
        }
        if position_of(base, &e.0).is_none() {
            base.push(e);
        }
        i = i + 1;
    }
    proof {
        assert(orig.subrange(0, i as int) =~= orig);
    }
}

proof fn lemma_key_index_same_keys(
    t: Seq<(String, ConfigValue)>,
    u: Seq<(String, ConfigValue)>,
    k: Seq<char>,
)
    requires
        t.len() == u.len(),
        forall|j: int| 0 <= j < t.len() ==> t[j].0@ == u[j].0@,
    ensures
        key_index(t, k) == key_index(u, k),
    decreases t.len(),
{
    if t.len() > 0 {
        lemma_key_index_same_keys(t.drop_last(), u.drop_last(), k);
    }
}

/// What an upsert does to lookups: the upserted key now gives the new value, every
/// other key what it gave before.
pub proof fn lemma_lookup_upsert(
    t: Seq<(String, ConfigValue)>,
    k: String,
    v: ConfigValue,
    k2: Seq<char>,
)
    ensures
        lookup(upsert(t, k, v), k2) == (if k2 == k@ {
            Some(v)
        } else {
            lookup(t, k2)
        }),
{
    lemma_key_index_bounds(t, k@);
    lemma_lookup_index(t, k2);
    let i = key_index(t, k@);
    if i >= 0 {
        let u = t.update(i, (k, v));
        lemma_key_index_same_keys(t, u, k2);
        lemma_lookup_index(u, k2);
        lemma_key_index_bounds(t, k2);
    } else {
        assert(t.push((k, v)).drop_last() =~= t);
    }
}

proof fn lemma_upsert_keeps_keys(t: Seq<(String, ConfigValue)>, k: String, v: ConfigValue)
    ensures
        upsert(t, k, v).len() >= t.len(),
        forall|j: int| 0 <= j < t.len() ==> #[trigger] upsert(t, k, v)[j].0@ == t[j].0@,
{
    lemma_key_index_bounds(t, k@);
}

proof fn lemma_lookup_absent(t: Seq<(String, ConfigValue)>, k: Seq<char>)
    requires
        forall|j: int| 0 <= j < t.len() ==> t[j].0@ != k,
    ensures
        lookup(t, k) is None,
{
    lemma_lookup_index(t, k);
    lemma_key_index_bounds(t, k);
}

/// Key-wise merge with the incoming document winning: a key that the incoming
/// document holds gives its incoming value, any other key gives the existing value,
/// and the existing keys keep their positions at the front.
pub proof fn merge_incoming_wins(
    base: Seq<(String, ConfigValue)>,
    incoming: Seq<(String, ConfigValue)>,
    k: Seq<char>,
)
    requires
        unique_keys(incoming),
    ensures
        lookup(merge_entries(base, incoming), k) == (match lookup(incoming, k) {
            Some(v) => Some(v),
            None => lookup(base, k),
        }),
        merge_entries(base, incoming).len() >= base.len(),
        forall|j: int|
            0 <= j < base.len() ==> #[trigger] merge_entries(base, incoming)[j].0@ == base[j].0@,
    decreases incoming.len(),
{
    if incoming.len() > 0 {
        let rest = incoming.drop_last();
        let e = incoming.last();
        assert(unique_keys(rest));
        merge_incoming_wins(base, rest, k);
        let prev = merge_entries(base, rest);
        lemma_lookup_upsert(prev, e.0, e.1, k);
        lemma_upsert_keeps_keys(prev, e.0, e.1);
        if k == e.0@ {
            assert forall|j: int| 0 <= j < rest.len() implies rest[j].0@ != k by {
                assert(incoming[j].0@ != incoming[incoming.len() - 1].0@);
            }
            lemma_lookup_absent(rest, k);
        }
    }
}

/// Dropping some keys leaves every other key's value as it was.
pub proof fn lemma_lookup_drop_keys(t: Seq<(String, ConfigValue)>, ex: Seq<Seq<char>>, k: Seq<char>)
    requires
        !ex.contains(k),
    ensures
        lookup(drop_keys(t, ex), k) == lookup(t, k),
    decreases t.len(),
{
    if t.len() > 0 {
        lemma_lookup_drop_keys(t.drop_last(), ex, k);
        if !ex.contains(t.last().0@) {
            assert(drop_keys(t, ex).drop_last() =~= drop_keys(t.drop_last(), ex));
        }
    }
}

} // verus!

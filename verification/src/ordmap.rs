//! Insertion-ordered key/value maps for an action's context and stats,
//! backed by `indexmap::IndexMap` and modelled as sequences of pairs.
//!
//! The context map holds string values; the stats map holds unsigned integer
//! accumulators.  Both preserve insertion order: inserting an existing key
//! overwrites its value without moving it, inserting a new key appends it.

use vstd::prelude::*;
use indexmap::IndexMap;
use std::collections::hash_map::RandomState;

verus! {

#[verifier::external_type_specification]
#[verifier::external_body]
#[verifier::reject_recursive_types(K)]
#[verifier::reject_recursive_types(V)]
#[verifier::reject_recursive_types(S)]
pub struct ExIndexMap<K, V, S>(IndexMap<K, V, S>);

/// The entries of a context map, in insertion order.
pub uninterp spec fn ctx_entries(m: IndexMap<String, String, RandomState>) -> Seq<
    (Seq<char>, Seq<char>),
>;

/// The entries of a stats map, in insertion order.
pub uninterp spec fn stat_entries(m: IndexMap<String, u128, RandomState>) -> Seq<(Seq<char>, u128)>;

/// Index of the first entry with the given key, or -1 when absent.
pub open spec fn spec_key_index<V>(entries: Seq<(Seq<char>, V)>, key: Seq<char>) -> int
    decreases entries.len(),
{
    if entries.len() == 0 {
        -1
    } else if entries[0].0 == key {
        0
    } else {
        let rest = spec_key_index(entries.drop_first(), key);
        if rest < 0 {
            -1
        } else {
            rest + 1
        }
    }
}

pub open spec fn spec_has_key<V>(entries: Seq<(Seq<char>, V)>, key: Seq<char>) -> bool {
    spec_key_index(entries, key) >= 0
}

/// The value stored for a key, if present.
pub open spec fn spec_lookup<V>(entries: Seq<(Seq<char>, V)>, key: Seq<char>) -> Option<V> {
    if spec_has_key(entries, key) {
        Some(entries[spec_key_index(entries, key)].1)
    } else {
        None
    }
}

/// The entries after storing `value` under `key`: an existing key keeps its
/// position and gets the new value, a new key is appended last.
pub open spec fn spec_upsert<V>(entries: Seq<(Seq<char>, V)>, key: Seq<char>, value: V) -> Seq<
    (Seq<char>, V),
> {
    if spec_has_key(entries, key) {
        entries.update(spec_key_index(entries, key), (key, value))
    } else {
        entries.push((key, value))
    }
}

/// The key index points at an entry with that key, and no earlier entry has it.
pub proof fn lemma_key_index<V>(entries: Seq<(Seq<char>, V)>, key: Seq<char>)
    ensures
        spec_has_key(entries, key) ==> {
            &&& 0 <= spec_key_index(entries, key) < entries.len()
            &&& entries[spec_key_index(entries, key)].0 == key
        },
        !spec_has_key(entries, key) ==> forall|i: int|
            0 <= i < entries.len() ==> entries[i].0 != key,
    decreases entries.len(),
{
    if entries.len() > 0 && entries[0].0 != key {
        lemma_key_index(entries.drop_first(), key);
        assert forall|i: int| 0 <= i < entries.len() && entries[i].0 == key implies spec_has_key(
            entries,
            key,
        ) by {
            if i > 0 {
                assert(entries.drop_first()[i - 1] == entries[i]);
            }
        }
    }
}

/// Relies on `IndexMap::new`: creates an empty map.
#[verifier::external_body]
pub(crate) fn ctx_new() -> (m: IndexMap<String, String, RandomState>)
    ensures
        ctx_entries(m) == Seq::<(Seq<char>, Seq<char>)>::empty(),
{
    IndexMap::new()
}

/// Relies on `IndexMap::insert`: an existing key keeps its place in the order
/// and its value is replaced; a new key is appended last in order.
#[verifier::external_body]
pub(crate) fn ctx_insert(m: &mut IndexMap<String, String, RandomState>, key: String, value: String)
    ensures
        ctx_entries(*final(m)) == spec_upsert(ctx_entries(*old(m)), key@, value@),
{
    m.insert(key, value);
}

/// Relies on `IndexMap::get_index`: the pair at the given position in the
/// insertion order, if the position is in range.
#[verifier::external_body]
pub(crate) fn ctx_get_index(m: &IndexMap<String, String, RandomState>, i: usize) -> (r: Option<
    (String, String),
>)
    ensures
        match r {
            Some(p) => {
                &&& i < ctx_entries(*m).len()
                &&& p.0@ == ctx_entries(*m)[i as int].0
                &&& p.1@ == ctx_entries(*m)[i as int].1
            },
            None => i >= ctx_entries(*m).len(),
        },
{
    match m.get_index(i) {
        Some((k, v)) => Some((k.clone(), v.clone())),
        None => None,
    }
}

/// Relies on `IndexMap::len`: the number of stored pairs.
#[verifier::external_body]
pub(crate) fn ctx_len(m: &IndexMap<String, String, RandomState>) -> (r: usize)
    ensures
        r == ctx_entries(*m).len(),
{
    m.len()
}

/// Relies on `IndexMap::new`: creates an empty map.
#[verifier::external_body]
pub(crate) fn stat_new() -> (m: IndexMap<String, u128, RandomState>)
    ensures
        stat_entries(m) == Seq::<(Seq<char>, u128)>::empty(),
{
    IndexMap::new()
}

/// Relies on `IndexMap::insert`: an existing key keeps its place in the order
/// and its value is replaced; a new key is appended last in order.
#[verifier::external_body]
pub(crate) fn stat_insert(m: &mut IndexMap<String, u128, RandomState>, key: String, value: u128)
    ensures
        stat_entries(*final(m)) == spec_upsert(stat_entries(*old(m)), key@, value),
{
    m.insert(key, value);
}

/// Relies on `IndexMap::get`: the value stored for the key, if present.
#[verifier::external_body]
pub(crate) fn stat_get(m: &IndexMap<String, u128, RandomState>, key: &str) -> (r: Option<u128>)
    ensures
        r == spec_lookup(stat_entries(*m), key@),
{
    m.get(key).copied()
}

/// Relies on `IndexMap::get_index`: the pair at the given position in the
/// insertion order, if the position is in range.
#[verifier::external_body]
pub(crate) fn stat_get_index(m: &IndexMap<String, u128, RandomState>, i: usize) -> (r: Option<
    (String, u128),
>)
    ensures
        match r {
            Some(p) => {
                &&& i < stat_entries(*m).len()
                &&& p.0@ == stat_entries(*m)[i as int].0
                &&& p.1 == stat_entries(*m)[i as int].1
            },
            None => i >= stat_entries(*m).len(),
        },
{
    match m.get_index(i) {
        Some((k, v)) => Some((k.clone(), *v)),
        None => None,
    }
}

/// Relies on `IndexMap::len`: the number of stored pairs.
#[verifier::external_body]
pub(crate) fn stat_len(m: &IndexMap<String, u128, RandomState>) -> (r: usize)
    ensures
        r == stat_entries(*m).len(),
{
    m.len()
}

/// `a + b`, saturating at the largest accumulator value.
pub open spec fn spec_sat_add(a: u128, b: u128) -> u128 {
    if a + b > u128::MAX {
        u128::MAX
    } else {
        (a + b) as u128
    }
}

/// The stats map after adding `value` to the accumulator under `key`; an
/// absent key counts as zero.
pub open spec fn spec_stat_add(entries: Seq<(Seq<char>, u128)>, key: Seq<char>, value: u128) -> Seq<
    (Seq<char>, u128),
> {
    let prev = match spec_lookup(entries, key) {
        Some(v) => v,
        None => 0u128,
    };
    spec_upsert(entries, key, spec_sat_add(prev, value))
}

/// Adds `value` to the accumulator stored under `key`, treating an absent key
/// as zero and saturating on overflow.
pub fn stat_add(m: &mut IndexMap<String, u128, RandomState>, key: String, value: u128)
    ensures
        stat_entries(*final(m)) == spec_stat_add(stat_entries(*old(m)), key@, value),
{
    let prev = match stat_get(m, key.as_str()) {
        Some(v) => v,
        None => 0,
    };
    let sum = if prev <= u128::MAX - value {
        prev + value
    } else {
        u128::MAX
    };
    stat_insert(m, key, sum);
}

/// Copies the context entries out, in insertion order.
pub fn ctx_to_vec(m: &IndexMap<String, String, RandomState>) -> (r: Vec<(String, String)>)
    ensures
        r@.len() == ctx_entries(*m).len(),
        forall|i: int|
            0 <= i < r@.len() ==> r@[i].0@ == ctx_entries(*m)[i].0 && r@[i].1@ == ctx_entries(
                *m,
            )[i].1,
{
    let n = ctx_len(m);
    let mut r: Vec<(String, String)> = Vec::new();
    let mut i: usize = 0;
    while i < n
        invariant
            i <= n,
            n == ctx_entries(*m).len(),
            r@.len() == i,
            forall|j: int|
                0 <= j < i ==> r@[j].0@ == ctx_entries(*m)[j].0 && r@[j].1@ == ctx_entries(
                    *m,
                )[j].1,
        decreases n - i,
    {
        match ctx_get_index(m, i) {
            Some(p) => {
                r.push(p);
            },
            None => {
                proof {
                    assert(false);
                }
            },
        }
        i += 1;
    }
    r
}

/// Copies the stats entries out, in insertion order.
pub fn stat_to_vec(m: &IndexMap<String, u128, RandomState>) -> (r: Vec<(String, u128)>)
    ensures
        r@.len() == stat_entries(*m).len(),
        forall|i: int|
            0 <= i < r@.len() ==> r@[i].0@ == stat_entries(*m)[i].0 && r@[i].1 == stat_entries(
                *m,
            )[i].1,
{
    let n = stat_len(m);
    let mut r: Vec<(String, u128)> = Vec::new();
    let mut i: usize = 0;
    while i < n
        invariant
            i <= n,
            n == stat_entries(*m).len(),
            r@.len() == i,
            forall|j: int|
                0 <= j < i ==> r@[j].0@ == stat_entries(*m)[j].0 && r@[j].1 == stat_entries(
                    *m,
                )[j].1,
        decreases n - i,
    {
        match stat_get_index(m, i) {
            Some(p) => {
                r.push(p);
            },
            None => {
                proof {
                    assert(false);
                }
            },
        }
        i += 1;
    }
    r
}

} // verus!

verus! {

/// Storing under a key changes exactly that key's lookup.
pub proof fn lemma_lookup_upsert<V>(
    entries: Seq<(Seq<char>, V)>,
    key: Seq<char>,
    value: V,
    probe: Seq<char>,
)
    ensures
        spec_lookup(spec_upsert(entries, key, value), probe) == (if probe == key {
            Some(value)
        } else {
            spec_lookup(entries, probe)
        }),
    decreases entries.len(),
{
    let up = spec_upsert(entries, key, value);
    if entries.len() == 0 {
        assert(up =~= seq![(key, value)]);
        assert(up.drop_first() =~= Seq::<(Seq<char>, V)>::empty());
        if probe == key {
            assert(spec_key_index(up, probe) == 0);
            assert(spec_lookup(up, probe) == Some(value));
        } else {
            assert(spec_key_index(Seq::<(Seq<char>, V)>::empty(), probe) == -1);
            assert(spec_key_index(up, probe) == -1);
            assert(spec_lookup(up, probe) is None);
        }
    } else if entries[0].0 == key {
        assert(spec_key_index(entries, key) == 0);
        assert(up =~= entries.update(0, (key, value)));
        assert(up[0] == (key, value));
        if probe == key {
            assert(spec_key_index(up, probe) == 0);
        } else {
            assert(up.drop_first() =~= entries.drop_first());
            lemma_lookup_shift(up, probe);
            lemma_lookup_shift(entries, probe);
        }
    } else {
        lemma_key_index(entries, key);
        lemma_key_index(entries.drop_first(), key);
        if spec_has_key(entries, key) {
            assert(spec_key_index(entries, key) == 1 + spec_key_index(entries.drop_first(), key));
            assert(up == entries.update(spec_key_index(entries, key), (key, value)));
            assert(up[0] == entries[0]);
            assert(up.drop_first() =~= entries.drop_first().update(
                spec_key_index(entries.drop_first(), key),
                (key, value),
            ));
        } else {
            assert(up == entries.push((key, value)));
            assert(up[0] == entries[0]);
            assert(up.drop_first() =~= entries.drop_first().push((key, value)));
        }
        assert(up.drop_first() =~= spec_upsert(entries.drop_first(), key, value));
        lemma_lookup_upsert(entries.drop_first(), key, value, probe);
        if probe == entries[0].0 {
            assert(spec_key_index(up, probe) == 0);
            assert(spec_key_index(entries, probe) == 0);
        } else {
            lemma_lookup_shift(up, probe);
            lemma_lookup_shift(entries, probe);
        }
    }
}

/// A lookup that misses the head entry continues in the tail.
proof fn lemma_lookup_shift<V>(entries: Seq<(Seq<char>, V)>, probe: Seq<char>)
    requires
        entries.len() > 0,
        entries[0].0 != probe,
    ensures
        spec_lookup(entries, probe) == spec_lookup(entries.drop_first(), probe),
{
    if spec_has_key(entries.drop_first(), probe) {
        lemma_key_index(entries.drop_first(), probe);
        let k = spec_key_index(entries.drop_first(), probe);
        assert(spec_key_index(entries, probe) == 1 + k);
        assert(entries.drop_first()[k] == entries[k + 1]);
    }
}

} // verus!

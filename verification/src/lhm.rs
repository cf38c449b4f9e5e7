//! hashlink's insertion-ordered `LinkedHashMap`, as the writers and the basic
//! block builder use it: its contents are the sequence of its entries in
//! list order.

use vstd::prelude::*;
use hashlink::{DefaultHashBuilder, LinkedHashMap};

verus! {

#[verifier::external_type_specification]
#[verifier::external_body]
#[verifier::reject_recursive_types(K)]
#[verifier::reject_recursive_types(V)]
#[verifier::reject_recursive_types(S)]
pub struct ExLinkedHashMap<K, V, S>(LinkedHashMap<K, V, S>);

#[verifier::external_type_specification]
#[verifier::external_body]
pub struct ExDefaultHashBuilder(DefaultHashBuilder);

/// The position of the entry with key `k`, or -1 when there is none.
pub open spec fn find_key<K, V>(e: Seq<(K, V)>, k: K) -> int
    decreases e.len(),
{
    if e.len() == 0 {
        -1
    } else if e.last().0 == k {
        e.len() - 1
    } else {
        find_key(e.drop_last(), k)
    }
}

/// The entries after `insert(k, v)`: an existing entry for `k` leaves its
/// place and the new pair goes to the back of the list.
pub open spec fn lhm_insert<K, V>(e: Seq<(K, V)>, k: K, v: V) -> Seq<(K, V)> {
    let j = find_key(e, k);
    if j >= 0 {
        e.remove(j).push((k, v))
    } else {
        e.push((k, v))
    }
}

/// The value stored for `k`, if any.
pub open spec fn lhm_get<K, V>(e: Seq<(K, V)>, k: K) -> Option<V> {
    let j = find_key(e, k);
    if j >= 0 {
        Some(e[j].1)
    } else {
        None
    }
}

pub proof fn lemma_find_key_bounds<K, V>(e: Seq<(K, V)>, k: K)
    ensures
        -1 <= find_key(e, k) < e.len(),
        find_key(e, k) >= 0 ==> e[find_key(e, k)].0 == k,
        find_key(e, k) < 0 ==> forall|i: int| 0 <= i < e.len() ==> e[i].0 != k,
    decreases e.len(),
{
    if e.len() > 0 && e.last().0 != k {
        lemma_find_key_bounds(e.drop_last(), k);
        assert forall|i: int| 0 <= i < e.len() && find_key(e, k) < 0 implies e[i].0 != k by {
            if i < e.len() - 1 {
                assert(e[i] == e.drop_last()[i]);
            }
        }
    }
}

/// With distinct keys, the key at position `i` is found at `i`.
pub proof fn lemma_find_key_distinct<K, V>(e: Seq<(K, V)>, i: int)
    requires
        0 <= i < e.len(),
        forall|a: int, b: int| 0 <= a < b < e.len() ==> e[a].0 != e[b].0,
    ensures
        find_key(e, e[i].0) == i,
    decreases e.len(),
{
    if i < e.len() - 1 {
        assert(e.last().0 != e[i].0);
        assert(e.drop_last()[i] == e[i]);
        lemma_find_key_distinct(e.drop_last(), i);
    }
}

/// After inserting `k`, its value is the one inserted.
pub proof fn lemma_insert_finds<K, V>(e: Seq<(K, V)>, k: K, v: V)
    ensures
        lhm_get(lhm_insert(e, k, v), k) == Some(v),
{
    let e2 = lhm_insert(e, k, v);
    assert(e2.last() == (k, v));
}

/// Inserting a key keeps every other key present.
pub proof fn lemma_insert_keeps<K, V>(e: Seq<(K, V)>, k: K, v: V, k2: K)
    requires
        lhm_get(e, k2) is Some,
    ensures
        lhm_get(lhm_insert(e, k, v), k2) is Some,
{
    if k2 == k {
        lemma_insert_finds(e, k, v);
    } else {
        let e2 = lhm_insert(e, k, v);
        lemma_find_key_bounds(e, k2);
        lemma_find_key_bounds(e, k);
        lemma_find_key_bounds(e2, k2);
        let i = find_key(e, k2);
        let j = find_key(e, k);
        if j >= 0 {
            let w = if i < j { i } else { i - 1 };
            assert(e2[w] == e[i]);
        } else {
            assert(e2[i] == e[i]);
        }
    }
}

/// The entry of key `k` is the last one with that key.
pub proof fn lemma_find_key_last<K, V>(e: Seq<(K, V)>, k: K, i: int)
    requires
        0 <= i < e.len(),
        e[i].0 == k,
        forall|x: int| i < x < e.len() ==> e[x].0 != k,
    ensures
        find_key(e, k) == i,
    decreases e.len(),
{
    if i < e.len() - 1 {
        assert(e.last().0 != k);
        assert(e.drop_last()[i] == e[i]);
        assert forall|x: int| i < x < e.len() - 1 implies e.drop_last()[x].0 != k by {
            assert(e.drop_last()[x] == e[x]);
        }
        lemma_find_key_last(e.drop_last(), k, i);
    }
}

/// Inserting one key leaves the value stored for every other key.
pub proof fn lemma_insert_other<K, V>(e: Seq<(K, V)>, k: K, v: V, k2: K)
    requires
        k2 != k,
    ensures
        lhm_get(lhm_insert(e, k, v), k2) == lhm_get(e, k2),
{
    let e2 = lhm_insert(e, k, v);
    let j = find_key(e, k);
    lemma_find_key_bounds(e, k);
    lemma_find_key_bounds(e, k2);
    let i = find_key(e, k2);
    let shift = |x: int| if j >= 0 && x >= j { x + 1 } else { x };
    assert forall|x: int| 0 <= x < e2.len() - 1 implies e2[x] == e[shift(x)] by {}
    if i >= 0 {
        lemma_find_key_last_of(e, k2);
        let i2 = if j >= 0 && i > j { i - 1 } else { i };
        assert(i != j);
        assert(e2[i2] == e[i]);
        assert forall|x: int| i2 < x < e2.len() implies e2[x].0 != k2 by {
            if x < e2.len() - 1 {
                assert(e2[x] == e[shift(x)]);
                assert(shift(x) > i);
            }
        }
        lemma_find_key_last(e2, k2, i2);
    } else {
        assert forall|x: int| 0 <= x < e2.len() implies e2[x].0 != k2 by {
            if x < e2.len() - 1 {
                assert(e2[x] == e[shift(x)]);
            }
        }
        lemma_find_key_none(e2, k2);
    }
}

/// No entry after the one found has its key.
pub proof fn lemma_find_key_last_of<K, V>(e: Seq<(K, V)>, k: K)
    ensures
        find_key(e, k) >= 0 ==> forall|x: int| find_key(e, k) < x < e.len() ==> e[x].0 != k,
    decreases e.len(),
{
    if e.len() > 0 && e.last().0 != k {
        lemma_find_key_last_of(e.drop_last(), k);
        if find_key(e, k) >= 0 {
            assert forall|x: int| find_key(e, k) < x < e.len() - 1 implies e[x].0 != k by {
                assert(e.drop_last()[x] == e[x]);
            }
        }
    }
}

/// A key no entry has is not found.
pub proof fn lemma_find_key_none<K, V>(e: Seq<(K, V)>, k: K)
    requires
        forall|x: int| 0 <= x < e.len() ==> e[x].0 != k,
    ensures
        find_key(e, k) == -1,
    decreases e.len(),
{
    if e.len() > 0 {
        assert(e.last().0 != k);
        assert forall|x: int| 0 <= x < e.len() - 1 implies e.drop_last()[x].0 != k by {
            assert(e.drop_last()[x] == e[x]);
        }
        lemma_find_key_none(e.drop_last(), k);
    }
}

/// The contents of a map from strings to ids, as (characters, id) pairs.
pub uninterp spec fn string_ids(m: LinkedHashMap<String, i32>) -> Seq<(Seq<char>, i32)>;

/// The contents of a map from instruction positions to block numbers.
pub uninterp spec fn block_targets(m: LinkedHashMap<usize, u32>) -> Seq<(usize, u32)>;

/// hashlink's `LinkedHashMap::new`: a map with no entries.
#[verifier::external_body]
pub(crate) fn string_ids_new() -> (m: LinkedHashMap<String, i32>)
    ensures
        string_ids(m) == Seq::<(Seq<char>, i32)>::empty(),
{
    LinkedHashMap::new()
}

/// hashlink's `LinkedHashMap::insert`: an existing entry for the key is
/// replaced and moved to the back; a new key is appended at the back.
#[verifier::external_body]
pub(crate) fn string_ids_insert(m: &mut LinkedHashMap<String, i32>, k: String, v: i32)
    ensures
        string_ids(*final(m)) == lhm_insert(string_ids(*old(m)), k@, v),
{
    m.insert(k, v);
}

/// hashlink's `LinkedHashMap::get`: the value stored for the key, if any.
#[verifier::external_body]
pub(crate) fn string_ids_get(m: &LinkedHashMap<String, i32>, k: &String) -> (r: Option<i32>)
    ensures
        r == lhm_get(string_ids(*m), k@),
{
    m.get(k).copied()
}

/// hashlink's `LinkedHashMap::len`: the number of entries.
#[verifier::external_body]
pub(crate) fn string_ids_len(m: &LinkedHashMap<String, i32>) -> (r: usize)
    ensures
        r == string_ids(*m).len(),
{
    m.len()
}

/// hashlink's `LinkedHashMap::iter`, keys only, in list order.
#[verifier::external_body]
pub(crate) fn string_ids_keys(m: &LinkedHashMap<String, i32>) -> (r: Vec<String>)
    ensures
        r@.len() == string_ids(*m).len(),
        forall|i: int| 0 <= i < r@.len() ==> #[trigger] r@[i]@ == string_ids(*m)[i].0,
{
    m.iter().map(|(k, _)| k.clone()).collect()
}

/// hashlink's `LinkedHashMap::new`: a map with no entries.
#[verifier::external_body]
pub(crate) fn block_targets_new() -> (m: LinkedHashMap<usize, u32>)
    ensures
        block_targets(m) == Seq::<(usize, u32)>::empty(),
{
    LinkedHashMap::new()
}

/// hashlink's `LinkedHashMap::insert`: an existing entry for the key is
/// replaced and moved to the back; a new key is appended at the back.
#[verifier::external_body]
pub(crate) fn block_targets_insert(m: &mut LinkedHashMap<usize, u32>, k: usize, v: u32)
    ensures
        block_targets(*final(m)) == lhm_insert(block_targets(*old(m)), k, v),
{
    m.insert(k, v);
}

/// hashlink's `LinkedHashMap::get`: the value stored for the key, if any.
#[verifier::external_body]
pub(crate) fn block_targets_get(m: &LinkedHashMap<usize, u32>, k: usize) -> (r: Option<u32>)
    ensures
        r == lhm_get(block_targets(*m), k),
{
    m.get(&k).copied()
}


/// hashlink's `Clone` for `LinkedHashMap`: a map with the same entries in
/// the same order.
#[verifier::external_body]
pub(crate) fn string_ids_clone(m: &LinkedHashMap<String, i32>) -> (r: LinkedHashMap<String, i32>)
    ensures
        string_ids(r) == string_ids(*m),
{
    m.clone()
}

/// The contents of a map from names to their ids, as (characters, id) pairs.
pub uninterp spec fn name_ids(m: LinkedHashMap<String, u32>) -> Seq<(Seq<char>, u32)>;

/// hashlink's `LinkedHashMap::insert`: an existing entry for the key is
/// replaced and moved to the back; a new key is appended at the back.
#[verifier::external_body]
pub(crate) fn name_ids_insert(m: &mut LinkedHashMap<String, u32>, k: String, v: u32)
    ensures
        name_ids(*final(m)) == lhm_insert(name_ids(*old(m)), k@, v),
{
    m.insert(k, v);
}

/// hashlink's `LinkedHashMap::get`, looked up by a string slice: the value
/// stored for the key, if any.
#[verifier::external_body]
pub(crate) fn name_ids_get(m: &LinkedHashMap<String, u32>, k: &str) -> (r: Option<u32>)
    ensures
        r == lhm_get(name_ids(*m), k@),
{
    m.get(k).copied()
}

/// hashlink's `LinkedHashMap::len`: the number of entries.
#[verifier::external_body]
pub(crate) fn name_ids_len(m: &LinkedHashMap<String, u32>) -> (r: usize)
    ensures
        r == name_ids(*m).len(),
{
    m.len()
}

/// hashlink's `LinkedHashMap::iter`, each entry copied, in list order.
#[verifier::external_body]
pub(crate) fn name_ids_entries(m: &LinkedHashMap<String, u32>) -> (r: Vec<(String, u32)>)
    ensures
        r@.len() == name_ids(*m).len(),
        forall|i: int|
            0 <= i < r@.len() ==> (#[trigger] r@[i]).0@ == name_ids(*m)[i].0 && r@[i].1
                == name_ids(*m)[i].1,
{
    m.iter().map(|(k, v)| (k.clone(), *v)).collect()
}

/// The contents of a map from label names to their positions, if placed.
pub uninterp spec fn label_slots(m: LinkedHashMap<String, Option<usize>>) -> Seq<
    (Seq<char>, Option<usize>),
>;

/// hashlink's `LinkedHashMap::new`: a map with no entries.
#[verifier::external_body]
pub(crate) fn label_slots_new() -> (m: LinkedHashMap<String, Option<usize>>)
    ensures
        label_slots(m) == Seq::<(Seq<char>, Option<usize>)>::empty(),
{
    LinkedHashMap::new()
}

/// hashlink's `LinkedHashMap::insert`: an existing entry for the key is
/// replaced and moved to the back; a new key is appended at the back.
#[verifier::external_body]
pub(crate) fn label_slots_insert(m: &mut LinkedHashMap<String, Option<usize>>, k: String, v: Option<usize>)
    ensures
        label_slots(*final(m)) == lhm_insert(label_slots(*old(m)), k@, v),
{
    m.insert(k, v);
}

/// hashlink's `LinkedHashMap::get`, looked up by a string slice: the value
/// stored for the key, if any.
#[verifier::external_body]
pub(crate) fn label_slots_get(m: &LinkedHashMap<String, Option<usize>>, k: &str) -> (r: Option<Option<usize>>)
    ensures
        r == lhm_get(label_slots(*m), k@),
{
    m.get(k).copied()
}

/// hashlink's `LinkedHashMap::len`: the number of entries.
#[verifier::external_body]
pub(crate) fn label_slots_len(m: &LinkedHashMap<String, Option<usize>>) -> (r: usize)
    ensures
        r == label_slots(*m).len(),
{
    m.len()
}

/// hashlink's `Clone` for `LinkedHashMap`: a map with the same entries in
/// the same order.
#[verifier::external_body]
pub(crate) fn label_slots_clone(m: &LinkedHashMap<String, Option<usize>>) -> (r: LinkedHashMap<
    String,
    Option<usize>,
>)
    ensures
        label_slots(r) == label_slots(*m),
{
    m.clone()
}

/// hashlink's `LinkedHashMap::iter`, each entry copied, in list order.
#[verifier::external_body]
pub(crate) fn label_slots_entries(m: &LinkedHashMap<String, Option<usize>>) -> (r: Vec<
    (String, Option<usize>),
>)
    ensures
        r@.len() == label_slots(*m).len(),
        forall|i: int|
            0 <= i < r@.len() ==> (#[trigger] r@[i]).0@ == label_slots(*m)[i].0 && r@[i].1
                == label_slots(*m)[i].1,
{
    m.iter().map(|(k, v)| (k.clone(), *v)).collect()
}

} // verus!

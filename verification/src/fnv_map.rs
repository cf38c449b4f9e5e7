//! fnv's `FnvHashMap`, std's `HashMap` with the FNV hasher, as the Jazz
//! module's field table uses it: a map from field hashes to field names.

use vstd::prelude::*;
use std::hash::BuildHasherDefault;
use fnv::{FnvHashMap, FnvHasher};

verus! {

#[verifier::external_type_specification]
#[verifier::external_body]
pub struct ExFnvHasher(FnvHasher);

#[verifier::external_type_specification]
#[verifier::external_body]
#[verifier::reject_recursive_types(H)]
pub struct ExBuildHasherDefault<H>(BuildHasherDefault<H>);

/// The field names a table holds, by their hashes.
pub uninterp spec fn field_names(m: FnvHashMap<u64, String>) -> Map<u64, Seq<char>>;

/// Entries as the contracts see them.
pub open spec fn entries_view(es: Seq<(u64, String)>) -> Seq<(u64, Seq<char>)> {
    es.map_values(|e: (u64, String)| (e.0, e.1@))
}

/// Whether `es` lists the entries of `m`: each once, in some order.
pub open spec fn lists(es: Seq<(u64, Seq<char>)>, m: Map<u64, Seq<char>>) -> bool {
    &&& forall|i: int, j: int| 0 <= i < j < es.len() ==> es[i].0 != es[j].0
    &&& forall|i: int|
        0 <= i < es.len() ==> m.contains_key((#[trigger] es[i]).0) && m[es[i].0] == es[i].1
    &&& forall|k: u64| #[trigger] m.contains_key(k) ==> exists|i: int| 0 <= i < es.len() && es[i].0 == k
}

/// The map that inserting the entries in order gives.
pub open spec fn insert_all(es: Seq<(u64, Seq<char>)>) -> Map<u64, Seq<char>>
    decreases es.len(),
{
    if es.len() == 0 {
        Map::empty()
    } else {
        insert_all(es.drop_last()).insert(es.last().0, es.last().1)
    }
}

/// Inserting the entries a listing holds, in its order, rebuilds the map.
pub proof fn lemma_insert_all_lists(es: Seq<(u64, Seq<char>)>, m: Map<u64, Seq<char>>)
    requires
        lists(es, m),
    ensures
        insert_all(es) == m,
    decreases es.len(),
{
    if es.len() == 0 {
        assert forall|k: u64| !m.contains_key(k) by {
            if m.contains_key(k) {
                let i = choose|i: int| 0 <= i < es.len() && es[i].0 == k;
            }
        }
        assert(m =~= Map::empty());
    } else {
        let dl = es.drop_last();
        let e = es.last();
        assert(es[es.len() - 1] == e);
        let m1 = m.remove(e.0);
        assert forall|i: int, j: int| 0 <= i < j < dl.len() implies dl[i].0 != dl[j].0 by {
            assert(dl[i] == es[i] && dl[j] == es[j]);
        }
        assert forall|i: int| 0 <= i < dl.len() implies m1.contains_key((#[trigger] dl[i]).0)
            && m1[dl[i].0] == dl[i].1 by {
            assert(dl[i] == es[i]);
            assert(es[i].0 != es[es.len() - 1].0);
        }
        assert forall|k: u64| #[trigger] m1.contains_key(k) implies exists|i: int|
            0 <= i < dl.len() && dl[i].0 == k by {
            let i = choose|i: int| 0 <= i < es.len() && es[i].0 == k;
            assert(i != es.len() - 1);
            assert(dl[i] == es[i]);
        }
        lemma_insert_all_lists(dl, m1);
        assert(insert_all(es) =~= m);
    }
}

/// Inserting entries with distinct keys gives a map with one key per entry.
pub proof fn lemma_insert_all_len(es: Seq<(u64, Seq<char>)>)
    requires
        forall|i: int, j: int| 0 <= i < j < es.len() ==> es[i].0 != es[j].0,
    ensures
        insert_all(es).dom().finite(),
        insert_all(es).len() == es.len(),
        forall|k: u64|
            #[trigger] insert_all(es).contains_key(k) <==> exists|i: int| 0 <= i < es.len() && es[i].0 == k,
    decreases es.len(),
{
    if es.len() > 0 {
        let dl = es.drop_last();
        let e = es.last();
        assert(es[es.len() - 1] == e);
        assert forall|i: int, j: int| 0 <= i < j < dl.len() implies dl[i].0 != dl[j].0 by {
            assert(dl[i] == es[i] && dl[j] == es[j]);
        }
        lemma_insert_all_len(dl);
        assert(!insert_all(dl).contains_key(e.0)) by {
            if insert_all(dl).contains_key(e.0) {
                let i = choose|i: int| 0 <= i < dl.len() && dl[i].0 == e.0;
                assert(dl[i] == es[i]);
            }
        }
        assert forall|k: u64| #[trigger] insert_all(es).contains_key(k) <==> exists|i: int|
            0 <= i < es.len() && es[i].0 == k by {
            if insert_all(es).contains_key(k) && k != e.0 {
                let i = choose|i: int| 0 <= i < dl.len() && dl[i].0 == k;
                assert(es[i] == dl[i]);
            }
            if exists|i: int| 0 <= i < es.len() && es[i].0 == k {
                let i = choose|i: int| 0 <= i < es.len() && es[i].0 == k;
                if i < es.len() - 1 {
                    assert(dl[i] == es[i]);
                }
            }
        }
    }
}

/// A listing has one entry per key of the map.
pub proof fn lemma_lists_len(es: Seq<(u64, Seq<char>)>, m: Map<u64, Seq<char>>)
    requires
        lists(es, m),
    ensures
        m.dom().finite(),
        es.len() == m.len(),
{
    lemma_insert_all_lists(es, m);
    lemma_insert_all_len(es);
}

/// fnv's `FnvHashMap::default()`: a table with no entry.
#[verifier::external_body]
pub(crate) fn field_names_new() -> (m: FnvHashMap<u64, String>)
    ensures
        field_names(m).dom() == Set::<u64>::empty(),
{
    FnvHashMap::default()
}

/// `HashMap::insert` on an `FnvHashMap`: the key then maps to the new name,
/// replacing any earlier one.
#[verifier::external_body]
pub(crate) fn field_names_insert(m: &mut FnvHashMap<u64, String>, k: u64, v: String)
    ensures
        field_names(*final(m)) == field_names(*old(m)).insert(k, v@),
{
    m.insert(k, v);
}

/// `HashMap::iter` on an `FnvHashMap`, each entry copied: every entry once,
/// in the map's own order, which the map's state decides and no contract
/// states.
#[verifier::external_body]
pub(crate) fn field_names_entries(m: &FnvHashMap<u64, String>) -> (r: Vec<(u64, String)>)
    ensures
        lists(entries_view(r@), field_names(*m)),
        r@.len() == field_names(*m).len(),
{
    m.iter().map(|(k, v)| (*k, v.clone())).collect()
}

} // verus!

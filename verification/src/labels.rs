//! Label tables of the compilers' code buffers: a label is named, then
//! marked at a position in the code, and jumps to it are resolved when the
//! code is finished.

use vstd::prelude::*;
use crate::lhm::{
    find_key, lemma_find_key_bounds, lemma_insert_finds, lemma_insert_other, lhm_get, lhm_insert,
};

verus! {

/// The character of decimal digit `d`.
pub open spec fn digit(d: nat) -> char {
    ('0' as nat + d) as char
}

/// The decimal numeral of `n`.
pub open spec fn decimal(n: nat) -> Seq<char>
    decreases n,
{
    if n < 10 {
        seq![digit(n)]
    } else {
        decimal(n / 10).push(digit(n % 10))
    }
}

/// std's `ToString::to_string` on a `usize`: its decimal numeral, as the
/// `Display` implementation of integers writes it.
#[verifier::external_body]
pub(crate) fn usize_to_string(n: usize) -> (s: String)
    ensures
        s@ == decimal(n as nat),
{
    n.to_string()
}

/// A label table held as a list of (name, place) pairs, as the contracts see
/// it. Labels are named by strings, and a list keeps each name once (an
/// insert of a known name updates its entry), so lookups and updates are
/// stated and proved over the list itself.
pub open spec fn slots_view(t: Seq<(String, Option<usize>)>) -> Seq<(Seq<char>, Option<usize>)> {
    t.map_values(|p: (String, Option<usize>)| (p.0@, p.1))
}

/// The position of the entry named `k` in a list-held label table.
pub fn slot_find(t: &Vec<(String, Option<usize>)>, k: &String) -> (r: Option<usize>)
    ensures
        match r {
            Some(i) => i as int == find_key(slots_view(t@), k@),
            None => find_key(slots_view(t@), k@) == -1,
        },
{
    let ghost v = slots_view(t@);
    let mut found: Option<usize> = None;
    let mut i: usize = 0;
    while i < t.len()
        invariant
            v == slots_view(t@),
            i <= t@.len(),
            match found {
                Some(j) => j as int == find_key(v.take(i as int), k@),
                None => find_key(v.take(i as int), k@) == -1,
            },
        decreases t@.len() - i,
    {
        assert(v.take(i + 1).drop_last() =~= v.take(i as int));
        assert(v.take(i + 1).last() == v[i as int]);
        if t[i].0 == *k {
            found = Some(i);
        }
        i = i + 1;
    }
    assert(v.take(t@.len() as int) =~= v);
    found
}

/// The place stored for label `k` in a list-held label table, if it is
/// named there.
pub fn slot_get(t: &Vec<(String, Option<usize>)>, k: &String) -> (r: Option<Option<usize>>)
    ensures
        r == lhm_get(slots_view(t@), k@),
{
    proof {
        lemma_find_key_bounds(slots_view(t@), k@);
    }
    match slot_find(t, k) {
        Some(i) => Some(t[i].1),
        None => None,
    }
}

/// Stores place `v` for label `k` in a list-held label table; an existing
/// entry for `k` leaves the list and the new one goes to its back (the order
/// of the list plays no part in lookups).
pub fn slot_insert(t: &mut Vec<(String, Option<usize>)>, k: String, v: Option<usize>)
    ensures
        slots_view(final(t)@) == lhm_insert(slots_view(old(t)@), k@, v),
{
    let ghost before = slots_view(t@);
    proof {
        lemma_find_key_bounds(before, k@);
    }
    match slot_find(t, &k) {
        Some(i) => {
            t.remove(i);
            assert(slots_view(t@) =~= before.remove(i as int));
        },
        None => {},
    }
    let ghost mid = slots_view(t@);
    t.push((k, v));
    assert(slots_view(t@) =~= mid.push((k@, v)));
}

/// The label table once every label marked among the first `k` entries is
/// placed at its mark, later marks replacing earlier ones; `marks[i]` is the
/// label that entry `i` marks, if any.
pub open spec fn place_labels(
    t: Seq<(Seq<char>, Option<usize>)>,
    marks: Seq<Option<Seq<char>>>,
    k: int,
) -> Seq<(Seq<char>, Option<usize>)>
    decreases k,
{
    if k <= 0 {
        t
    } else {
        let t1 = place_labels(t, marks, k - 1);
        match marks[k - 1] {
            Some(l) => lhm_insert(t1, l, Some((k - 1) as usize)),
            None => t1,
        }
    }
}

/// The position label `l` has in table `t`.
pub open spec fn label_pos(t: Seq<(Seq<char>, Option<usize>)>, l: Seq<char>) -> usize {
    lhm_get(t, l).unwrap().unwrap()
}

/// Whether label `l` has a position in table `t`.
pub open spec fn placed(t: Seq<(Seq<char>, Option<usize>)>, l: Seq<char>) -> bool {
    lhm_get(t, l) matches Some(Some(_))
}

/// The position of the last mark of label `l` among the first `k` entries,
/// or -1 when there is none.
pub open spec fn last_mark(marks: Seq<Option<Seq<char>>>, l: Seq<char>, k: int) -> int
    decreases k,
{
    if k <= 0 {
        -1
    } else if marks[k - 1] == Some(l) {
        k - 1
    } else {
        last_mark(marks, l, k - 1)
    }
}

/// Once the marks are placed, a label marked in the code is at its last
/// mark, and a label never marked keeps the place it had.
pub proof fn lemma_label_at_last_mark(
    t: Seq<(Seq<char>, Option<usize>)>,
    marks: Seq<Option<Seq<char>>>,
    l: Seq<char>,
    k: int,
)
    requires
        0 <= k <= marks.len(),
        marks.len() <= usize::MAX,
    ensures
        last_mark(marks, l, k) >= 0 ==> lhm_get(place_labels(t, marks, k), l) == Some(
            Some(last_mark(marks, l, k) as usize),
        ),
        last_mark(marks, l, k) < 0 ==> lhm_get(place_labels(t, marks, k), l) == lhm_get(t, l),
    decreases k,
{
    if k > 0 {
        lemma_label_at_last_mark(t, marks, l, k - 1);
        let t1 = place_labels(t, marks, k - 1);
        match marks[k - 1] {
            Some(m) => {
                if m == l {
                    lemma_insert_finds(t1, l, Some((k - 1) as usize));
                } else {
                    lemma_insert_other(t1, m, Some((k - 1) as usize), l);
                }
            },
            None => {},
        }
    }
}

} // verus!

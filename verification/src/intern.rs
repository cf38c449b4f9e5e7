//! Tables that intern values: each distinct value gets the id of its place
//! in the table, and a new value goes to the end.

use vstd::prelude::*;

verus! {

/// No value occurs twice in the table.
pub open spec fn distinct_entries<T>(t: Seq<T>) -> bool {
    forall|i: int, j: int| 0 <= i < j < t.len() ==> t[i] != t[j]
}

/// The table and the id after interning `g`: a value already in the table
/// keeps its id, a new one goes to the end and takes the next id.
pub open spec fn interned<T>(t: Seq<T>, g: T) -> (Seq<T>, int) {
    if exists|i: int| 0 <= i < t.len() && t[i] == g {
        (t, choose|i: int| 0 <= i < t.len() && t[i] == g)
    } else {
        (t.push(g), t.len() as int)
    }
}

/// Interning a value twice gives the same id, and the second time leaves
/// the table as it is; the table keeps its values distinct, and the id is
/// the place of the value.
pub proof fn lemma_intern_twice<T>(t: Seq<T>, g: T)
    requires
        distinct_entries(t),
    ensures
        distinct_entries(interned(t, g).0),
        interned(interned(t, g).0, g) == interned(t, g),
        0 <= interned(t, g).1 < interned(t, g).0.len(),
        interned(t, g).0[interned(t, g).1] == g,
{
    if !(exists|i: int| 0 <= i < t.len() && t[i] == g) {
        let t2 = t.push(g);
        assert(t2[t.len() as int] == g);
        assert(distinct_entries(t2)) by {
            assert forall|i: int, j: int| 0 <= i < j < t2.len() implies t2[i] != t2[j] by {
                if j == t.len() {
                    assert(t2[i] == t[i]);
                } else {
                    assert(t2[i] == t[i] && t2[j] == t[j]);
                }
            }
        }
        let c = choose|i: int| 0 <= i < t2.len() && t2[i] == g;
        assert(c == t.len() as int);
    }
}

/// Where a value is found in a table with distinct values, interning gives
/// that place and leaves the table.
pub proof fn lemma_intern_found<T>(t: Seq<T>, g: T, i: int)
    requires
        distinct_entries(t),
        0 <= i < t.len(),
        t[i] == g,
    ensures
        interned(t, g) == (t, i),
{
    let c = choose|j: int| 0 <= j < t.len() && t[j] == g;
    assert(t[c] == t[i]);
}

} // verus!

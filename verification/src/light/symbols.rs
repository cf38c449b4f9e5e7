//! The table of interned identifiers that instructions name.

use vstd::prelude::*;
use crate::light::opcodes::Name;

verus! {

/// Interned identifiers; a `Name` is an index into this table.
pub struct Symbols {
    pub names: Vec<String>,
}

impl View for Symbols {
    type V = Seq<Seq<char>>;

    open spec fn view(&self) -> Seq<Seq<char>> {
        self.names@.map_values(|s: String| s@)
    }
}

/// The first position of `x` in `t`, or -1 when it is not there.
pub open spec fn position(t: Seq<Seq<char>>, x: Seq<char>) -> int
    decreases t.len(),
{
    if t.len() == 0 {
        -1
    } else {
        let p = position(t.drop_last(), x);
        if p >= 0 {
            p
        } else if t.last() == x {
            t.len() - 1
        } else {
            -1
        }
    }
}

/// The table after interning `x`: unchanged when `x` is there, else `x`
/// appended.
pub open spec fn interned(t: Seq<Seq<char>>, x: Seq<char>) -> Seq<Seq<char>> {
    if position(t, x) >= 0 {
        t
    } else {
        t.push(x)
    }
}

/// The index `x` has once interned into `t`.
pub open spec fn intern_index(t: Seq<Seq<char>>, x: Seq<char>) -> int {
    if position(t, x) >= 0 {
        position(t, x)
    } else {
        t.len() as int
    }
}

pub proof fn lemma_position(t: Seq<Seq<char>>, x: Seq<char>)
    ensures
        -1 <= position(t, x) < t.len(),
        position(t, x) >= 0 ==> t[position(t, x)] == x,
        position(t, x) >= 0 ==> forall|i: int| 0 <= i < position(t, x) ==> t[i] != x,
        position(t, x) < 0 ==> forall|i: int| 0 <= i < t.len() ==> t[i] != x,
    decreases t.len(),
{
    if t.len() > 0 {
        lemma_position(t.drop_last(), x);
        assert forall|i: int| 0 <= i < t.len() - 1 implies t.drop_last()[i] == t[i] by {}
    }
}

/// Interning an identifier a second time gives it the same name and leaves
/// the table as it is.
pub proof fn lemma_intern_twice(t: Seq<Seq<char>>, x: Seq<char>)
    ensures
        interned(interned(t, x), x) == interned(t, x),
        intern_index(interned(t, x), x) == intern_index(t, x),
{
    lemma_position(t, x);
    let t1 = interned(t, x);
    lemma_position(t1, x);
    if position(t, x) < 0 {
        assert(t1[t.len() as int] == x);
        assert forall|i: int| 0 <= i < t.len() implies t1[i] != x by {
            assert(t1[i] == t[i]);
        }
        assert(position(t1, x) == t.len()) by {
            assert(t1.drop_last() =~= t);
        }
    }
}

impl Symbols {
    /// An empty table.
    pub fn new() -> (r: Symbols)
        ensures
            r@ == Seq::<Seq<char>>::empty(),
    {
        let r = Symbols { names: Vec::new() };
        assert(r@ =~= Seq::<Seq<char>>::empty());
        r
    }

    /// The name of `x`: its index in the table, where it is appended unless
    /// already there.
    pub fn intern(&mut self, x: &str) -> (n: Name)
        requires
            old(self)@.len() < u32::MAX,
        ensures
            final(self)@ == interned(old(self)@, x@),
            n.0 == intern_index(old(self)@, x@),
    {
        let key = x.to_owned();
        let mut i: usize = 0;
        proof {
            lemma_position(self@, x@);
        }
        while i < self.names.len()
            invariant
                key@ == x@,
                i <= self.names@.len(),
                self@.len() == self.names@.len(),
                self@.len() < u32::MAX,
                forall|j: int| 0 <= j < i ==> #[trigger] self@[j] != x@,
                -1 <= position(self@, x@) < self@.len(),
                position(self@, x@) >= 0 ==> self@[position(self@, x@)] == x@ && forall|j: int|
                    0 <= j < position(self@, x@) ==> self@[j] != x@,
                position(self@, x@) < 0 ==> forall|j: int| 0 <= j < self@.len() ==> self@[j] != x@,
            decreases self.names@.len() - i,
        {
            assert(self@[i as int] == self.names@[i as int]@);
            if self.names[i] == key {
                return Name(i as u32);
            }
            i = i + 1;
        }
        let ghost before = self@;
        self.names.push(key);
        assert(self@ =~= before.push(x@));
        Name(i as u32)
    }

    /// The identifier a name stands for.
    pub fn str(&self, n: Name) -> (s: String)
        requires
            (n.0 as int) < self@.len(),
        ensures
            s@ == self@[n.0 as int],
    {
        self.names[n.0 as usize].clone()
    }
}

} // verus!

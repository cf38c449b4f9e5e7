//! Address arithmetic of the copying collector.

use vstd::prelude::*;

verus! {

/// `value` rounded up to the next multiple of `align`: the least multiple of
/// `align` that is at least `value`; `value` itself when `align` is 0.
pub fn align_usize(value: usize, align: usize) -> (r: usize)
    requires
        align == 0 || value + align <= usize::MAX,
    ensures
        align == 0 ==> r == value,
        align > 0 ==> r % align == 0 && value <= r < value + align,
{
    if align == 0 {
        return value;
    }
    let q = (value + align - 1) / align;
    proof {
        assert(q * align <= value + align - 1) by (nonlinear_arith)
            requires
                align > 0,
                q == (value + align - 1) / (align as int),
        ;
        assert(q * align >= value && q * align < value + align && (q * align) % (align as int) == 0)
            by (nonlinear_arith)
            requires
                align > 0,
                q == (value + align - 1) / (align as int),
        ;
    }
    q * align
}

} // verus!

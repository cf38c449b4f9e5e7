//! Helpers for native functions that read the machine's values.

use vstd::prelude::*;
use vstd::arithmetic::power2::{lemma2_to64, lemma2_to64_rest, lemma_pow2_strictly_increases, pow2};
use vstd::arithmetic::div_mod::lemma_basic_div;
use vstd::arithmetic::mul::lemma_mul_inequality;
use vstd::bits::{lemma_u64_shl_is_mul, lemma_u64_shr_is_div};
use crate::vm::value::Value;

verus! {

/// The magnitude of a finite double, truncated toward zero, from its biased
/// exponent `e` and its fraction `m`: `m * 2^-1074` when `e` is 0, else
/// `(2^52 + m) * 2^(e - 1075)`.
pub open spec fn trunc_magnitude(e: int, m: int) -> int {
    if e == 0 {
        m / pow2(1074) as int
    } else if e >= 1075 {
        (m + pow2(52)) * pow2((e - 1075) as nat)
    } else {
        (m + pow2(52)) / pow2((1075 - e) as nat) as int
    }
}

/// The double with IEEE-754 bit pattern `bits` converted to an `i64` the way
/// Rust's `as` does: truncated toward zero, saturated at the ends of the
/// `i64` range, infinities saturated, NaN giving 0.
pub open spec fn f64_to_i64(bits: u64) -> i64 {
    let neg = (bits >> 63u64) == 1;
    let e = ((bits >> 52u64) & 0x7ff) as int;
    let m = (bits & 0xf_ffff_ffff_ffff) as int;
    if e == 0x7ff {
        if m != 0 {
            0
        } else if neg {
            i64::MIN
        } else {
            i64::MAX
        }
    } else {
        let v = if neg {
            -trunc_magnitude(e, m)
        } else {
            trunc_magnitude(e, m)
        };
        if v > i64::MAX {
            i64::MAX
        } else if v < i64::MIN {
            i64::MIN
        } else {
            v as i64
        }
    }
}

/// The double with bit pattern `bits` converted to an `i64` as `as` does.
pub(crate) fn float_bits_to_int(bits: u64) -> (r: i64)
    ensures
        r == f64_to_i64(bits),
{
    let neg = (bits >> 63) == 1;
    let e = (bits >> 52) & 0x7ff;
    let m = bits & 0xf_ffff_ffff_ffff;
    proof {
        lemma2_to64();
        lemma2_to64_rest();
        assert(e <= 0x7ff) by (bit_vector)
            requires
                e == (bits >> 52) & 0x7ff,
        ;
        assert(m < 0x10_0000_0000_0000) by (bit_vector)
            requires
                m == bits & 0xf_ffff_ffff_ffff,
        ;
    }
    if e == 0x7ff {
        if m != 0 {
            0
        } else if neg {
            i64::MIN
        } else {
            i64::MAX
        }
    } else if e < 1023 {
        proof {
            let k: nat = (1075 - e) as nat;
            if k > 53 {
                lemma_pow2_strictly_increases(53, k);
            }
            if e == 0 {
                lemma_pow2_strictly_increases(53, 1074);
                lemma_basic_div(m as int, pow2(1074) as int);
            } else {
                lemma_basic_div(m + pow2(52), pow2(k) as int);
            }
        }
        0
    } else if e >= 1086 {
        proof {
            let k: nat = (e - 1075) as nat;
            if k > 11 {
                lemma_pow2_strictly_increases(11, k);
            }
            lemma_mul_inequality(pow2(11) as int, pow2(k) as int, m + pow2(52));
            assert((m + pow2(52)) * pow2(11) >= pow2(52) * pow2(11)) by (nonlinear_arith)
                requires
                    m >= 0,
            ;
            assert(pow2(52) * pow2(11) == pow2(63));
        }
        if neg {
            i64::MIN
        } else {
            i64::MAX
        }
    } else {
        let sig = m | 0x10_0000_0000_0000;
        proof {
            assert(sig == m + 0x10_0000_0000_0000) by (bit_vector)
                requires
                    m < 0x10_0000_0000_0000,
                    sig == m | 0x10_0000_0000_0000,
            ;
        }
        let mag: u64 = if e >= 1075 {
            let k = e - 1075;
            proof {
                if k < 10 {
                    lemma_pow2_strictly_increases(k as nat, 10);
                }
                lemma_mul_inequality(pow2(k as nat) as int, pow2(10) as int, sig as int);
                assert(sig * pow2(10) < pow2(63)) by (nonlinear_arith)
                    requires
                        sig < 0x20_0000_0000_0000,
                        pow2(10) == 1024,
                        pow2(63) == 0x8000_0000_0000_0000,
                ;
                lemma_u64_shl_is_mul(sig, k);
            }
            sig << k
        } else {
            let k = 1075 - e;
            proof {
                lemma_u64_shr_is_div(sig, k);
                lemma_pow2_strictly_increases(0, k as nat);
                assert(sig as nat / pow2(k as nat) <= sig) by (nonlinear_arith)
                    requires
                        pow2(k as nat) >= 1,
                ;
            }
            sig >> k
        };
        proof {
            assert(mag < 0x8000_0000_0000_0000);
        }
        if neg {
            -(mag as i64)
        } else {
            mag as i64
        }
    }
}

/// The integer a value stands for: an integer itself, a float truncated
/// toward zero and saturated as `as` does.
pub fn val_as_int(val: &Value) -> (r: i64)
    requires
        val is Int || val is Float,
    ensures
        match val {
            Value::Int(i) => r == *i,
            Value::Float(bits) => r == f64_to_i64(*bits),
            _ => false,
        },
{
    match val {
        Value::Int(i) => *i,
        Value::Float(bits) => float_bits_to_int(*bits),
        _ => 0,
    }
}

} // verus!

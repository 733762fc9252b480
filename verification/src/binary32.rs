//! IEEE 754 binary32 values held by their bit patterns.
//!
//! Learning values, the exploration rate and random draws are binary32
//! numbers. The library keeps each one as its exact 32-bit encoding and
//! performs on it only what IEEE 754 defines on encodings: classification
//! and ordering. Arithmetic on these values is done by the caller.
use vstd::arithmetic::power2::{lemma2_to64, lemma_pow2_pos, lemma_pow2_strictly_increases, lemma_pow2_unfold, pow2};
use vstd::prelude::*;

verus! {

/// Encoding of `+0.0`.
pub const POSITIVE_ZERO: u32 = 0;

/// Encoding of negative infinity.
pub const NEGATIVE_INFINITY: u32 = 0xFF80_0000;

/// Encoding of `1.0`.
pub const ONE: u32 = 0x3F80_0000;

/// The sign bit.
pub const SIGN_BIT: u32 = 0x8000_0000;

/// Encoding of positive infinity: the largest magnitude that is not a NaN.
pub const INFINITY_MAGNITUDE: u32 = 0x7F80_0000;

/// The encoding without its sign bit.
pub open spec fn magnitude(b: u32) -> int {
    (b % SIGN_BIT) as int
}

/// The sign bit is set.
pub open spec fn is_negative(b: u32) -> bool {
    b >= SIGN_BIT
}

/// All exponent bits set and a nonzero fraction.
pub open spec fn is_nan(b: u32) -> bool {
    magnitude(b) > INFINITY_MAGNITUDE
}

/// Position of a non-NaN value on the extended real line: for encodings
/// of the same sign a larger magnitude is a larger absolute value, and both
/// zeros sit at 0.
pub open spec fn rank(b: u32) -> int {
    if is_negative(b) {
        -magnitude(b)
    } else {
        magnitude(b)
    }
}

/// The IEEE 754 `<` relation: false as soon as one side is a NaN.
pub open spec fn lt(a: u32, b: u32) -> bool {
    !is_nan(a) && !is_nan(b) && rank(a) < rank(b)
}


/// maxNum: a NaN operand yields the other operand; otherwise the larger one,
/// and on a tie (the two zeros, or equal encodings) the first.
pub open spec fn max_num(a: u32, b: u32) -> u32 {
    if is_nan(a) {
        b
    } else if is_nan(b) {
        a
    } else if rank(a) < rank(b) {
        b
    } else {
        a
    }
}

/// Tells whether `b` encodes a NaN.
pub fn nan(b: u32) -> (r: bool)
    ensures
        r == is_nan(b),
{
    b % SIGN_BIT > INFINITY_MAGNITUDE
}

/// The rank of `b` as a signed integer.
pub fn rank_of(b: u32) -> (r: i64)
    ensures
        r == rank(b),
{
    let m = (b % SIGN_BIT) as i64;
    if b >= SIGN_BIT {
        -m
    } else {
        m
    }
}

/// `a < b` as IEEE 754 compares them.
pub fn less_than(a: u32, b: u32) -> (r: bool)
    ensures
        r == lt(a, b),
{
    !nan(a) && !nan(b) && rank_of(a) < rank_of(b)
}

/// maxNum of the two values, NaNs ignored.
pub fn max(a: u32, b: u32) -> (r: u32)
    ensures
        r == max_num(a, b),
        !is_nan(a) || !is_nan(b) ==> !is_nan(r),
        !is_nan(a) ==> rank(a) <= rank(r),
        !is_nan(b) ==> rank(b) <= rank(r),
        r == a || r == b,
{
    if nan(a) {
        b
    } else if nan(b) {
        a
    } else if rank_of(a) < rank_of(b) {
        b
    } else {
        a
    }
}

/// `v` brought into `[lo, hi]`: `lo` below it, `hi` above it, `v` itself
/// in between, and `keep` when `v` is a NaN.
pub open spec fn clamped(v: u32, lo: u32, hi: u32, keep: u32) -> u32 {
    if is_nan(v) {
        keep
    } else if lt(v, lo) {
        lo
    } else if lt(hi, v) {
        hi
    } else {
        v
    }
}

/// `v` brought into `[lo, hi]`, or `keep` when `v` is a NaN.
pub fn clamp(v: u32, lo: u32, hi: u32, keep: u32) -> (r: u32)
    ensures
        r == clamped(v, lo, hi, keep),
{
    if nan(v) {
        keep
    } else if less_than(v, lo) {
        lo
    } else if less_than(hi, v) {
        hi
    } else {
        v
    }
}

/// Number of fraction bits.
pub const FRACTION_SPAN: u32 = 0x80_0000;

/// The biased exponent field of a magnitude.
pub open spec fn exponent_of(m: nat) -> nat {
    m / (FRACTION_SPAN as nat)
}

/// The fraction field of a magnitude.
pub open spec fn fraction_of(m: nat) -> nat {
    m % (FRACTION_SPAN as nat)
}

/// The absolute value that a finite magnitude `m` denotes, in units of the
/// smallest subnormal, 2^-149: a subnormal (exponent field 0) is its
/// fraction; a normal number with exponent field `e` is `(2^23 + fraction)`
/// times `2^(e - 1)`.
pub open spec fn units_of(m: nat) -> nat {
    if exponent_of(m) == 0 {
        fraction_of(m)
    } else {
        ((FRACTION_SPAN as nat) + fraction_of(m)) * pow2((exponent_of(m) - 1) as nat)
    }
}

/// The encoding is of a finite number: neither an infinity nor a NaN.
pub open spec fn is_finite(b: u32) -> bool {
    magnitude(b) < INFINITY_MAGNITUDE
}

/// The real number a finite encoding denotes, in units of 2^-149.
pub open spec fn value_units(b: u32) -> int {
    if is_negative(b) {
        -(units_of(magnitude(b) as nat) as int)
    } else {
        units_of(magnitude(b) as nat) as int
    }
}

/// Where a finite magnitude's value lies among the powers of two.
proof fn lemma_units_bounds(m: nat)
    requires
        m < INFINITY_MAGNITUDE,
    ensures
        exponent_of(m) == 0 ==> units_of(m) < FRACTION_SPAN,
        exponent_of(m) > 0 ==> (FRACTION_SPAN as nat) * pow2((exponent_of(m) - 1) as nat) <= units_of(m),
        exponent_of(m) > 0 ==> units_of(m) < (FRACTION_SPAN as nat) * pow2(exponent_of(m)),
{
    let e = exponent_of(m);
    let f = fraction_of(m);
    if e > 0 {
        let p = pow2((e - 1) as nat);
        lemma_pow2_pos((e - 1) as nat);
        lemma_pow2_unfold(e);
        assert((FRACTION_SPAN as nat) * p <= ((FRACTION_SPAN as nat) + f) * p) by (nonlinear_arith)
            requires
                p > 0,
        ;
        assert(((FRACTION_SPAN as nat) + f) * p < (FRACTION_SPAN as nat) * (2 * p)) by (nonlinear_arith)
            requires
                p > 0,
                f < FRACTION_SPAN,
        ;
    }
}

/// Larger finite magnitudes denote larger absolute values.
proof fn lemma_units_strictly_increase(m1: nat, m2: nat)
    requires
        m1 < m2 < INFINITY_MAGNITUDE,
    ensures
        units_of(m1) < units_of(m2),
{
    lemma_units_bounds(m1);
    lemma_units_bounds(m2);
    let e1 = exponent_of(m1);
    let e2 = exponent_of(m2);
    assert(e1 <= e2);
    lemma2_to64();
    if e1 < e2 {
        if e1 < (e2 - 1) as nat {
            lemma_pow2_strictly_increases(e1, (e2 - 1) as nat);
        }
        if e1 > 0 {
            assert((FRACTION_SPAN as nat) * pow2(e1) <= (FRACTION_SPAN as nat) * pow2((e2 - 1) as nat)) by (nonlinear_arith)
                requires
                    pow2(e1) <= pow2((e2 - 1) as nat),
            ;
        } else {
            lemma_pow2_pos((e2 - 1) as nat);
            assert((FRACTION_SPAN as nat) <= (FRACTION_SPAN as nat) * pow2((e2 - 1) as nat)) by (nonlinear_arith)
                requires
                    pow2((e2 - 1) as nat) > 0,
            ;
        }
    } else {
        assert(fraction_of(m1) < fraction_of(m2));
        if e1 > 0 {
            let p = pow2((e1 - 1) as nat);
            lemma_pow2_pos((e1 - 1) as nat);
            let f1 = fraction_of(m1);
            let f2 = fraction_of(m2);
            assert(((FRACTION_SPAN as nat) + f1) * p < ((FRACTION_SPAN as nat) + f2) * p) by (nonlinear_arith)
                requires
                    p > 0,
                    f1 < f2,
            ;
        }
    }
}

/// `rank` orders finite numbers as the reals they denote: for any two
/// finite encodings, the first ranks below the second exactly when its value
/// is smaller, and they rank equal exactly when their values are equal.
pub proof fn lemma_rank_orders_by_value(a: u32, b: u32)
    requires
        is_finite(a),
        is_finite(b),
    ensures
        rank(a) < rank(b) <==> value_units(a) < value_units(b),
        rank(a) == rank(b) <==> value_units(a) == value_units(b),
{
    let ma = magnitude(a) as nat;
    let mb = magnitude(b) as nat;
    lemma2_to64();
    assert(units_of(0) == 0);
    if 0 < ma {
        lemma_units_strictly_increase(0, ma);
    }
    if 0 < mb {
        lemma_units_strictly_increase(0, mb);
    }
    if ma < mb {
        lemma_units_strictly_increase(ma, mb);
    } else if mb < ma {
        lemma_units_strictly_increase(mb, ma);
    }
}

/// Infinities rank beyond every finite number: negative infinity below,
/// positive infinity above.
pub proof fn lemma_rank_infinities(b: u32)
    requires
        is_finite(b),
    ensures
        rank(NEGATIVE_INFINITY) < rank(b) < rank(INFINITY_MAGNITUDE),
{
}

} // verus!

//! Checked 128-bit arithmetic with 256-bit intermediates.
//!
//! Pool pricing multiplies two 128-bit amounts before dividing, and the first
//! deposit is priced by an integer square root of such a product, so the
//! intermediate values need twice the width of an asset amount. This module
//! provides the double-width product, the floored ratio `a * b / c`, and the
//! floored square root, each with an exact contract.

use vstd::arithmetic::div_mod::{
    lemma_fundamental_div_mod, lemma_fundamental_div_mod_converse_div,
};
use vstd::arithmetic::mul::lemma_mul_upper_bound;
use vstd::prelude::*;

verus! {

/// 2^64, the base of one half of a 128-bit value.
pub const HALF_BASE: u128 = 0x1_0000_0000_0000_0000;

/// 2^128 as a mathematical integer, the weight of the upper half of a
/// double-width value.
pub open spec fn full_base() -> int {
    0x1_0000_0000_0000_0000_0000_0000_0000_0000int
}

/// An unsigned 256-bit value, stored as two 128-bit halves.
#[derive(Clone, Copy, Debug, PartialEq, Eq, Structural)]
pub struct Wide {
    pub hi: u128,
    pub lo: u128,
}

impl Wide {
    /// The mathematical integer this double-width value stands for.
    pub open spec fn value(self) -> int {
        self.hi * full_base() + self.lo
    }
}

/// `r` is the floored integer square root of `n`.
pub open spec fn is_isqrt(r: int, n: int) -> bool {
    &&& r * r <= n
    &&& n < (r + 1) * (r + 1)
}

/// The floored square root is unique: two values that both satisfy
/// `is_isqrt` for the same radicand are equal.
pub proof fn lemma_isqrt_unique(r1: int, r2: int, n: int)
    by (nonlinear_arith)
    requires
        r1 >= 0,
        r2 >= 0,
        is_isqrt(r1, n),
        is_isqrt(r2, n),
    ensures
        r1 == r2,
{
}

/// Recomposition of a schoolbook product of two values split into halves:
/// the carry bookkeeping below matches the exact product.
proof fn lemma_wide_mul_recompose(
    ah: int,
    al: int,
    bh: int,
    bl: int,
    llq: int,
    llr: int,
    lhq: int,
    lhr: int,
    hlq: int,
    hlr: int,
    hh: int,
    midq: int,
    midr: int,
)
    by (nonlinear_arith)
    requires
        al * bl == llq * 0x1_0000_0000_0000_0000 + llr,
        al * bh == lhq * 0x1_0000_0000_0000_0000 + lhr,
        ah * bl == hlq * 0x1_0000_0000_0000_0000 + hlr,
        hh == ah * bh,
        llq + lhr + hlr == midq * 0x1_0000_0000_0000_0000 + midr,
    ensures
        (hh + lhq + hlq + midq) * (0x1_0000_0000_0000_0000 * 0x1_0000_0000_0000_0000) + (llr
            + midr * 0x1_0000_0000_0000_0000) == (ah * 0x1_0000_0000_0000_0000 + al) * (bh
            * 0x1_0000_0000_0000_0000 + bl),
{
}

/// The exact double-width product of two 128-bit values.
pub fn mul_wide(a: u128, b: u128) -> (r: Wide)
    ensures
        r.value() == a * b,
{
    let ah = a / HALF_BASE;
    let al = a % HALF_BASE;
    let bh = b / HALF_BASE;
    let bl = b % HALF_BASE;
    proof {
        lemma_fundamental_div_mod(a as int, HALF_BASE as int);
        lemma_fundamental_div_mod(b as int, HALF_BASE as int);
        lemma_mul_upper_bound(al as int, HALF_BASE - 1, bl as int, HALF_BASE - 1);
        lemma_mul_upper_bound(al as int, HALF_BASE - 1, bh as int, HALF_BASE - 1);
        lemma_mul_upper_bound(ah as int, HALF_BASE - 1, bl as int, HALF_BASE - 1);
        lemma_mul_upper_bound(ah as int, HALF_BASE - 1, bh as int, HALF_BASE - 1);
    }
    let ll = al * bl;
    let lh = al * bh;
    let hl = ah * bl;
    let hh = ah * bh;
    let mid = ll / HALF_BASE + lh % HALF_BASE + hl % HALF_BASE;
    let lo = ll % HALF_BASE + (mid % HALF_BASE) * HALF_BASE;
    let hi = hh + lh / HALF_BASE + hl / HALF_BASE + mid / HALF_BASE;
    proof {
        lemma_fundamental_div_mod(ll as int, HALF_BASE as int);
        lemma_fundamental_div_mod(lh as int, HALF_BASE as int);
        lemma_fundamental_div_mod(hl as int, HALF_BASE as int);
        lemma_fundamental_div_mod(mid as int, HALF_BASE as int);
        lemma_wide_mul_recompose(
            ah as int,
            al as int,
            bh as int,
            bl as int,
            ll as int / HALF_BASE as int,
            ll as int % HALF_BASE as int,
            lh as int / HALF_BASE as int,
            lh as int % HALF_BASE as int,
            hl as int / HALF_BASE as int,
            hl as int % HALF_BASE as int,
            hh as int,
            mid as int / HALF_BASE as int,
            mid as int % HALF_BASE as int,
        );
    }
    Wide { hi, lo }
}

/// Whether one double-width value is at most another, decided on the halves.
pub fn wide_le(a: Wide, b: Wide) -> (r: bool)
    ensures
        r == (a.value() <= b.value()),
{
    a.hi < b.hi || (a.hi == b.hi && a.lo <= b.lo)
}

/// The floored square root of a double-width value. Any 256-bit radicand has
/// its root below 2^128, so the result always fits.
pub fn isqrt_wide(n: Wide) -> (r: u128)
    ensures
        is_isqrt(r as int, n.value()),
{
    let mut lo: u128 = 0;
    let mut hi: u128 = u128::MAX;
    proof {
        assert((u128::MAX + 1) * (u128::MAX + 1) > n.value()) by (nonlinear_arith)
            requires
                n.value() < full_base() * full_base(),
                u128::MAX + 1 == full_base(),
        ;
    }
    while lo < hi
        invariant
            lo <= hi,
            lo * lo <= n.value(),
            n.value() < (hi + 1) * (hi + 1),
        decreases hi - lo,
    {
        let mid = lo + (hi - lo) / 2 + 1;
        let sq = mul_wide(mid, mid);
        if wide_le(sq, n) {
            lo = mid;
        } else {
            proof {
                assert(n.value() < mid * mid ==> n.value() < ((mid - 1) + 1) * ((mid - 1) + 1));
            }
            hi = mid - 1;
        }
    }
    lo
}

/// Why a floored ratio fails: the divisor is zero, or the floored quotient
/// does not fit in 128 bits.
#[derive(Clone, Copy, Debug, PartialEq, Eq, Structural)]
pub enum CheckedMultiplyRatioError {
    DivideByZero,
    Overflow,
}

/// `floor(a * numerator / denominator)`, with the product taken at double
/// width so that only a zero divisor or an oversized quotient can fail.
pub fn checked_multiply_ratio(a: u128, numerator: u128, denominator: u128) -> (r: Result<
    u128,
    CheckedMultiplyRatioError,
>)
    ensures
        denominator == 0 ==> r == Err::<u128, _>(CheckedMultiplyRatioError::DivideByZero),
        denominator != 0 && a * numerator / denominator as int > u128::MAX ==> r == Err::<
            u128,
            _,
        >(CheckedMultiplyRatioError::Overflow),
        denominator != 0 && a * numerator / denominator as int <= u128::MAX ==> r == Ok::<
            _,
            CheckedMultiplyRatioError,
        >((a * numerator / denominator as int) as u128),
{
    if denominator == 0 {
        return Err(CheckedMultiplyRatioError::DivideByZero);
    }
    let n = mul_wide(a, numerator);
    if n.hi >= denominator {
        proof {
            assert(n.value() / denominator as int > u128::MAX) by (nonlinear_arith)
                requires
                    n.value() == n.hi * full_base() + n.lo,
                    n.hi >= denominator > 0,
                    n.lo >= 0,
                    full_base() == u128::MAX + 1,
            ;
        }
        return Err(CheckedMultiplyRatioError::Overflow);
    }
    proof {
        assert(n.value() < denominator * (u128::MAX + 1)) by (nonlinear_arith)
            requires
                n.value() == n.hi * full_base() + n.lo,
                n.hi < denominator,
                n.lo <= u128::MAX,
                full_base() == u128::MAX + 1,
        ;
    }
    let mut lo: u128 = 0;
    let mut hi: u128 = u128::MAX;
    while lo < hi
        invariant
            lo <= hi,
            lo * denominator <= n.value(),
            n.value() < (hi + 1) * denominator,
            denominator > 0,
            n.value() == a * numerator,
        decreases hi - lo,
    {
        let mid = lo + (hi - lo) / 2 + 1;
        let prod = mul_wide(mid, denominator);
        if wide_le(prod, n) {
            lo = mid;
        } else {
            proof {
                assert(n.value() < mid * denominator ==> n.value() < ((mid - 1) + 1)
                    * denominator);
            }
            hi = mid - 1;
        }
    }
    proof {
        let rem = n.value() - lo as int * denominator as int;
        assert(0 <= rem && rem < denominator as int) by (nonlinear_arith)
            requires
                rem == n.value() - lo as int * denominator as int,
                lo * denominator <= n.value(),
                n.value() < (lo + 1) * denominator,
                denominator > 0,
        ;
        lemma_fundamental_div_mod_converse_div(
            n.value(),
            denominator as int,
            lo as int,
            n.value() - lo as int * denominator as int,
        );
    }
    Ok(lo)
}

/// 10 raised to `exp`, or `None` where that does not fit in 128 bits.
pub open spec fn pow10(exp: nat) -> nat
    decreases exp,
{
    if exp == 0 {
        1
    } else {
        10 * pow10((exp - 1) as nat)
    }
}

/// Powers of ten grow with the exponent.
pub proof fn lemma_pow10_increases(e1: nat, e2: nat)
    requires
        e1 <= e2,
    ensures
        pow10(e1) <= pow10(e2),
    decreases e2,
{
    if e1 < e2 {
        lemma_pow10_increases(e1, (e2 - 1) as nat);
        assert(pow10(e2) == 10 * pow10((e2 - 1) as nat));
        assert(pow10((e2 - 1) as nat) >= 1) by {
            lemma_pow10_at_least_one((e2 - 1) as nat);
        }
    }
}

/// Every power of ten is at least one.
pub proof fn lemma_pow10_at_least_one(e: nat)
    ensures
        pow10(e) >= 1,
    decreases e,
{
    if e > 0 {
        lemma_pow10_at_least_one((e - 1) as nat);
    }
}

/// 10^`exp` as a 128-bit value, or `None` where it would not fit.
pub fn checked_pow10(exp: u32) -> (r: Option<u128>)
    ensures
        match r {
            Some(p) => p == pow10(exp as nat),
            None => pow10(exp as nat) > u128::MAX,
        },
{
    let mut acc: u128 = 1;
    let mut i: u32 = 0;
    while i < exp
        invariant
            i <= exp,
            acc == pow10(i as nat),
        decreases exp - i,
    {
        let next = acc.checked_mul(10);
        match next {
            Some(v) => {
                acc = v;
                i = i + 1;
            },
            None => {
                proof {
                    lemma_pow10_increases((i + 1) as nat, exp as nat);
                }
                return None;
            },
        }
    }
    Some(acc)
}

/// The floored square root of a single 128-bit value.
pub fn isqrt_u128(n: u128) -> (r: u128)
    ensures
        is_isqrt(r as int, n as int),
{
    isqrt_wide(Wide { hi: 0, lo: n })
}

} // verus!

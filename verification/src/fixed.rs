//! Fixed-point scale shared by the color bridge.
//!
//! Channel fractions (hue, saturation, lightness, alpha in `[0, 1]`) are held
//! as integers scaled by `FX`.  `FX` is the least common multiple of 360, 100,
//! 255 and 1000, so converting a canonical color channel (degrees, percent,
//! 8-bit) or a palette stop (thousandths) into the scale is exact.

use vstd::prelude::*;

verus! {

/// Fixed-point denominator: lcm(360, 100, 255, 1000).
pub const FX: u32 = 153000;

/// `FX` squared.
pub const FX2: u64 = 23_409_000_000;

/// Twice `FX` cubed: the common denominator of the RGB channel numerators
/// of a fixed-point HSLA value.
pub const TWO_FX3: u64 = 7_163_154_000_000_000;

/// Rounded division: `a / b` to the nearest integer, halves rounding up.
pub open spec fn rdiv(a: int, b: int) -> int {
    (2 * a + b) / (2 * b)
}

/// Executable rounded division on `u64`.
pub fn rdiv64(a: u64, b: u64) -> (r: u64)
    requires
        1 <= b,
        2 * a + b <= u64::MAX,
        2 * b <= u64::MAX,
    ensures
        r == rdiv(a as int, b as int),
{
    (2 * a + b) / (2 * b)
}

/// `rdiv(a, b)` lands within half a unit of the exact quotient:
/// `2*b*rdiv(a, b)` is within `b` of `2*a`.
pub proof fn lemma_rdiv_bounds(a: int, b: int)
    requires
        0 <= a,
        1 <= b,
    ensures
        2 * b * rdiv(a, b) - b <= 2 * a,
        2 * a < 2 * b * rdiv(a, b) + b,
        0 <= rdiv(a, b),
{
    let q = (2 * a + b) / (2 * b);
    vstd::arithmetic::div_mod::lemma_fundamental_div_mod(2 * a + b, 2 * b);
    let r = (2 * a + b) % (2 * b);
    vstd::arithmetic::div_mod::lemma_mod_bound(2 * a + b, 2 * b);
    assert(2 * a + b == 2 * b * q + r);
    vstd::arithmetic::div_mod::lemma_div_pos_is_pos(2 * a + b, 2 * b);
}

/// An upper bound on the numerator gives an upper bound on the rounded
/// quotient: `a <= k * b` implies `rdiv(a, b) <= k`.
pub proof fn lemma_rdiv_le(a: int, b: int, k: int)
    requires
        0 <= a,
        1 <= b,
        0 <= k,
        a <= k * b,
    ensures
        rdiv(a, b) <= k,
{
    assert(2 * a + b <= 2 * (k * b) + b) by (nonlinear_arith)
        requires a <= k * b;
    vstd::arithmetic::div_mod::lemma_div_is_ordered(2 * a + b, 2 * (k * b) + b, 2 * b);
    assert(2 * (k * b) + b == k * (2 * b) + b) by (nonlinear_arith);
    vstd::arithmetic::div_mod::lemma_fundamental_div_mod_converse(
        k * (2 * b) + b, 2 * b, k, b);
}

/// Rounded division is invariant under scaling numerator and denominator by
/// a common positive factor.
pub proof fn lemma_rdiv_scale(c: int, a: int, b: int)
    requires
        1 <= c,
        1 <= b,
        0 <= a,
    ensures
        rdiv(c * a, c * b) == rdiv(a, b),
{
    let q = rdiv(a, b);
    vstd::arithmetic::div_mod::lemma_fundamental_div_mod(2 * a + b, 2 * b);
    vstd::arithmetic::div_mod::lemma_mod_bound(2 * a + b, 2 * b);
    let r = (2 * a + b) % (2 * b);
    assert(2 * (c * a) + c * b == q * (2 * (c * b)) + c * r) by (nonlinear_arith)
        requires 2 * a + b == 2 * b * q + r;
    assert(0 <= c * r < 2 * (c * b)) by (nonlinear_arith)
        requires 0 <= r < 2 * b, 1 <= c;
    vstd::arithmetic::div_mod::lemma_fundamental_div_mod_converse(
        2 * (c * a) + c * b, 2 * (c * b), q, c * r);
}

/// Exact multiples pass through `rdiv` unchanged.
pub proof fn lemma_rdiv_exact(k: int, b: int)
    requires
        1 <= b,
    ensures
        rdiv(k * b, b) == k,
{
    assert((2 * (k * b) + b) / (2 * b) == k) by (nonlinear_arith)
        requires 1 <= b;
}

} // verus!

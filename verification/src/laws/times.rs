//! Laws of timestamps: how seconds in floating point become microseconds.
use crate::time::clamped;
use crate::time::exponent_field;
use crate::time::fraction_field;
use crate::time::is_negative;
use crate::time::micros;
use crate::time::nearest_double;
use crate::time::round_half_even;
use crate::time::round_scaled;
use crate::time::scale;
use crate::time::significand;
use crate::time::spacing;
use vstd::arithmetic::power2::lemma_pow2_pos;
use vstd::arithmetic::power2::lemma_pow2_unfold;
use vstd::arithmetic::power2::pow2;
use vstd::prelude::*;

verus! {

/// The bits of a double with the given sign, exponent field and fraction field.
pub open spec fn double_bits(negative: bool, exponent: nat, fraction: nat) -> nat {
    (if negative {
        0x8000_0000_0000_0000nat
    } else {
        0nat
    }) + exponent * 0x10_0000_0000_0000 + fraction
}

/// A double is its sign, its exponent field and its fraction field.
pub proof fn doubles_are_taken_apart(bits: u64, negative: bool, exponent: nat, fraction: nat)
    requires
        exponent < 2048,
        fraction < 0x10_0000_0000_0000,
        bits == double_bits(negative, exponent, fraction),
    ensures
        is_negative(bits) == negative,
        exponent_field(bits) == exponent,
        fraction_field(bits) == fraction,
{
    let high: nat = if negative {
        2048
    } else {
        0
    };
    let q = (high + exponent) as nat;
    assert(bits == q * 0x10_0000_0000_0000 + fraction);
    vstd::arithmetic::div_mod::lemma_fundamental_div_mod_converse(
        bits as int,
        0x10_0000_0000_0000,
        q as int,
        fraction as int,
    );
}

/// `n` with a sign, as a 64-bit number: what is beyond the limits is the limit.
pub open spec fn limited(n: nat, negative: bool) -> int {
    if negative {
        if n <= 0x8000_0000_0000_0000 {
            -(n as int)
        } else {
            -0x8000_0000_0000_0000
        }
    } else {
        if n <= 0x7fff_ffff_ffff_ffff {
            n as int
        } else {
            0x7fff_ffff_ffff_ffff
        }
    }
}

/// The microseconds of a finite number of seconds are the product with a million, rounded to a
/// double and then to an integer, its sign kept and limited to 64 bits.
pub proof fn seconds_become_microseconds(bits: u64, negative: bool, exponent: nat, fraction: nat)
    requires
        exponent < 2047,
        fraction < 0x10_0000_0000_0000,
        bits == double_bits(negative, exponent, fraction),
    ensures
        ({
            let m = if exponent == 0 {
                fraction
            } else {
                0x10_0000_0000_0000 + fraction
            };
            let k = if exponent == 0 {
                -1074
            } else {
                exponent - 1075
            };
            micros(bits) == limited(round_scaled(nearest_double(m * 1_000_000), k), negative)
        }),
{
    doubles_are_taken_apart(bits, negative, exponent, fraction);
    assert(scale(bits) == if exponent == 0 {
        -1074
    } else {
        exponent - 1075
    });
    let n = round_scaled(nearest_double(significand(bits) * 1_000_000), scale(bits));
    assert(clamped(n, negative) == limited(n, negative));
}

/// What is no number counts as 0, and the infinities as the limits.
pub proof fn what_is_not_finite(bits: u64, negative: bool, fraction: nat)
    requires
        fraction < 0x10_0000_0000_0000,
        bits == double_bits(negative, 2047, fraction),
    ensures
        fraction != 0 ==> micros(bits) == 0,
        fraction == 0 && negative ==> micros(bits) == i64::MIN,
        fraction == 0 && !negative ==> micros(bits) == i64::MAX,
{
    doubles_are_taken_apart(bits, negative, 2047, fraction);
}

/// A negative time mirrors the positive one.
pub proof fn times_are_symmetric(bits: u64)
    requires
        bits < 0x7ff0_0000_0000_0000,
        micros(bits) < i64::MAX,
    ensures
        0 <= micros(bits),
        micros((bits + 0x8000_0000_0000_0000) as u64) == -micros(bits),
{
    let exponent = bits as nat / 0x10_0000_0000_0000;
    let fraction = bits as nat % 0x10_0000_0000_0000;
    let other = (bits + 0x8000_0000_0000_0000) as u64;
    seconds_become_microseconds(bits, false, exponent, fraction);
    seconds_become_microseconds(other, true, exponent, fraction);
}

/// Doubles hold 53 bits: around a number their spacing is the power of two that leaves so many.
pub proof fn doubles_hold_53_bits(p: nat)
    ensures
        spacing(p) >= 1,
        p < 0x20_0000_0000_0000 ==> spacing(p) == 1,
        p >= 0x20_0000_0000_0000 ==> spacing(p) == 2 * spacing(p / 2),
        p >= 0x20_0000_0000_0000 ==> 0x10_0000_0000_0000 * spacing(p) <= p < 0x20_0000_0000_0000
            * spacing(p),
    decreases p,
{
    if p >= 0x20_0000_0000_0000 {
        doubles_hold_53_bits(p / 2);
    }
}

/// The double nearest to a number is a double, and no more than half a spacing away; of two that
/// are as near it is the even one. A number of up to 53 bits is one itself.
pub proof fn the_nearest_double_is_near(p: nat)
    ensures
        nearest_double(p) % spacing(p) == 0,
        2 * (nearest_double(p) - p) <= spacing(p),
        2 * (p - nearest_double(p)) <= spacing(p),
        2 * (nearest_double(p) - p) == spacing(p) || 2 * (p - nearest_double(p)) == spacing(p)
            ==> (nearest_double(p) / spacing(p)) % 2 == 0,
        p < 0x20_0000_0000_0000 ==> nearest_double(p) == p,
{
    doubles_hold_53_bits(p);
    let d = spacing(p);
    let q = p / d;
    let r = p % d;
    let c = round_half_even(p, d);
    vstd::arithmetic::div_mod::lemma_fundamental_div_mod(p as int, d as int);
    vstd::arithmetic::div_mod::lemma_mod_bound(p as int, d as int);
    assert(d * q == q * d) by (nonlinear_arith);
    assert((q + 1) * d == q * d + d) by (nonlinear_arith);
    assert((c * d) % d == 0 && (c * d) / d == c) by (nonlinear_arith)
        requires
            d > 0,
            c >= 0,
    ;
    if d == 1 {
        assert(p % 1 == 0 && p / 1 == p);
        assert(p * 1 == p);
    }
    if c != q && 2 * r == d {
        assert(q % 2 == 1);
        assert((q + 1) % 2 == 0);
    }
}

/// Scaling by a power of two is exact upwards; downwards the result is the nearest integer,
/// halves away from zero.
pub proof fn scaling_rounds_to_the_nearest(n: nat, k: nat)
    ensures
        round_scaled(n, k as int) == n * pow2(k),
        k > 0 ==> 2 * (round_scaled(n, -(k as int)) * pow2(k)) <= 2 * n + pow2(k) < 2 * ((
        round_scaled(n, -(k as int)) + 1) * pow2(k)),
{
    if k > 0 {
        lemma_pow2_unfold(k);
        lemma_pow2_pos((k - 1) as nat);
        let half = pow2((k - 1) as nat);
        let d = pow2(k);
        let m = round_scaled(n, -(k as int));
        assert(m == (n + half) / d);
        vstd::arithmetic::div_mod::lemma_fundamental_div_mod((n + half) as int, d as int);
        vstd::arithmetic::div_mod::lemma_mod_bound((n + half) as int, d as int);
        assert(d * m == m * d) by (nonlinear_arith);
        assert((m + 1) * d == m * d + d) by (nonlinear_arith);
    }
}

} // verus!

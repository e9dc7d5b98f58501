//! Timestamps: from the parser's floating-point seconds to microseconds.
//!
//! The parser gives a route's time as an IEEE 754 double. It arrives here as its
//! 64 bits, and the conversion is stated on those: multiply by a million in
//! double precision, round to the nearest integer with halves away from zero, and
//! clamp to a signed 64-bit number.
use vstd::arithmetic::power2::lemma_pow2_pos;
use vstd::arithmetic::power2::lemma_pow2_unfold;
use vstd::arithmetic::power2::pow2;
use vstd::prelude::*;

verus! {

/// `2^52`, the weight of a double's implicit leading bit.
pub const LEADING_BIT: u64 = 0x10_0000_0000_0000;

/// `2^53`: a double holds the integers below it exactly.
pub const SIGNIFICANT: u128 = 0x20_0000_0000_0000;

/// The exponent field of infinities and NaNs.
pub const EXPONENT_MAX: u64 = 0x7ff;

/// The sign bit of a double.
pub open spec fn is_negative(bits: u64) -> bool {
    bits >= 0x8000_0000_0000_0000
}

/// The exponent field of a double.
pub open spec fn exponent_field(bits: u64) -> nat {
    ((bits as nat) / (LEADING_BIT as nat)) % 2048
}

/// The fraction field of a double.
pub open spec fn fraction_field(bits: u64) -> nat {
    (bits as nat) % (LEADING_BIT as nat)
}

/// The integer significand of a finite double.
pub open spec fn significand(bits: u64) -> nat {
    if exponent_field(bits) == 0 {
        fraction_field(bits)
    } else {
        fraction_field(bits) + LEADING_BIT as nat
    }
}

/// The power of two that a finite double's significand is scaled by.
pub open spec fn scale(bits: u64) -> int {
    if exponent_field(bits) == 0 {
        1 - 1075
    } else {
        exponent_field(bits) - 1075
    }
}

/// The spacing of doubles around the integer `p`.
pub open spec fn spacing(p: nat) -> nat
    decreases p,
{
    if p < SIGNIFICANT {
        1
    } else {
        2 * spacing(p / 2)
    }
}

/// `p / d` to the nearest integer, halves to the even one.
pub open spec fn round_half_even(p: nat, d: nat) -> nat {
    let q = p / d;
    let r = p % d;
    if 2 * r < d || (2 * r == d && q % 2 == 0) {
        q
    } else {
        q + 1
    }
}

/// The double nearest to the integer `p`, ties to even.
pub open spec fn nearest_double(p: nat) -> nat {
    round_half_even(p, spacing(p)) * spacing(p)
}

/// `n * 2^k` to the nearest integer, halves up.
pub open spec fn round_scaled(n: nat, k: int) -> nat {
    if k >= 0 {
        n * pow2(k as nat)
    } else {
        (n + pow2((-k - 1) as nat)) / pow2((-k) as nat)
    }
}

/// `magnitude` with a sign, clamped to a signed 64-bit number.
pub open spec fn clamped(magnitude: nat, negative: bool) -> i64 {
    if negative {
        if magnitude <= 0x8000_0000_0000_0000 {
            (-(magnitude as int)) as i64
        } else {
            i64::MIN
        }
    } else {
        if magnitude <= 0x7fff_ffff_ffff_ffff {
            magnitude as i64
        } else {
            i64::MAX
        }
    }
}

/// The microseconds in a number of seconds that is given as a double's bits.
pub open spec fn micros(bits: u64) -> i64 {
    if exponent_field(bits) == EXPONENT_MAX {
        if fraction_field(bits) != 0 {
            0
        } else if is_negative(bits) {
            i64::MIN
        } else {
            i64::MAX
        }
    } else {
        clamped(
            round_scaled(nearest_double(significand(bits) * 1_000_000), scale(bits)),
            is_negative(bits),
        )
    }
}

proof fn lemma_spacing_positive(p: nat)
    ensures
        spacing(p) > 0,
    decreases p,
{
    if p >= SIGNIFICANT {
        lemma_spacing_positive(p / 2);
    }
}

/// The spacing of doubles around `p`.
fn spacing_of(p: u128) -> (d: u128)
    requires
        p < 0x200_0000_0000_0000_0000,
    ensures
        d == spacing(p as nat),
        1 <= d <= 0x20_0000,
{
    let mut t: u128 = p;
    let mut d: u128 = 1;
    while t >= SIGNIFICANT
        invariant
            1 <= d <= 0x20_0000,
            d * spacing(t as nat) == spacing(p as nat),
            t * d <= p < 0x200_0000_0000_0000_0000,
        decreases t,
    {
        let half: u128 = t / 2;
        assert(half * (2 * d) <= t * d) by (nonlinear_arith)
            requires
                2 * half <= t,
                d >= 0,
        ;
        assert(d * 0x20_0000_0000_0000 <= t * d) by (nonlinear_arith)
            requires
                t >= 0x20_0000_0000_0000,
                d >= 0,
        ;
        assert(d * (2 * spacing(half as nat)) == (2 * d) * spacing(half as nat))
            by (nonlinear_arith);
        t = half;
        d = 2 * d;
    }
    assert(d * spacing(t as nat) == d) by (nonlinear_arith)
        requires
            spacing(t as nat) == 1,
    ;
    d
}

/// The double nearest to the integer `p`.
fn nearest(p: u128) -> (n: u128)
    requires
        p < 0x200_0000_0000_0000_0000,
    ensures
        n == nearest_double(p as nat),
        n < 0x400_0000_0000_0000_0000,
{
    let d: u128 = spacing_of(p);
    let q: u128 = p / d;
    let r: u128 = p % d;
    assert(q * d + r == p && 0 <= r < d) by (nonlinear_arith)
        requires
            d > 0,
            q == p / d,
            r == p % d,
    ;
    assert(q <= p) by (nonlinear_arith)
        requires
            q * d <= p,
            d >= 1,
            q >= 0,
    ;
    assert((q + 1) * d == q * d + d) by (nonlinear_arith);
    if 2 * r < d || (2 * r == d && q % 2 == 0) {
        q * d
    } else {
        (q + 1) * d
    }
}

proof fn lemma_pow2_at(n: nat)
    ensures
        n > 0 ==> pow2(n) == 2 * pow2((n - 1) as nat),
        n == 0 ==> pow2(n) == 1,
        pow2(n) > 0,
{
    lemma_pow2_pos(n);
    if n > 0 {
        lemma_pow2_unfold(n);
    } else {
        vstd::arithmetic::power2::lemma2_to64();
    }
}

/// `n * 2^k` rounded to the nearest integer, as far as it fits below `2^64`: any
/// larger result is reported as `2^64`.
fn scaled(n: u128, k: i64) -> (m: u128)
    requires
        n < 0x400_0000_0000_0000_0000,
        -1074 <= k <= 971,
    ensures
        m == if round_scaled(n as nat, k as int) < 0x1_0000_0000_0000_0000 {
            round_scaled(n as nat, k as int)
        } else {
            0x1_0000_0000_0000_0000
        },
{
    if k >= 0 {
        let mut m: u128 = n;
        let mut i: i64 = 0;
        proof {
            lemma_pow2_at(0);
            assert(n * pow2(0) == n) by (nonlinear_arith)
                requires
                    pow2(0) == 1,
            ;
        }
        while i < k
            invariant
                0 <= i <= k <= 971,
                m == n * pow2(i as nat),
                m < 0x400_0000_0000_0000_0000,
            decreases k - i,
        {
            proof {
                lemma_pow2_at((i + 1) as nat);
                assert(n * (2 * pow2(i as nat)) == 2 * (n * pow2(i as nat))) by (nonlinear_arith);
            }
            m = 2 * m;
            i = i + 1;
            if m >= 0x1_0000_0000_0000_0000 {
                proof {
                    lemma_pow2_grows(i as nat, k as nat);
                    assert(n * pow2(i as nat) <= n * pow2(k as nat)) by (nonlinear_arith)
                        requires
                            pow2(i as nat) <= pow2(k as nat),
                            n >= 0,
                    ;
                }
                return 0x1_0000_0000_0000_0000;
            }
        }
        if m < 0x1_0000_0000_0000_0000 {
            m
        } else {
            0x1_0000_0000_0000_0000
        }
    } else {
        let down: i64 = -k;
        proof {
            lemma_pow2_at((down - 1) as nat);
            lemma_pow2_at(down as nat);
        }
        if down > 75 {
            proof {
                lemma_pow2_grows(75, (down - 1) as nat);
                assert(pow2(75) > 0x400_0000_0000_0000_0000) by {
                    lemma_pow2_75();
                }
                let half = pow2((down - 1) as nat);
                assert((n + half) / ((2 * half) as int) == 0) by (nonlinear_arith)
                    requires
                        0 <= n < half,
                ;
            }
            return 0;
        }
        let mut half: u128 = 1;
        let mut i: i64 = 1;
        proof {
            lemma_pow2_at(0);
            lemma_pow2_75();
        }
        while i < down
            invariant
                1 <= i <= down <= 75,
                half == pow2((i - 1) as nat),
                pow2(75) == 0x800_0000_0000_0000_0000,
            decreases down - i,
        {
            proof {
                lemma_pow2_at(i as nat);
                lemma_pow2_grows(i as nat, 75);
            }
            half = 2 * half;
            i = i + 1;
        }
        proof {
            lemma_pow2_grows((down - 1) as nat, 75);
        }
        let m: u128 = (n + half) / (2 * half);
        if m < 0x1_0000_0000_0000_0000 {
            m
        } else {
            0x1_0000_0000_0000_0000
        }
    }
}

proof fn lemma_pow2_75()
    ensures
        pow2(75) == 0x800_0000_0000_0000_0000,
{
    vstd::arithmetic::power2::lemma2_to64();
    vstd::arithmetic::power2::lemma_pow2_adds(64, 11);
    assert(0x1_0000_0000_0000_0000 * 2048 == 0x800_0000_0000_0000_0000);
}

proof fn lemma_pow2_grows(a: nat, b: nat)
    requires
        a <= b,
    ensures
        pow2(a) <= pow2(b),
{
    if a < b {
        vstd::arithmetic::power2::lemma_pow2_strictly_increases(a, b);
    }
}

/// Convert a parser timestamp (seconds, as the bits of a double) to microseconds.
pub fn ts_to_micros(bits: u64) -> (us: i64)
    ensures
        us == micros(bits),
{
    let negative = bits >= 0x8000_0000_0000_0000;
    let exponent: u64 = (bits / LEADING_BIT) % 2048;
    let fraction: u64 = bits % LEADING_BIT;
    if exponent == EXPONENT_MAX {
        return if fraction != 0 {
            0
        } else if negative {
            i64::MIN
        } else {
            i64::MAX
        };
    }
    let mantissa: u64 = if exponent == 0 {
        fraction
    } else {
        fraction + LEADING_BIT
    };
    let k: i64 = if exponent == 0 {
        1 - 1075
    } else {
        exponent as i64 - 1075
    };
    let m: u128 = scaled(nearest(mantissa as u128 * 1_000_000), k);
    if negative {
        if m < 0x8000_0000_0000_0000 {
            -(m as i64)
        } else {
            i64::MIN
        }
    } else {
        if m <= 0x7fff_ffff_ffff_ffff {
            m as i64
        } else {
            i64::MAX
        }
    }
}

/// Scaling by a power of two keeps a number of at most 53 bits a double: it is a
/// multiple of the spacing around it.
proof fn lemma_nearest_exact(x: nat, n: nat) -> (c: nat)
    requires
        x < SIGNIFICANT,
    ensures
        nearest_double(x * pow2(n)) == x * pow2(n),
        x * pow2(n) == c * spacing(x * pow2(n)),
    decreases n,
{
    let p = x * pow2(n);
    let d = spacing(p);
    lemma_spacing_positive(p);
    let c: nat = if p < SIGNIFICANT {
        assert(p == p * d) by (nonlinear_arith)
            requires
                d == 1,
        ;
        p
    } else {
        lemma_pow2_at(n);
        if n == 0 {
            assert(x * pow2(n) == x) by (nonlinear_arith)
                requires
                    pow2(n) == 1,
            ;
        }
        let half = x * pow2((n - 1) as nat);
        assert(p == 2 * half) by (nonlinear_arith)
            requires
                p == x * pow2(n),
                half == x * pow2((n - 1) as nat),
                pow2(n) == 2 * pow2((n - 1) as nat),
        ;
        assert(p / 2 == half);
        let c = lemma_nearest_exact(x, (n - 1) as nat);
        assert(p == c * d) by (nonlinear_arith)
            requires
                p == 2 * half,
                half == c * spacing(half),
                d == 2 * spacing(half),
        ;
        c
    };
    assert(p / d == c && p % d == 0) by (nonlinear_arith)
        requires
            p == c * d,
            d > 0,
    ;
    c
}

/// A whole number of seconds that fits a record header converts exactly.
pub proof fn whole_seconds_are_exact(bits: u64, seconds: u32)
    requires
        !is_negative(bits),
        exponent_field(bits) != EXPONENT_MAX,
        scale(bits) < 0,
        significand(bits) == seconds * pow2((-scale(bits)) as nat),
    ensures
        micros(bits) == seconds * 1_000_000,
{
    let n = (-scale(bits)) as nat;
    let x = (seconds * 1_000_000) as nat;
    assert(significand(bits) * 1_000_000 == x * pow2(n)) by (nonlinear_arith)
        requires
            significand(bits) == seconds * pow2(n),
            x == seconds * 1_000_000,
    ;
    let _ = lemma_nearest_exact(x, n);
    lemma_pow2_at(n);
    let half = pow2((n - 1) as nat);
    assert((x * (2 * half) + half) / (2 * half) == x) by (nonlinear_arith)
        requires
            half > 0,
            x >= 0,
    ;
}

} // verus!

//! Little-endian numbers as byte sequences.
use vstd::prelude::*;

verus! {

/// The weight of byte `i` of a little-endian number.
pub open spec fn byte_weight(i: nat) -> nat
    decreases i,
{
    if i == 0 {
        1
    } else {
        256 * byte_weight((i - 1) as nat)
    }
}

/// The unsigned number that `bytes` hold, least significant byte first.
pub open spec fn le_value(bytes: Seq<u8>) -> nat
    decreases bytes.len(),
{
    if bytes.len() == 0 {
        0
    } else {
        le_value(bytes.drop_last()) + bytes.last() as nat * byte_weight((bytes.len() - 1) as nat)
    }
}

proof fn lemma_byte_weight_positive(i: nat)
    ensures
        byte_weight(i) > 0,
    decreases i,
{
    if i > 0 {
        lemma_byte_weight_positive((i - 1) as nat);
    }
}

/// Little-endian bytes are determined by the number they hold.
pub proof fn lemma_le_value_unique(a: Seq<u8>, b: Seq<u8>)
    requires
        a.len() == b.len(),
        le_value(a) == le_value(b),
    ensures
        a == b,
    decreases a.len(),
{
    if a.len() > 0 {
        let n = (a.len() - 1) as nat;
        lemma_le_value_bound(a.drop_last());
        lemma_le_value_bound(b.drop_last());
        let x = le_value(a.drop_last()) as int;
        let y = le_value(b.drop_last()) as int;
        let p = a.last() as int;
        let q = b.last() as int;
        let w = byte_weight(n) as int;
        assert(p == q && x == y) by (nonlinear_arith)
            requires
                x + p * w == y + q * w,
                0 <= x < w,
                0 <= y < w,
        ;
        lemma_le_value_unique(a.drop_last(), b.drop_last());
        assert(a == a.drop_last().push(a.last()));
        assert(b == b.drop_last().push(b.last()));
    } else {
        assert(a == b);
    }
}

/// What a number of bytes can hold.
pub proof fn lemma_le_value_bound(a: Seq<u8>)
    ensures
        le_value(a) < byte_weight(a.len()),
    decreases a.len(),
{
    if a.len() > 0 {
        let n = (a.len() - 1) as nat;
        lemma_le_value_bound(a.drop_last());
        lemma_byte_weight_positive(n);
        let w = byte_weight(n) as int;
        let p = a.last() as int;
        assert(p * w + w <= 256 * w) by (nonlinear_arith)
            requires
                p <= 255,
                w >= 0,
        ;
    }
}

/// Sixteen bytes hold 128 bits, eight hold 64.
pub proof fn lemma_weight_16()
    ensures
        byte_weight(16) == 0x1_0000_0000_0000_0000_0000_0000_0000_0000,
        byte_weight(8) == 0x1_0000_0000_0000_0000,
{
    reveal_with_fuel(byte_weight, 17);
}

/// The `n` bytes of `x`, least significant first.
pub open spec fn le_digits(x: nat, n: nat) -> Seq<u8>
    decreases n,
{
    if n == 0 {
        Seq::empty()
    } else {
        le_digits(x, (n - 1) as nat).push(((x / byte_weight((n - 1) as nat)) % 256) as u8)
    }
}

/// The bytes of a number hold that number, as far as they reach.
pub proof fn lemma_le_digits(x: nat, n: nat)
    ensures
        le_digits(x, n).len() == n,
        le_value(le_digits(x, n)) == x % byte_weight(n),
    decreases n,
{
    lemma_byte_weight_positive(n);
    if n > 0 {
        let m = (n - 1) as nat;
        lemma_byte_weight_positive(m);
        lemma_le_digits(x, m);
        let w = byte_weight(m);
        let d = (x / w) % 256;
        assert(le_digits(x, n).drop_last() == le_digits(x, m));
        vstd::arithmetic::div_mod::lemma_mod_breakdown(x as int, w as int, 256);
        assert(w * 256 == byte_weight(n));
        assert(w * d == d * w) by (nonlinear_arith);
    } else {
        assert(x % 1 == 0);
    }
}

/// The `n` bytes of `x`, least significant first.
pub fn le_vec(x: u128, n: usize) -> (out: Vec<u8>)
    requires
        x < byte_weight(n as nat),
    ensures
        out@ == le_digits(x as nat, n as nat),
        out@.len() == n,
        le_value(out@) == x,
{
    let mut out: Vec<u8> = Vec::new();
    let mut rest: u128 = x;
    assert(rest * byte_weight(0) == x) by (nonlinear_arith)
        requires
            byte_weight(0) == 1,
            rest == x,
    ;
    for i in 0..n
        invariant
            out@.len() == i,
            le_value(out@) + rest * byte_weight(i as nat) == x,
            rest * byte_weight(i as nat) < byte_weight(n as nat),
    {
        let low: u8 = (rest % 256) as u8;
        let high: u128 = rest / 256;
        let ghost before = out@;
        let ghost w = byte_weight(i as nat) as int;
        out.push(low);
        assert(out@.drop_last() == before);
        assert(rest * w == low * w + high * (256 * w)) by (nonlinear_arith)
            requires
                rest == 256 * high + low,
        ;
        assert(low * w >= 0) by (nonlinear_arith)
            requires
                low >= 0,
                w >= 0,
        ;
        assert(byte_weight((i + 1) as nat) == 256 * w);
        rest = high;
    }
    assert(rest == 0) by (nonlinear_arith)
        requires
            rest * byte_weight(n as nat) < byte_weight(n as nat),
            rest >= 0,
    ;
    proof {
        lemma_le_digits(x as nat, n as nat);
        vstd::arithmetic::div_mod::lemma_small_mod(x as nat, byte_weight(n as nat));
        lemma_le_value_unique(out@, le_digits(x as nat, n as nat));
    }
    out
}

/// The number in the eight bytes of `bytes` from `from` on, least significant first.
pub fn le_read(bytes: &[u8], from: usize) -> (x: u64)
    requires
        from + 8 <= bytes@.len(),
    ensures
        x == le_value(bytes@.subrange(from as int, from + 8)),
{
    let total: usize = bytes.len();
    let mut x: u64 = 0;
    let mut weight: u64 = 1;
    let ghost part = bytes@.subrange(from as int, from + 8);
    proof {
        lemma_weight_16();
    }
    assert(part.take(0) == Seq::<u8>::empty());
    for i in 0..8usize
        invariant
            from + 8 <= bytes@.len(),
            total == bytes@.len(),
            part == bytes@.subrange(from as int, from + 8),
            byte_weight(8) == 0x1_0000_0000_0000_0000,
            x == le_value(part.take(i as int)),
            i < 8 ==> weight == byte_weight(i as nat),
    {
        let b: u8 = bytes[from + i];
        proof {
            lemma_le_value_bound(part.take(i as int + 1));
            lemma_weight_grows((i + 1) as nat, 8);
            assert(part.take(i as int + 1).drop_last() == part.take(i as int));
            assert(part.take(i as int + 1).last() == b);
        }
        assert(weight * b == b * byte_weight(i as nat)) by (nonlinear_arith)
            requires
                weight == byte_weight(i as nat),
        ;
        x = x + weight * (b as u64);
        if i < 7 {
            proof {
                lemma_weight_grows((i + 2) as nat, 8);
                assert(byte_weight((i + 2) as nat) == 256 * byte_weight((i + 1) as nat));
            }
            weight = weight * 256;
        }
    }
    assert(part.take(8) == part);
    x
}

proof fn lemma_weight_grows(a: nat, b: nat)
    requires
        a <= b,
    ensures
        byte_weight(a) <= byte_weight(b),
    decreases b,
{
    if a < b {
        lemma_weight_grows(a, (b - 1) as nat);
    }
}

} // verus!

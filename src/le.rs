//! Little-endian integer layout used by the fixed-width row encodings.

use vstd::prelude::*;
use vstd::arithmetic::div_mod::{lemma_div_denominator, lemma_mod_breakdown};

verus! {

/// `256` raised to the power `n`.
pub open spec fn pow256(n: nat) -> nat
    decreases n,
{
    if n == 0 {
        1
    } else {
        256 * pow256((n - 1) as nat)
    }
}

/// The `n` low-order bytes of `x`, least significant first.
pub open spec fn le_encode(x: nat, n: nat) -> Seq<u8> {
    Seq::new(n, |i: int| ((x / pow256(i as nat)) % 256) as u8)
}

/// The unsigned number whose little-endian bytes are `s`.
pub open spec fn le_decode(s: Seq<u8>) -> nat
    decreases s.len(),
{
    if s.len() == 0 {
        0
    } else {
        s[0] as nat + 256 * le_decode(s.drop_first())
    }
}

/// Two's-complement image of `v` on `n` bytes.
pub open spec fn to_unsigned(v: int, n: nat) -> nat {
    if v < 0 {
        (v + pow256(n)) as nat
    } else {
        v as nat
    }
}

/// Signed value of the two's-complement number `u` on `n` bytes.
pub open spec fn to_signed(u: nat, n: nat) -> int {
    if 2 * u >= pow256(n) {
        u - pow256(n)
    } else {
        u as int
    }
}

pub proof fn lemma_pow256_positive(n: nat)
    ensures
        pow256(n) > 0,
    decreases n,
{
    if n > 0 {
        lemma_pow256_positive((n - 1) as nat);
    }
}

pub proof fn lemma_pow256_values()
    ensures
        pow256(1) == 256,
        pow256(2) == 0x1_0000,
        pow256(4) == 0x1_0000_0000,
        pow256(8) == 0x1_0000_0000_0000_0000,
{
    reveal_with_fuel(pow256, 9);
}

/// Decoding the encoding of `x` on `n` bytes gives `x` back modulo `256^n`.
pub proof fn lemma_le_round_trip(x: nat, n: nat)
    ensures
        le_encode(x, n).len() == n,
        le_decode(le_encode(x, n)) == x % pow256(n),
    decreases n,
{
    if n == 0 {
        assert(le_encode(x, n) =~= Seq::<u8>::empty());
    } else {
        let m = (n - 1) as nat;
        lemma_le_round_trip(x / 256, m);
        lemma_pow256_positive(m);
        assert forall|i: int| 0 <= i < m implies #[trigger] le_encode(x, n).drop_first()[i]
            == le_encode(x / 256, m)[i] by {
            lemma_pow256_positive(i as nat);
            lemma_div_denominator(x as int, 256, pow256(i as nat) as int);
            assert(pow256((i + 1) as nat) == 256 * pow256(i as nat));
        }
        assert(le_encode(x, n).drop_first() =~= le_encode(x / 256, m));
        assert(pow256(0) == 1);
        assert(x / 1 == x);
        lemma_mod_breakdown(x as int, 256, pow256(m) as int);
    }
}

/// A number read from `s` is below `256^|s|`.
pub proof fn lemma_le_decode_bound(s: Seq<u8>)
    ensures
        le_decode(s) < pow256(s.len()),
    decreases s.len(),
{
    if s.len() > 0 {
        lemma_le_decode_bound(s.drop_first());
    }
}

/// Appends the `n` low-order bytes of `x` to `out`, least significant first.
pub fn push_le(out: &mut Vec<u8>, x: u64, n: usize)
    requires
        n <= 8,
    ensures
        final(out)@ == old(out)@ + le_encode(x as nat, n as nat),
{
    let ghost start = old(out)@;
    let mut v: u64 = x;
    let mut i: usize = 0;
    assert(pow256(0) == 1);
    assert(out@ =~= start + le_encode(x as nat, 0));
    while i < n
        invariant
            i <= n,
            out@ == start + le_encode(x as nat, i as nat),
            v == x as nat / pow256(i as nat),
        decreases n - i,
    {
        proof {
            lemma_pow256_positive(i as nat);
            lemma_div_denominator(x as int, pow256(i as nat) as int, 256);
            assert(pow256((i + 1) as nat) == 256 * pow256(i as nat));
        }
        out.push((v % 256) as u8);
        v = v / 256;
        i = i + 1;
        assert(out@ =~= start + le_encode(x as nat, i as nat));
    }
}

/// Reads the unsigned number stored little-endian in `b[start..start + n]`.
pub fn read_le(b: &[u8], start: usize, n: usize) -> (r: u64)
    requires
        n <= 8,
        start + n <= b@.len(),
    ensures
        r as nat == le_decode(b@.subrange(start as int, start + n)),
{
    let ghost s = b@.subrange(start as int, start + n);
    let len = b.len();
    let mut acc: u64 = 0;
    let mut i: usize = n;
    while i > 0
        invariant
            i <= n,
            n <= 8,
            start + n <= b@.len(),
            len == b@.len(),
            s == b@.subrange(start as int, start + n),
            acc as nat == le_decode(s.subrange(i as int, n as int)),
        decreases i,
    {
        let ghost tail = s.subrange(i as int, n as int);
        proof {
            lemma_le_decode_bound(tail);
            lemma_pow256_values();
            lemma_pow256_mono((n - i) as nat, 7);
            let t = s.subrange(i - 1, n as int);
            assert(t.drop_first() =~= tail);
            assert(t[0] == b@[start + i - 1]);
            assert(acc < 0x100_0000_0000_0000);
            assert(acc * 256 + 255 <= u64::MAX) by (nonlinear_arith)
                requires
                    acc < 0x100_0000_0000_0000,
            ;
        }
        let byte = b[start + i - 1];
        acc = acc * 256 + byte as u64;
        i = i - 1;
    }
    assert(s.subrange(0, n as int) =~= s);
    acc
}

pub proof fn lemma_pow256_mono(a: nat, b: nat)
    requires
        a <= b,
    ensures
        pow256(a) <= pow256(b),
    decreases b,
{
    if a < b {
        lemma_pow256_mono(a, (b - 1) as nat);
        lemma_pow256_positive((b - 1) as nat);
    }
}

} // verus!

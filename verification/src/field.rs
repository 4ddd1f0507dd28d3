//! Scalar-field helpers over the BN254 prime field.
//!
//! Public inputs, roots, nullifiers and commitments travel as big-endian
//! 32-byte arrays; this module gives those arrays a mathematical value and
//! provides the bound check and modular reduction the verifier needs.

use vstd::prelude::*;
use vstd::arithmetic::mul::*;

verus! {

/// High 128 bits of the BN254 scalar-field modulus.
pub const FIELD_MODULUS_HI: u128 = 0x30644e72e131a029b85045b68181585d;

/// Low 128 bits of the BN254 scalar-field modulus.
pub const FIELD_MODULUS_LO: u128 = 0x2833e84879b9709143e1f593f0000001;

/// The BN254 scalar-field modulus.
pub open spec fn field_modulus() -> nat {
    21888242871839275222246405745257275088548364400416034343698204186575808495617nat
}

/// 256^n, the weight of a byte n positions above the least significant one.
pub open spec fn pow256(n: nat) -> nat
    decreases n,
{
    if n == 0 {
        1
    } else {
        256 * pow256((n - 1) as nat)
    }
}

/// The integer value of a big-endian byte string.
pub open spec fn be_val(s: Seq<u8>) -> nat
    decreases s.len(),
{
    if s.len() == 0 {
        0
    } else {
        (s[0] as nat) * pow256((s.len() - 1) as nat) + be_val(s.drop_first())
    }
}

/// The integer value of a little-endian byte string.
pub open spec fn le_val(s: Seq<u8>) -> nat
    decreases s.len(),
{
    if s.len() == 0 {
        0
    } else {
        (s[0] as nat) + 256 * le_val(s.drop_first())
    }
}

pub proof fn lemma_pow256_pos(n: nat)
    ensures
        pow256(n) >= 1,
    decreases n,
{
    if n > 0 {
        lemma_pow256_pos((n - 1) as nat);
    }
}

pub proof fn lemma_pow256_add(a: nat, b: nat)
    ensures
        pow256(a + b) == pow256(a) * pow256(b),
    decreases a,
{
    if a == 0 {
        assert(pow256(b) == 1 * pow256(b)) by {
            lemma_mul_basics(pow256(b) as int);
        }
    } else {
        lemma_pow256_add((a - 1) as nat, b);
        assert((a + b - 1) as nat == (a - 1) as nat + b);
        assert(pow256(a + b) == 256 * pow256((a - 1) as nat + b));
        assert(256 * (pow256((a - 1) as nat) * pow256(b)) == (256 * pow256((a - 1) as nat))
            * pow256(b)) by {
            lemma_mul_is_associative(256, pow256((a - 1) as nat) as int, pow256(b) as int);
        }
        assert(pow256(a) == 256 * pow256((a - 1) as nat));
    }
}

/// The first byte weights, written out.
pub proof fn lemma_pow256_16()
    ensures
        pow256(15) == 0x100_0000_0000_0000_0000_0000_0000_0000,
        pow256(16) == 0x1_0000_0000_0000_0000_0000_0000_0000_0000,
{
    assert(pow256(0) == 1);
    assert(pow256(1) == 0x100);
    assert(pow256(2) == 0x1_0000);
    assert(pow256(3) == 0x100_0000);
    assert(pow256(4) == 0x1_0000_0000);
    assert(pow256(5) == 0x100_0000_0000);
    assert(pow256(6) == 0x1_0000_0000_0000);
    assert(pow256(7) == 0x100_0000_0000_0000);
    assert(pow256(8) == 0x1_0000_0000_0000_0000);
    assert(pow256(9) == 0x100_0000_0000_0000_0000);
    assert(pow256(10) == 0x1_0000_0000_0000_0000_0000);
    assert(pow256(11) == 0x100_0000_0000_0000_0000_0000);
    assert(pow256(12) == 0x1_0000_0000_0000_0000_0000_0000);
    assert(pow256(13) == 0x100_0000_0000_0000_0000_0000_0000);
    assert(pow256(14) == 0x1_0000_0000_0000_0000_0000_0000_0000);
    assert(pow256(15) == 0x100_0000_0000_0000_0000_0000_0000_0000);
    assert(pow256(16) == 0x1_0000_0000_0000_0000_0000_0000_0000_0000);
}

/// A big-endian string of n bytes is worth less than 256^n.
pub proof fn lemma_be_val_bound(s: Seq<u8>)
    ensures
        be_val(s) < pow256(s.len()),
    decreases s.len(),
{
    if s.len() == 0 {
    } else {
        lemma_be_val_bound(s.drop_first());
        let p = pow256((s.len() - 1) as nat);
        assert((s[0] as nat) * p <= 255 * p) by {
            lemma_mul_inequality(s[0] as int, 255, p as int);
        }
    }
}

/// A string of zero bytes is worth zero.
pub proof fn lemma_be_val_all_zero(s: Seq<u8>)
    requires
        forall|i: int| 0 <= i < s.len() ==> s[i] == 0,
    ensures
        be_val(s) == 0,
    decreases s.len(),
{
    if s.len() > 0 {
        lemma_be_val_all_zero(s.drop_first());
        assert((0 as nat) * pow256((s.len() - 1) as nat) == 0) by {
            lemma_mul_basics(pow256((s.len() - 1) as nat) as int);
        }
    }
}

/// Appending a byte multiplies the value by 256 and adds the byte.
pub proof fn lemma_be_val_push(s: Seq<u8>, b: u8)
    ensures
        be_val(s.push(b)) == be_val(s) * 256 + b,
    decreases s.len(),
{
    if s.len() == 0 {
        assert(s.push(b).drop_first() =~= Seq::<u8>::empty());
        assert(s.push(b).len() == 1);
        assert(s.push(b)[0] == b);
        assert(be_val(s.push(b)) == (b as nat) * pow256(0) + be_val(s.push(b).drop_first()));
        assert((b as nat) * 1 == b) by {
            lemma_mul_basics(b as int);
        }
    } else {
        let t = s.push(b);
        let d = s.drop_first();
        assert(t.drop_first() =~= d.push(b));
        lemma_be_val_push(d, b);
        assert(t[0] == s[0]);
        let n = s.len();
        let p = pow256((n - 1) as nat);
        let x = s[0] as nat;
        assert(be_val(t) == x * pow256(n) + (be_val(d) * 256 + b));
        assert(pow256(n) == 256 * p);
        assert(x * (256 * p) == (x * p) * 256) by {
            lemma_mul_is_associative(x as int, 256, p as int);
            lemma_mul_is_commutative(x as int, 256);
            lemma_mul_is_commutative((x * 256) as int, p as int);
            lemma_mul_is_associative(p as int, x as int, 256);
            lemma_mul_is_commutative(p as int, x as int);
            lemma_mul_is_commutative((p * x) as int, 256);
        }
        assert((x * p + be_val(d)) * 256 == (x * p) * 256 + be_val(d) * 256) by {
            lemma_mul_is_distributive_add_other_way(256, (x * p) as int, be_val(d) as int);
        }
        assert(be_val(s) * 256 + b == (x * p + be_val(d)) * 256 + b);
    }
}

/// Splitting a big-endian string splits its value by place weight.
pub proof fn lemma_be_val_split(s: Seq<u8>, i: int)
    requires
        0 <= i <= s.len(),
    ensures
        be_val(s) == be_val(s.take(i)) * pow256((s.len() - i) as nat) + be_val(s.skip(i)),
    decreases i,
{
    if i == 0 {
        assert(s.take(0) =~= Seq::<u8>::empty());
        assert(s.skip(0) =~= s);
        assert(be_val(s.take(0)) == 0);
        assert(0 * pow256(s.len() as nat) == 0) by {
            lemma_mul_basics(pow256(s.len() as nat) as int);
        }
    } else {
        let d = s.drop_first();
        assert(s.take(i).drop_first() =~= d.take(i - 1));
        assert(s.skip(i) =~= d.skip(i - 1));
        lemma_be_val_split(d, i - 1);
        let n = s.len();
        let w = pow256((n - i) as nat);
        let q = pow256((i - 1) as nat);
        let x = be_val(d.take(i - 1));
        let y = be_val(d.skip(i - 1));
        let a = s[0] as nat;
        // IH: be_val(d) == x * w + y, since d.len() - (i - 1) == n - i.
        assert(be_val(d) == x * w + y);
        assert(be_val(s) == a * pow256((n - 1) as nat) + (x * w + y));
        assert(s.take(i).len() == i);
        assert(s.take(i)[0] == s[0]);
        assert(be_val(s.take(i)) == a * q + x);
        assert(pow256((n - 1) as nat) == q * w) by {
            lemma_pow256_add((i - 1) as nat, (n - i) as nat);
        }
        assert(a * (q * w) == (a * q) * w) by {
            lemma_mul_is_associative(a as int, q as int, w as int);
        }
        assert((a * q + x) * w == (a * q) * w + x * w) by {
            lemma_mul_is_distributive_add_other_way(w as int, (a * q) as int, x as int);
        }
        assert(be_val(s) == (a * q + x) * w + y);
    }
}

/// The modulus splits into its two 16-byte halves.
pub proof fn lemma_field_modulus_halves()
    ensures
        field_modulus() == (FIELD_MODULUS_HI as nat) * pow256(16) + (FIELD_MODULUS_LO as nat),
        (FIELD_MODULUS_LO as nat) < pow256(16),
{
    lemma_pow256_16();
}

/// The value of a 16-byte big-endian chunk of a 32-byte array.
///
/// `start` selects the high half (0) or the low half (16).
pub fn be_chunk_u128(bytes: &[u8; 32], start: usize) -> (r: u128)
    requires
        start == 0 || start == 16,
    ensures
        r == be_val(bytes@.subrange(start as int, start as int + 16)),
{
    let mut acc: u128 = 0;
    let mut i: usize = start;
    proof {
        assert(bytes@.subrange(start as int, start as int) =~= Seq::<u8>::empty());
    }
    while i < start + 16
        invariant
            start == 0 || start == 16,
            start <= i <= start + 16,
            acc == be_val(bytes@.subrange(start as int, i as int)),
        decreases start + 16 - i,
    {
        proof {
            let chunk = bytes@.subrange(start as int, i as int);
            lemma_be_val_bound(chunk);
            assert(chunk.len() <= 15);
            assert(pow256(chunk.len()) <= pow256(15)) by {
                lemma_pow256_monotone(chunk.len(), 15);
            }
            lemma_pow256_16();
            assert(bytes@.subrange(start as int, i as int + 1) =~= chunk.push(bytes@[i as int]));
            lemma_be_val_push(chunk, bytes@[i as int]);
        }
        acc = acc * 256 + (bytes[i] as u128);
        i = i + 1;
    }
    acc
}

pub proof fn lemma_pow256_monotone(a: nat, b: nat)
    requires
        a <= b,
    ensures
        pow256(a) <= pow256(b),
    decreases b,
{
    if a < b {
        lemma_pow256_monotone(a, (b - 1) as nat);
        lemma_pow256_pos((b - 1) as nat);
    }
}

/// A 32-byte big-endian value, decomposed into its two 16-byte halves.
pub proof fn lemma_be32_halves(s: Seq<u8>)
    requires
        s.len() == 32,
    ensures
        be_val(s) == be_val(s.subrange(0, 16)) * pow256(16) + be_val(s.subrange(16, 32)),
        be_val(s.subrange(0, 16)) < pow256(16),
        be_val(s.subrange(16, 32)) < pow256(16),
{
    assert(s.take(16) =~= s.subrange(0, 16));
    assert(s.skip(16) =~= s.subrange(16, 32));
    lemma_be_val_split(s, 16);
    lemma_be_val_bound(s.subrange(0, 16));
    lemma_be_val_bound(s.subrange(16, 32));
}

/// Base-2^128 decompositions with in-range low halves are unique.
pub proof fn lemma_halves_unique(hi1: nat, lo1: nat, hi2: nat, lo2: nat)
    requires
        lo1 < pow256(16),
        lo2 < pow256(16),
        hi1 * pow256(16) + lo1 == hi2 * pow256(16) + lo2,
    ensures
        hi1 == hi2,
        lo1 == lo2,
{
    let w = pow256(16) as int;
    lemma_pow256_pos(16);
    assert((hi1 as int) * w + lo1 == (hi2 as int) * w + lo2);
    if hi1 < hi2 {
        assert((hi1 as int) * w + w <= (hi2 as int) * w) by {
            lemma_mul_inequality(hi1 as int + 1, hi2 as int, w);
            lemma_mul_is_distributive_add_other_way(w, hi1 as int, 1);
        }
        assert(false);
    }
    if hi2 < hi1 {
        assert((hi2 as int) * w + w <= (hi1 as int) * w) by {
            lemma_mul_inequality(hi2 as int + 1, hi1 as int, w);
            lemma_mul_is_distributive_add_other_way(w, hi2 as int, 1);
        }
        assert(false);
    }
}

/// True iff the 32-byte big-endian value is strictly below the modulus.
pub open spec fn spec_below_modulus(s: Seq<u8>) -> bool {
    be_val(s) < field_modulus()
}

/// Compares a 32-byte big-endian value against the field modulus.
pub fn below_field_modulus(bytes: &[u8; 32]) -> (r: bool)
    ensures
        r == spec_below_modulus(bytes@),
{
    let hi = be_chunk_u128(bytes, 0);
    let lo = be_chunk_u128(bytes, 16);
    proof {
        lemma_be32_halves(bytes@);
        lemma_field_modulus_halves();
        lemma_pow256_16();
        let w = pow256(16) as int;
        if hi < FIELD_MODULUS_HI {
            assert((hi as int) * w + w <= (FIELD_MODULUS_HI as int) * w) by {
                lemma_mul_inequality(hi as int + 1, FIELD_MODULUS_HI as int, w);
                lemma_mul_is_distributive_add_other_way(w, hi as int, 1);
            }
        }
        if hi > FIELD_MODULUS_HI {
            assert((FIELD_MODULUS_HI as int) * w + w <= (hi as int) * w) by {
                lemma_mul_inequality(FIELD_MODULUS_HI as int + 1, hi as int, w);
                lemma_mul_is_distributive_add_other_way(w, FIELD_MODULUS_HI as int, 1);
            }
        }
    }
    hi < FIELD_MODULUS_HI || (hi == FIELD_MODULUS_HI && lo < FIELD_MODULUS_LO)
}

/// Relies on `ark_bn254::Fr::from_be_bytes_mod_order` (reads big-endian bytes
/// and reduces them modulo the scalar-field modulus) and on
/// `ark_ff::BigInteger::to_bytes_be` via `into_bigint` (the canonical value in
/// `0..p-1`, written back as 32 big-endian bytes).
#[verifier::external_body]
pub fn reduce_be_mod_p(bytes: &[u8; 32]) -> (r: [u8; 32])
    ensures
        be_val(r@) == be_val(bytes@) % field_modulus(),
{
    let f = <ark_bn254::Fr as ark_ff::PrimeField>::from_be_bytes_mod_order(bytes);
    let b = ark_ff::BigInteger::to_bytes_be(&ark_ff::PrimeField::into_bigint(f));
    let mut r = [0u8; 32];
    r.copy_from_slice(&b);
    r
}

/// Relies on `ark_bn254::Fr::from_le_bytes_mod_order` (reads little-endian
/// bytes and reduces them modulo the scalar-field modulus) and on
/// `ark_ff::BigInteger::to_bytes_be` via `into_bigint` (the canonical value in
/// `0..p-1`, written back as 32 big-endian bytes).
#[verifier::external_body]
pub fn reduce_le_mod_p(bytes: &[u8; 32]) -> (r: [u8; 32])
    ensures
        be_val(r@) == le_val(bytes@) % field_modulus(),
{
    let f = <ark_bn254::Fr as ark_ff::PrimeField>::from_le_bytes_mod_order(bytes);
    let b = ark_ff::BigInteger::to_bytes_be(&ark_ff::PrimeField::into_bigint(f));
    let mut r = [0u8; 32];
    r.copy_from_slice(&b);
    r
}

} // verus!

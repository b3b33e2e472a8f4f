//! Widening 256-bit multiplication, built from a verified
//! multiply-accumulate step on 64-bit limbs.

use vstd::prelude::*;
use vstd::arithmetic::mul::{
    lemma_mul_is_associative, lemma_mul_is_commutative, lemma_mul_is_distributive_add,
    lemma_mul_upper_bound,
};
use crate::word::{U256, as_nat, word_base, lemma_as_nat_bound};

verus! {

/// Multiplying into a Horner level: `x * (lo + 2^64 * rest)` splits into
/// `x * lo` plus a shifted `x * rest`.
proof fn lemma_mul_horner_level(x: int, lo: int, rest: int)
    ensures
        x * (lo + 0x1_0000_0000_0000_0000 * rest)
            == x * lo + 0x1_0000_0000_0000_0000 * (x * rest),
{
    lemma_mul_is_distributive_add(x, lo, 0x1_0000_0000_0000_0000 * rest);
    lemma_mul_is_associative(x, 0x1_0000_0000_0000_0000, rest);
    lemma_mul_is_commutative(x, 0x1_0000_0000_0000_0000);
    lemma_mul_is_associative(0x1_0000_0000_0000_0000, x, rest);
}

/// `x * as_nat(b)` written limb by limb.
proof fn lemma_mul_horner_word(x: int, b: U256)
    ensures
        x * as_nat(b) == x * b.limb0
            + 0x1_0000_0000_0000_0000 * (x * b.limb1)
            + 0x1_0000_0000_0000_0000_0000_0000_0000_0000int * (x * b.limb2)
            + 0x1_0000_0000_0000_0000_0000_0000_0000_0000_0000_0000_0000_0000int * (x * b.limb3),
{
    let t2: int = b.limb2 + 0x1_0000_0000_0000_0000 * b.limb3;
    let t1: int = b.limb1 + 0x1_0000_0000_0000_0000 * t2;
    lemma_mul_horner_level(x, b.limb2 as int, b.limb3 as int);
    lemma_mul_horner_level(x, b.limb1 as int, t2);
    lemma_mul_horner_level(x, b.limb0 as int, t1);
}

/// Telescoping a limb-wise multiply-accumulate chain: purely linear in the
/// abstracted per-limb products `p0..p3`.
proof fn lemma_limb_chain(
    l0: int, l1: int, l2: int, l3: int,
    c0: int, c1: int, c2: int, c3: int,
    p0: int, p1: int, p2: int, p3: int,
)
    requires
        l0 + 0x1_0000_0000_0000_0000 * c0 == p0,
        l1 + 0x1_0000_0000_0000_0000 * c1 == p1 + c0,
        l2 + 0x1_0000_0000_0000_0000 * c2 == p2 + c1,
        l3 + 0x1_0000_0000_0000_0000 * c3 == p3 + c2,
    ensures
        l0 + 0x1_0000_0000_0000_0000 * (l1 + 0x1_0000_0000_0000_0000 * (l2
            + 0x1_0000_0000_0000_0000 * l3))
            + 0x1_0000_0000_0000_0000_0000_0000_0000_0000_0000_0000_0000_0000_0000_0000_0000_0000int * c3
            == p0 + 0x1_0000_0000_0000_0000 * p1
                + 0x1_0000_0000_0000_0000_0000_0000_0000_0000int * p2
                + 0x1_0000_0000_0000_0000_0000_0000_0000_0000_0000_0000_0000_0000int * p3,
{
}

/// One multiply-accumulate step: `acc + x * y + carry`, split into a low
/// limb and a carry limb. The pair denotes the exact value.
fn mac_step(acc: u64, x: u64, y: u64, carry: u64) -> (r: (u64, u64))
    ensures
        r.0 + 0x1_0000_0000_0000_0000 * r.1 == acc + x * y + carry,
{
    proof {
        lemma_mul_upper_bound(x as int, 0xffff_ffff_ffff_ffff, y as int, 0xffff_ffff_ffff_ffff);
    }
    let t: u128 = acc as u128 + (x as u128) * (y as u128) + carry as u128;
    let lo: u64 = (t % 0x1_0000_0000_0000_0000) as u64;
    let hi: u64 = (t / 0x1_0000_0000_0000_0000) as u64;
    (lo, hi)
}

/// Multiplies a word by a single limb: the pair denotes `x * as_nat(b)`
/// exactly, the second component being the overflow limb.
fn mul_by_limb(b: U256, x: u64) -> (r: (U256, u64))
    ensures
        as_nat(r.0) + word_base() * r.1 == x * as_nat(b),
{
    let (l0, c0) = mac_step(0, x, b.limb0, 0);
    let (l1, c1) = mac_step(0, x, b.limb1, c0);
    let (l2, c2) = mac_step(0, x, b.limb2, c1);
    let (l3, c3) = mac_step(0, x, b.limb3, c2);
    let out = U256 { limb0: l0, limb1: l1, limb2: l2, limb3: l3 };
    proof {
        lemma_mul_horner_word(x as int, b);
        lemma_limb_chain(
            l0 as int, l1 as int, l2 as int, l3 as int,
            c0 as int, c1 as int, c2 as int, c3 as int,
            x * b.limb0, x * b.limb1, x * b.limb2, x * b.limb3,
        );
    }
    (out, c3)
}

/// Widening multiplication: `(low, high)` with
/// `as_nat(low) + 2^256 * as_nat(high) == as_nat(a) * as_nat(b)`.
#[verifier::rlimit(60)]
pub fn mul_wide(a: U256, b: U256) -> (r: (U256, U256))
    ensures
        as_nat(r.0) + word_base() * as_nat(r.1) == as_nat(a) * as_nat(b),
{
    let (p0, h0) = mul_by_limb(b, a.limb0);
    let (p1, h1) = mul_by_limb(b, a.limb1);
    let (p2, h2) = mul_by_limb(b, a.limb2);
    let (p3, h3) = mul_by_limb(b, a.limb3);

    // Accumulate p1..p3 shifted by 1..3 limbs. Row i is split at the 256-bit
    // boundary into a low-aligned part and a high part.
    let low1 = U256 { limb0: 0, limb1: p1.limb0, limb2: p1.limb1, limb3: p1.limb2 };
    let high1 = U256 { limb0: p1.limb3, limb1: h1, limb2: 0, limb3: 0 };
    let low2 = U256 { limb0: 0, limb1: 0, limb2: p2.limb0, limb3: p2.limb1 };
    let high2 = U256 { limb0: p2.limb2, limb1: p2.limb3, limb2: h2, limb3: 0 };
    let low3 = U256 { limb0: 0, limb1: 0, limb2: 0, limb3: p3.limb0 };
    let high3 = U256 { limb0: p3.limb1, limb1: p3.limb2, limb2: p3.limb3, limb3: h3 };

    let (s1, c1) = p0.add_with_carry(low1);
    let (s2, c2) = s1.add_with_carry(low2);
    let (s3, c3) = s2.add_with_carry(low3);

    let carries: u64 = (if c1 { 1u64 } else { 0u64 }) + (if c2 { 1u64 } else { 0u64 })
        + (if c3 { 1u64 } else { 0u64 });
    let carry_word = U256::from_u64(carries);

    let (t1, d1) = high1.add_with_carry(U256 { limb0: h0, limb1: 0, limb2: 0, limb3: 0 });
    let (t2, d2) = t1.add_with_carry(high2);
    let (t3, d3) = t2.add_with_carry(high3);
    let (t4, d4) = t3.add_with_carry(carry_word);

    proof {
        // The product of the full words, as the sum of the four rows.
        lemma_mul_horner_word(as_nat(b) as int, a);
        lemma_mul_is_commutative(as_nat(b) as int, as_nat(a) as int);
        lemma_mul_is_commutative(as_nat(b) as int, a.limb0 as int);
        lemma_mul_is_commutative(as_nat(b) as int, a.limb1 as int);
        lemma_mul_is_commutative(as_nat(b) as int, a.limb2 as int);
        lemma_mul_is_commutative(as_nat(b) as int, a.limb3 as int);
        // The total fits in 512 bits, so no high-side carry can fire.
        lemma_as_nat_bound(a);
        lemma_as_nat_bound(b);
        lemma_mul_upper_bound(
            as_nat(a) as int,
            word_base() - 1,
            as_nat(b) as int,
            word_base() - 1,
        );
    }
    (s3, t4)
}

} // verus!

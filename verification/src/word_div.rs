//! 256-bit division with remainder, shifts and rotations, built on binary
//! long division over the verified add/sub primitives.

use vstd::prelude::*;
use vstd::arithmetic::power2::{
    pow2, lemma_pow2_unfold, lemma_pow2_adds, lemma_pow2_strictly_increases, lemma2_to64,
};
use vstd::arithmetic::mul::{
    lemma_mul_is_associative, lemma_mul_is_commutative, lemma_mul_is_distributive_add_other_way,
    lemma_mul_is_distributive_sub_other_way, lemma_mul_inequality,
};
use vstd::arithmetic::div_mod::{
    lemma_fundamental_div_mod_converse, lemma_mul_mod_noop_left, lemma_small_mod,
};
use crate::word::{U256, as_nat, word_base, lemma_as_nat_bound};

verus! {

/// `pow2(256)` is the word modulus.
pub proof fn lemma_pow2_256_is_word_base()
    ensures
        pow2(256) == word_base(),
        pow2(128) == 0x1_0000_0000_0000_0000_0000_0000_0000_0000nat,
        pow2(64) == 0x1_0000_0000_0000_0000nat,
{
    lemma2_to64();
    lemma_pow2_adds(64, 64);
    lemma_pow2_adds(128, 128);
    assert(pow2(128) == 0x1_0000_0000_0000_0000_0000_0000_0000_0000nat) by (nonlinear_arith)
        requires
            pow2(128) == pow2(64) * pow2(64),
            pow2(64) == 0x1_0000_0000_0000_0000nat,
    ;
    assert(pow2(256) == word_base()) by (nonlinear_arith)
        requires
            pow2(256) == pow2(128) * pow2(128),
            pow2(128) == 0x1_0000_0000_0000_0000_0000_0000_0000_0000nat,
    ;
}

/// Doubling the multiplier doubles the product.
proof fn lemma_mul_double(x: int, p: int)
    ensures
        x * (2 * p) == 2 * (x * p),
{
    lemma_mul_is_commutative(x, 2 * p);
    lemma_mul_is_associative(2, p, x);
    lemma_mul_is_commutative(p, x);
}

/// If the scaled equation holds with a small nonnegative residue, the
/// multipliers agree and the residue is zero.
proof fn lemma_div_exit(na: int, t: int, rest: int, w: int, p: int)
    requires
        p == w,
        na * p == t * w + rest,
        0 <= rest < w,
        0 < w,
        0 <= na,
        0 <= t,
    ensures
        t == na,
        rest == 0,
{
    assert(na * w == t * w + rest) by (nonlinear_arith)
        requires
            p == w,
            na * p == t * w + rest,
    ;
    lemma_mul_is_distributive_sub_other_way(w, na, t);
    let k = na - t;
    if k >= 1 {
        lemma_mul_inequality(1, k, w);
        lemma_mul_is_commutative(k, w);
        assert(false);
    }
    if k <= -1 {
        lemma_mul_inequality(k, -1, w);
        lemma_mul_is_commutative(k, w);
        assert(false);
    }
}

/// One step of long division: doubling the partial quotient and remainder
/// while bringing in one dividend bit preserves the division invariant.
/// Stated over plain integers so the reasoning stays linear in the
/// abstracted products.
proof fn lemma_div_step(
    t: int, q: int, r: int, d: int, top: int, qbit: int, t2: int, q2: int, r2: int,
)
    requires
        t == q * d + r,
        t2 == 2 * t + top,
        q2 == 2 * q + qbit,
        r2 == 2 * r + top - qbit * d,
    ensures
        t2 == q2 * d + r2,
{
    lemma_mul_is_distributive_add_other_way(d, 2 * q, qbit);
    lemma_mul_is_associative(2, q, d);
}

impl U256 {
    /// Doubles the value and adds one incoming bit; the carry-out makes the
    /// pair exact.
    fn double_with_bit(self, bit: bool) -> (r: (U256, bool))
        ensures
            as_nat(r.0) + (if r.1 { word_base() } else { 0 })
                == 2 * as_nat(self) + (if bit { 1nat } else { 0nat }),
    {
        let (d, c) = self.add_with_carry(self);
        if bit {
            let out = U256 { limb0: d.limb0 + 1, limb1: d.limb1, limb2: d.limb2, limb3: d.limb3 };
            (out, c)
        } else {
            (d, c)
        }
    }

    /// Long division: returns `(quotient, remainder)` of the denoted numbers.
    #[verifier::rlimit(100)]
    pub fn div_rem(self, divisor: U256) -> (r: (U256, U256))
        requires
            as_nat(divisor) > 0,
        ensures
            as_nat(r.0) == as_nat(self) / as_nat(divisor),
            as_nat(r.1) == as_nat(self) % as_nat(divisor),
    {
        let ghost na: nat = as_nat(self);
        let ghost d: nat = as_nat(divisor);
        let mut rest = self;
        let mut quot = U256::zero();
        let mut rem = U256::zero();
        let mut k: usize = 0;
        let ghost mut t: nat = 0;
        let ghost mut p: nat = 1;
        proof {
            lemma_pow2_256_is_word_base();
            lemma2_to64();
            lemma_as_nat_bound(divisor);
            assert(na * 1 == na) by {
                lemma_mul_is_commutative(na as int, 1);
            }
            assert(0 * d == 0) by {
                lemma_mul_is_commutative(0, d as int);
            }
        }
        while k < 256
            invariant
                k <= 256,
                p == pow2(k as nat),
                na * p == t * word_base() + as_nat(rest),
                t == as_nat(quot) * d + as_nat(rem),
                as_nat(rem) < d,
                t < p,
                d == as_nat(divisor),
                0 < d < word_base(),
                pow2(256) == word_base(),
            decreases 256 - k,
        {
            let ghost p2: nat = 2 * p;
            proof {
                lemma_pow2_unfold((k + 1) as nat);
                lemma_pow2_unfold(256);
                if k < 255 {
                    lemma_pow2_strictly_increases(k as nat, 255);
                }
                lemma_mul_double(na as int, p as int);
                // the partial quotient is bounded by t
                lemma_mul_inequality(1, d as int, as_nat(quot) as int);
                lemma_mul_is_commutative(as_nat(quot) as int, d as int);
                lemma_mul_is_commutative(d as int, as_nat(quot) as int);
            }
            let (rest2, top) = rest.add_with_carry(rest);
            let ghost t2: nat = 2 * t + (if top { 1nat } else { 0nat });
            let (rd, c) = rem.double_with_bit(top);
            let (new_rem, qbit) = if c {
                let (rs, _) = rd.sub_with_borrow(divisor);
                (rs, true)
            } else if !rd.lt(divisor) {
                let (rs, _) = rd.sub_with_borrow(divisor);
                (rs, true)
            } else {
                (rd, false)
            };
            let (qd, _qc) = quot.double_with_bit(qbit);
            proof {
                lemma_div_step(
                    t as int,
                    as_nat(quot) as int,
                    as_nat(rem) as int,
                    d as int,
                    if top { 1int } else { 0int },
                    if qbit { 1int } else { 0int },
                    t2 as int,
                    2 * as_nat(quot) + (if qbit { 1int } else { 0int }),
                    2 * as_nat(rem) + (if top { 1int } else { 0int })
                        - (if qbit { d as int } else { 0int }),
                );
            }
            rest = rest2;
            rem = new_rem;
            quot = qd;
            proof {
                t = t2;
                p = p2;
            }
            k = k + 1;
        }
        proof {
            lemma_as_nat_bound(rest);
            lemma_div_exit(
                na as int,
                t as int,
                as_nat(rest) as int,
                word_base() as int,
                p as int,
            );
            lemma_fundamental_div_mod_converse(
                na as int,
                d as int,
                as_nat(quot) as int,
                as_nat(rem) as int,
            );
        }
        (quot, rem)
    }

    /// Left shift by `k` bits, reduced modulo 2^256.
    pub fn shl_mod(self, k: u32) -> (r: U256)
        requires
            k < 256,
        ensures
            as_nat(r) == (as_nat(self) * pow2(k as nat)) % word_base(),
    {
        let mut cur = self;
        let mut i: u32 = 0;
        proof {
            lemma_pow2_256_is_word_base();
            lemma2_to64();
            lemma_as_nat_bound(self);
            lemma_small_mod(as_nat(self), word_base());
            assert(as_nat(self) * 1 == as_nat(self)) by {
                lemma_mul_is_commutative(as_nat(self) as int, 1);
            }
        }
        while i < k
            invariant
                i <= k,
                k < 256,
                as_nat(cur) == (as_nat(self) * pow2(i as nat)) % word_base(),
            decreases k - i,
        {
            let (next, _) = cur.add_with_carry(cur);
            proof {
                lemma_pow2_unfold((i + 1) as nat);
                lemma_mul_mod_noop_left(
                    (as_nat(self) * pow2(i as nat)) as int,
                    2,
                    word_base() as int,
                );
                assert(as_nat(self) * pow2((i + 1) as nat)
                    == (as_nat(self) * pow2(i as nat)) * 2) by (nonlinear_arith)
                    requires
                        pow2((i + 1) as nat) == 2 * pow2(i as nat),
                ;
            }
            cur = next;
            i = i + 1;
        }
        cur
    }

    /// The word denoting `2^k`.
    pub fn power_of_two(k: u32) -> (r: U256)
        requires
            k < 256,
        ensures
            as_nat(r) == pow2(k as nat),
    {
        let r = U256::one().shl_mod(k);
        proof {
            lemma_pow2_256_is_word_base();
            lemma_pow2_strictly_increases(k as nat, 256);
            assert(1 * pow2(k as nat) == pow2(k as nat)) by {
                lemma_mul_is_commutative(1, pow2(k as nat) as int);
            }
            lemma_small_mod(pow2(k as nat), word_base());
        }
        r
    }

    /// Logical right shift by `k` bits.
    pub fn shr_floor(self, k: u32) -> (r: U256)
        requires
            k < 256,
        ensures
            as_nat(r) == as_nat(self) / pow2(k as nat),
    {
        let p = U256::power_of_two(k);
        proof {
            vstd::arithmetic::power2::lemma_pow2_pos(k as nat);
        }
        self.div_rem(p).0
    }
}

} // verus!

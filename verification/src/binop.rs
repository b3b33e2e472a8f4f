//! The pure value semantics of the two-operand instructions: each returns
//! a main result, a secondary result (the high word of a multiplication or
//! the remainder of a division), and the flag state an executing
//! instruction would set.

use vstd::prelude::*;
use vstd::arithmetic::power2::pow2;
use crate::predication::Flags;
use crate::program::BinopKind;
use crate::word::{U256, as_nat, word_base};

verus! {

/// The flags an arithmetic result sets: `lt_of` on overflow or underflow,
/// `eq` on a zero result, `gt` when the result is positive and nothing
/// overflowed.
pub open spec fn arithmetic_flags(result: nat, overflow: bool) -> Flags {
    Flags { lt_of: overflow, eq: result == 0, gt: result > 0 && !overflow }
}

/// The denoted value of an operation's main result. Shift and rotate
/// amounts are the low eight bits of the second operand; division by zero
/// yields zero.
pub open spec fn binop_result_low(op: BinopKind, a: U256, b: U256) -> nat {
    let av = as_nat(a);
    let bv = as_nat(b);
    match op {
        BinopKind::Add => (av + bv) % word_base(),
        BinopKind::Sub => ((av + word_base() - bv) as nat) % word_base(),
        BinopKind::And => as_nat(U256 {
            limb0: a.limb0 & b.limb0,
            limb1: a.limb1 & b.limb1,
            limb2: a.limb2 & b.limb2,
            limb3: a.limb3 & b.limb3,
        }),
        BinopKind::Or => as_nat(U256 {
            limb0: a.limb0 | b.limb0,
            limb1: a.limb1 | b.limb1,
            limb2: a.limb2 | b.limb2,
            limb3: a.limb3 | b.limb3,
        }),
        BinopKind::Xor => as_nat(U256 {
            limb0: a.limb0 ^ b.limb0,
            limb1: a.limb1 ^ b.limb1,
            limb2: a.limb2 ^ b.limb2,
            limb3: a.limb3 ^ b.limb3,
        }),
        BinopKind::ShiftLeft => (av * pow2(bv % 256)) % word_base(),
        BinopKind::ShiftRight => av / pow2(bv % 256),
        BinopKind::RotateLeft => {
            let k = bv % 256;
            if k == 0 {
                av
            } else {
                ((av * pow2(k)) % word_base() + av / pow2((256 - k) as nat)) % word_base()
            }
        },
        BinopKind::RotateRight => {
            let k = bv % 256;
            if k == 0 {
                av
            } else {
                ((av * pow2((256 - k) as nat)) % word_base() + av / pow2(k)) % word_base()
            }
        },
        BinopKind::Mul => (av * bv) % word_base(),
        BinopKind::Div => if bv == 0 {
            0
        } else {
            av / bv
        },
    }
}

/// The denoted value of an operation's second result: the high word of a
/// multiplication or the remainder of a division, zero for every other
/// operation.
pub open spec fn binop_result_high(op: BinopKind, a: U256, b: U256) -> nat {
    let av = as_nat(a);
    let bv = as_nat(b);
    match op {
        BinopKind::Mul => (av * bv) / word_base(),
        BinopKind::Div => if bv == 0 {
            0
        } else {
            av % bv
        },
        _ => 0,
    }
}

/// The flag state an operation sets when its `set_flags` bit is on.
pub open spec fn binop_flags(op: BinopKind, a: U256, b: U256) -> Flags {
    let low = binop_result_low(op, a, b);
    let high = binop_result_high(op, a, b);
    match op {
        BinopKind::Add => arithmetic_flags(low, as_nat(a) + as_nat(b) >= word_base()),
        BinopKind::Sub => arithmetic_flags(low, as_nat(a) < as_nat(b)),
        BinopKind::Mul => Flags { lt_of: high != 0, eq: low == 0, gt: low > 0 && high == 0 },
        BinopKind::Div => if as_nat(b) == 0 {
            Flags { lt_of: false, eq: true, gt: false }
        } else {
            arithmetic_flags(low, false)
        },
        _ => arithmetic_flags(low, false),
    }
}

/// Computes one two-operand operation on machine words; the results and
/// flags are pinned to the specification functions above.
pub fn binop_compute(op: BinopKind, a: U256, b: U256) -> (r: (U256, U256, Flags))
    ensures
        as_nat(r.0) == binop_result_low(op, a, b),
        as_nat(r.1) == binop_result_high(op, a, b),
        r.2 == binop_flags(op, a, b),
{
    let zero = U256::zero();
    match op {
        BinopKind::Add => {
            let (s, carry) = a.add_with_carry(b);
            let flags = Flags::new(carry, s.is_zero(), !carry && !s.is_zero());
            (s, zero, flags)
        },
        BinopKind::Sub => {
            let (d, borrow) = a.sub_with_borrow(b);
            proof {
                crate::word::lemma_as_nat_bound(d);
                vstd::arithmetic::div_mod::lemma_fundamental_div_mod_converse(
                    as_nat(a) + word_base() - as_nat(b) as int,
                    word_base() as int,
                    if borrow { 0int } else { 1int },
                    as_nat(d) as int,
                );
            }
            let flags = Flags::new(borrow, d.is_zero(), !borrow && !d.is_zero());
            (d, zero, flags)
        },
        BinopKind::And => {
            let v = a.and(b);
            let flags = Flags::new(false, v.is_zero(), !v.is_zero());
            (v, zero, flags)
        },
        BinopKind::Or => {
            let v = a.or(b);
            let flags = Flags::new(false, v.is_zero(), !v.is_zero());
            (v, zero, flags)
        },
        BinopKind::Xor => {
            let v = a.xor(b);
            let flags = Flags::new(false, v.is_zero(), !v.is_zero());
            (v, zero, flags)
        },
        BinopKind::ShiftLeft => {
            let k: u32 = (b.limb0 % 256) as u32;
            proof {
                lemma_low_byte(b);
            }
            let v = a.shl_mod(k);
            let flags = Flags::new(false, v.is_zero(), !v.is_zero());
            (v, zero, flags)
        },
        BinopKind::ShiftRight => {
            let k: u32 = (b.limb0 % 256) as u32;
            proof {
                lemma_low_byte(b);
            }
            let v = a.shr_floor(k);
            let flags = Flags::new(false, v.is_zero(), !v.is_zero());
            (v, zero, flags)
        },
        BinopKind::RotateLeft => {
            let k: u32 = (b.limb0 % 256) as u32;
            proof {
                lemma_low_byte(b);
            }
            let v = if k == 0 {
                a
            } else {
                let lo = a.shl_mod(k);
                let hi = a.shr_floor(256 - k);
                lo.add_with_carry(hi).0
            };
            let flags = Flags::new(false, v.is_zero(), !v.is_zero());
            (v, zero, flags)
        },
        BinopKind::RotateRight => {
            let k: u32 = (b.limb0 % 256) as u32;
            proof {
                lemma_low_byte(b);
            }
            let v = if k == 0 {
                a
            } else {
                let lo = a.shl_mod(256 - k);
                let hi = a.shr_floor(k);
                lo.add_with_carry(hi).0
            };
            let flags = Flags::new(false, v.is_zero(), !v.is_zero());
            (v, zero, flags)
        },
        BinopKind::Mul => {
            let (lo, hi) = crate::word_mul::mul_wide(a, b);
            proof {
                crate::word::lemma_as_nat_bound(lo);
                vstd::arithmetic::div_mod::lemma_fundamental_div_mod(
                    (as_nat(a) * as_nat(b)) as int,
                    word_base() as int,
                );
                vstd::arithmetic::div_mod::lemma_fundamental_div_mod_converse(
                    (as_nat(a) * as_nat(b)) as int,
                    word_base() as int,
                    as_nat(hi) as int,
                    as_nat(lo) as int,
                );
            }
            let flags = Flags::new(!hi.is_zero(), lo.is_zero(), !lo.is_zero() && hi.is_zero());
            (lo, hi, flags)
        },
        BinopKind::Div => {
            if b.is_zero() {
                (zero, zero, Flags::new(false, true, false))
            } else {
                let (q, rem) = a.div_rem(b);
                let flags = Flags::new(false, q.is_zero(), !q.is_zero());
                (q, rem, flags)
            }
        },
    }
}

/// The low byte of a word read from its low limb.
proof fn lemma_low_byte(b: U256)
    ensures
        b.limb0 as nat % 256 == as_nat(b) % 256,
{
}

} // verus!

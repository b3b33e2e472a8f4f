//! 256-bit unsigned machine words, stored as four 64-bit limbs
//! (least-significant first), with exact arithmetic contracts over the
//! natural number each word denotes.

use vstd::prelude::*;

verus! {

/// A 256-bit unsigned word: the register width of the machine.
#[derive(Clone, Copy, Debug, PartialEq, Eq, Structural)]
pub struct U256 {
    pub limb0: u64,
    pub limb1: u64,
    pub limb2: u64,
    pub limb3: u64,
}

/// The natural number a word denotes, in Horner form over the limb base 2^64.
pub open spec fn as_nat(a: U256) -> nat {
    (a.limb0
        + 0x1_0000_0000_0000_0000 * (a.limb1
            + 0x1_0000_0000_0000_0000 * (a.limb2
                + 0x1_0000_0000_0000_0000 * a.limb3))) as nat
}

/// 2^256, the modulus of the word space.
pub open spec fn word_base() -> nat {
    0x1_0000_0000_0000_0000_0000_0000_0000_0000_0000_0000_0000_0000_0000_0000_0000_0000nat
}

pub broadcast proof fn lemma_as_nat_bound(a: U256)
    ensures
        #[trigger] as_nat(a) < word_base(),
{
}

/// Two words denoting the same number are limb-for-limb equal: the base-2^64
/// representation is unique.
pub proof fn lemma_as_nat_injective(a: U256, b: U256)
    requires
        as_nat(a) == as_nat(b),
    ensures
        a == b,
{
}

impl U256 {
    pub fn zero() -> (r: U256)
        ensures
            as_nat(r) == 0,
            r == (U256 { limb0: 0, limb1: 0, limb2: 0, limb3: 0 }),
    {
        U256 { limb0: 0, limb1: 0, limb2: 0, limb3: 0 }
    }

    pub fn one() -> (r: U256)
        ensures
            as_nat(r) == 1,
    {
        U256 { limb0: 1, limb1: 0, limb2: 0, limb3: 0 }
    }

    pub fn from_u64(x: u64) -> (r: U256)
        ensures
            as_nat(r) == x,
            r == (U256 { limb0: x, limb1: 0, limb2: 0, limb3: 0 }),
    {
        U256 { limb0: x, limb1: 0, limb2: 0, limb3: 0 }
    }

    pub fn from_u128(x: u128) -> (r: U256)
        ensures
            as_nat(r) == x,
    {
        let lo: u64 = (x % 0x1_0000_0000_0000_0000) as u64;
        let hi: u64 = (x / 0x1_0000_0000_0000_0000) as u64;
        U256 { limb0: lo, limb1: hi, limb2: 0, limb3: 0 }
    }

    /// The low 32 bits.
    pub fn low_u32(self) -> (r: u32)
        ensures
            r == as_nat(self) % 0x1_0000_0000,
    {
        (self.limb0 % 0x1_0000_0000) as u32
    }

    /// The low 16 bits.
    pub fn low_u16(self) -> (r: u16)
        ensures
            r == as_nat(self) % 0x1_0000,
    {
        (self.limb0 % 0x1_0000) as u16
    }

    /// The low 64 bits.
    pub fn low_u64(self) -> (r: u64)
        ensures
            r == as_nat(self) % 0x1_0000_0000_0000_0000,
    {
        self.limb0
    }

    pub fn is_zero(self) -> (r: bool)
        ensures
            r == (as_nat(self) == 0),
    {
        self.limb0 == 0 && self.limb1 == 0 && self.limb2 == 0 && self.limb3 == 0
    }

    /// Addition with carry-out: the pair denotes the exact sum.
    pub fn add_with_carry(self, other: U256) -> (r: (U256, bool))
        ensures
            as_nat(r.0) + (if r.1 { word_base() } else { 0 }) == as_nat(self) + as_nat(other),
            as_nat(r.0) == (as_nat(self) + as_nat(other)) % word_base(),
            r.1 == (as_nat(self) + as_nat(other) >= word_base()),
    {
        let s0: u128 = self.limb0 as u128 + other.limb0 as u128;
        let l0: u64 = (s0 % 0x1_0000_0000_0000_0000) as u64;
        let c0: u128 = s0 / 0x1_0000_0000_0000_0000;
        let s1: u128 = self.limb1 as u128 + other.limb1 as u128 + c0;
        let l1: u64 = (s1 % 0x1_0000_0000_0000_0000) as u64;
        let c1: u128 = s1 / 0x1_0000_0000_0000_0000;
        let s2: u128 = self.limb2 as u128 + other.limb2 as u128 + c1;
        let l2: u64 = (s2 % 0x1_0000_0000_0000_0000) as u64;
        let c2: u128 = s2 / 0x1_0000_0000_0000_0000;
        let s3: u128 = self.limb3 as u128 + other.limb3 as u128 + c2;
        let l3: u64 = (s3 % 0x1_0000_0000_0000_0000) as u64;
        let c3: u128 = s3 / 0x1_0000_0000_0000_0000;
        let out = U256 { limb0: l0, limb1: l1, limb2: l2, limb3: l3 };
        proof {
            vstd::arithmetic::div_mod::lemma_fundamental_div_mod_converse(
                as_nat(self) + as_nat(other) as int,
                word_base() as int,
                if c3 == 1 { 1int } else { 0int },
                as_nat(out) as int,
            );
        }
        (out, c3 == 1)
    }

    /// Subtraction with borrow-out: the borrow flag is set exactly when
    /// `other` exceeds `self`; with it the pair denotes the exact difference.
    pub fn sub_with_borrow(self, other: U256) -> (r: (U256, bool))
        ensures
            as_nat(r.0) == as_nat(self) - as_nat(other) + (if r.1 { word_base() } else { 0 }),
            r.1 == (as_nat(self) < as_nat(other)),
    {
        let d0: u128 = 0x1_0000_0000_0000_0000 + self.limb0 as u128 - other.limb0 as u128;
        let l0: u64 = (d0 % 0x1_0000_0000_0000_0000) as u64;
        let b0: u128 = 1 - d0 / 0x1_0000_0000_0000_0000;
        let d1: u128 = 0x1_0000_0000_0000_0000 + self.limb1 as u128 - other.limb1 as u128 - b0;
        let l1: u64 = (d1 % 0x1_0000_0000_0000_0000) as u64;
        let b1: u128 = 1 - d1 / 0x1_0000_0000_0000_0000;
        let d2: u128 = 0x1_0000_0000_0000_0000 + self.limb2 as u128 - other.limb2 as u128 - b1;
        let l2: u64 = (d2 % 0x1_0000_0000_0000_0000) as u64;
        let b2: u128 = 1 - d2 / 0x1_0000_0000_0000_0000;
        let d3: u128 = 0x1_0000_0000_0000_0000 + self.limb3 as u128 - other.limb3 as u128 - b2;
        let l3: u64 = (d3 % 0x1_0000_0000_0000_0000) as u64;
        let b3: u128 = 1 - d3 / 0x1_0000_0000_0000_0000;
        let out = U256 { limb0: l0, limb1: l1, limb2: l2, limb3: l3 };
        (out, b3 == 1)
    }

    /// Strict comparison of the denoted numbers.
    pub fn lt(self, other: U256) -> (r: bool)
        ensures
            r == (as_nat(self) < as_nat(other)),
    {
        self.sub_with_borrow(other).1
    }

    /// Bitwise AND, limb for limb.
    pub fn and(self, other: U256) -> (r: U256)
        ensures
            r.limb0 == self.limb0 & other.limb0,
            r.limb1 == self.limb1 & other.limb1,
            r.limb2 == self.limb2 & other.limb2,
            r.limb3 == self.limb3 & other.limb3,
    {
        U256 {
            limb0: self.limb0 & other.limb0,
            limb1: self.limb1 & other.limb1,
            limb2: self.limb2 & other.limb2,
            limb3: self.limb3 & other.limb3,
        }
    }

    /// Bitwise OR, limb for limb.
    pub fn or(self, other: U256) -> (r: U256)
        ensures
            r.limb0 == self.limb0 | other.limb0,
            r.limb1 == self.limb1 | other.limb1,
            r.limb2 == self.limb2 | other.limb2,
            r.limb3 == self.limb3 | other.limb3,
    {
        U256 {
            limb0: self.limb0 | other.limb0,
            limb1: self.limb1 | other.limb1,
            limb2: self.limb2 | other.limb2,
            limb3: self.limb3 | other.limb3,
        }
    }

    /// Bitwise XOR, limb for limb.
    pub fn xor(self, other: U256) -> (r: U256)
        ensures
            r.limb0 == self.limb0 ^ other.limb0,
            r.limb1 == self.limb1 ^ other.limb1,
            r.limb2 == self.limb2 ^ other.limb2,
            r.limb3 == self.limb3 ^ other.limb3,
    {
        U256 {
            limb0: self.limb0 ^ other.limb0,
            limb1: self.limb1 ^ other.limb1,
            limb2: self.limb2 ^ other.limb2,
            limb3: self.limb3 ^ other.limb3,
        }
    }
}

} // verus!

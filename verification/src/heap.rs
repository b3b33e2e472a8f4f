//! Byte-addressable heap pages: an indexed pool of grow-on-write byte
//! vectors. Reads past the end of a page yield zero without extending it.

use vstd::prelude::*;
use crate::word::U256;

verus! {

/// The pool of heap pages, indexed by a 32-bit page id.
pub struct Heaps {
    pub pages: Vec<Vec<u8>>,
}

/// One 32-byte memory access, as the precompile memory oracle issues them.
#[derive(Clone, Copy, Debug)]
pub struct MemoryQuery {
    pub page: u32,
    pub index: u32,
    pub rw_flag: bool,
    pub value: U256,
    pub value_is_pointer: bool,
}

/// The byte at position `i` of page `p`: zero when the page does not exist
/// or the position is past its end.
pub open spec fn byte_at(h: Heaps, p: int, i: int) -> u8 {
    if 0 <= p < h.pages@.len() && 0 <= i < h.pages@[p]@.len() {
        h.pages@[p]@[i]
    } else {
        0
    }
}

/// Eight bytes read big-endian as one limb.
pub open spec fn be_limb(h: Heaps, p: int, a: int) -> nat {
    (byte_at(h, p, a) as nat) * 0x100_0000_0000_0000
        + (byte_at(h, p, a + 1) as nat) * 0x1_0000_0000_0000
        + (byte_at(h, p, a + 2) as nat) * 0x100_0000_0000
        + (byte_at(h, p, a + 3) as nat) * 0x1_0000_0000
        + (byte_at(h, p, a + 4) as nat) * 0x100_0000
        + (byte_at(h, p, a + 5) as nat) * 0x1_0000
        + (byte_at(h, p, a + 6) as nat) * 0x100
        + (byte_at(h, p, a + 7) as nat)
}

/// The 32-byte big-endian word starting at byte `a` of page `p`.
pub open spec fn word_at(h: Heaps, p: int, a: int) -> U256 {
    U256 {
        limb3: be_limb(h, p, a) as u64,
        limb2: be_limb(h, p, a + 8) as u64,
        limb1: be_limb(h, p, a + 16) as u64,
        limb0: be_limb(h, p, a + 24) as u64,
    }
}

/// The big-endian byte `j` (0 = most significant) of a word.
pub open spec fn word_byte(w: U256, j: int) -> u8 {
    let l: nat = if j < 8 {
        w.limb3 as nat
    } else if j < 16 {
        w.limb2 as nat
    } else if j < 24 {
        w.limb1 as nat
    } else {
        w.limb0 as nat
    };
    let m = 7 - (j % 8);
    ((l / pow2_8m(m)) % 256) as u8
}

/// 2^(8m) for m in 0..=7.
pub open spec fn pow2_8m(m: int) -> nat {
    if m <= 0 {
        1
    } else if m == 1 {
        0x100
    } else if m == 2 {
        0x1_0000
    } else if m == 3 {
        0x100_0000
    } else if m == 4 {
        0x1_0000_0000
    } else if m == 5 {
        0x100_0000_0000
    } else if m == 6 {
        0x1_0000_0000_0000
    } else {
        0x100_0000_0000_0000
    }
}

/// What one 32-byte write does to the pool: the target page is
/// zero-extended to cover the write, the 32 bytes take the word's
/// big-endian bytes, and everything else is unchanged.
pub open spec fn write_effect(pre: Heaps, post: Heaps, page: int, addr: int, value: U256) -> bool {
    &&& post.pages@.len() == pre.pages@.len()
    &&& forall|q: int| 0 <= q < pre.pages@.len() && q != page ==> post.pages@[q] == pre.pages@[q]
    &&& page >= pre.pages@.len() ==> post.pages@ == pre.pages@
    &&& page < pre.pages@.len() ==> {
        let oldp = pre.pages@[page]@;
        let newp = post.pages@[page]@;
        &&& newp.len() == vstd::math::max(oldp.len() as int, addr + 32)
        &&& forall|i: int| 0 <= i < oldp.len() && i < addr ==> newp[i] == oldp[i]
        &&& forall|i: int| oldp.len() <= i < addr ==> newp[i] == 0
        &&& forall|j: int| 0 <= j < 32 ==> newp[addr + j] == word_byte(value, j)
        &&& forall|i: int| addr + 32 <= i < oldp.len() ==> newp[i] == oldp[i]
    }
}

/// A limb is exactly the big-endian recomposition of its eight bytes.
proof fn lemma_limb_from_bytes(l: u64)
    ensures
        (l as nat / 0x100_0000_0000_0000 % 256) * 0x100_0000_0000_0000
            + (l as nat / 0x1_0000_0000_0000 % 256) * 0x1_0000_0000_0000
            + (l as nat / 0x100_0000_0000 % 256) * 0x100_0000_0000
            + (l as nat / 0x1_0000_0000 % 256) * 0x1_0000_0000
            + (l as nat / 0x100_0000 % 256) * 0x100_0000
            + (l as nat / 0x1_0000 % 256) * 0x1_0000
            + (l as nat / 0x100 % 256) * 0x100
            + l as nat % 256 == l,
{
    assert(l / 0x100_0000_0000_0000 % 256 == (l >> 56) & 0xff) by (bit_vector);
    assert(l / 0x1_0000_0000_0000 % 256 == (l >> 48) & 0xff) by (bit_vector);
    assert(l / 0x100_0000_0000 % 256 == (l >> 40) & 0xff) by (bit_vector);
    assert(l / 0x1_0000_0000 % 256 == (l >> 32) & 0xff) by (bit_vector);
    assert(l / 0x100_0000 % 256 == (l >> 24) & 0xff) by (bit_vector);
    assert(l / 0x1_0000 % 256 == (l >> 16) & 0xff) by (bit_vector);
    assert(l / 0x100 % 256 == (l >> 8) & 0xff) by (bit_vector);
    assert(l % 256 == l & 0xff) by (bit_vector);
    assert(((l >> 56) & 0xff) * 0x100_0000_0000_0000
        + ((l >> 48) & 0xff) * 0x1_0000_0000_0000
        + ((l >> 40) & 0xff) * 0x100_0000_0000
        + ((l >> 32) & 0xff) * 0x1_0000_0000
        + ((l >> 24) & 0xff) * 0x100_0000
        + ((l >> 16) & 0xff) * 0x1_0000
        + ((l >> 8) & 0xff) * 0x100
        + (l & 0xff) == l) by (bit_vector);
}

/// Reading back a word just written recovers it exactly: the thirty-two
/// stored bytes recompose into the word's limbs.
pub proof fn lemma_write_then_read(pre: Heaps, post: Heaps, page: int, addr: int, value: U256)
    requires
        write_effect(pre, post, page, addr, value),
        0 <= page < pre.pages@.len(),
        0 <= addr,
    ensures
        word_at(post, page, addr) == value,
{
    lemma_limb_from_bytes(value.limb3);
    lemma_limb_from_bytes(value.limb2);
    lemma_limb_from_bytes(value.limb1);
    lemma_limb_from_bytes(value.limb0);
    let newp = post.pages@[page]@;
    assert(newp[addr + 0] == word_byte(value, 0));
    assert(newp[addr + 1] == word_byte(value, 1));
    assert(newp[addr + 2] == word_byte(value, 2));
    assert(newp[addr + 3] == word_byte(value, 3));
    assert(newp[addr + 4] == word_byte(value, 4));
    assert(newp[addr + 5] == word_byte(value, 5));
    assert(newp[addr + 6] == word_byte(value, 6));
    assert(newp[addr + 7] == word_byte(value, 7));
    assert(newp[addr + 8] == word_byte(value, 8));
    assert(newp[addr + 9] == word_byte(value, 9));
    assert(newp[addr + 10] == word_byte(value, 10));
    assert(newp[addr + 11] == word_byte(value, 11));
    assert(newp[addr + 12] == word_byte(value, 12));
    assert(newp[addr + 13] == word_byte(value, 13));
    assert(newp[addr + 14] == word_byte(value, 14));
    assert(newp[addr + 15] == word_byte(value, 15));
    assert(newp[addr + 16] == word_byte(value, 16));
    assert(newp[addr + 17] == word_byte(value, 17));
    assert(newp[addr + 18] == word_byte(value, 18));
    assert(newp[addr + 19] == word_byte(value, 19));
    assert(newp[addr + 20] == word_byte(value, 20));
    assert(newp[addr + 21] == word_byte(value, 21));
    assert(newp[addr + 22] == word_byte(value, 22));
    assert(newp[addr + 23] == word_byte(value, 23));
    assert(newp[addr + 24] == word_byte(value, 24));
    assert(newp[addr + 25] == word_byte(value, 25));
    assert(newp[addr + 26] == word_byte(value, 26));
    assert(newp[addr + 27] == word_byte(value, 27));
    assert(newp[addr + 28] == word_byte(value, 28));
    assert(newp[addr + 29] == word_byte(value, 29));
    assert(newp[addr + 30] == word_byte(value, 30));
    assert(newp[addr + 31] == word_byte(value, 31));
    assert(byte_at(post, page, addr + 0) == newp[addr + 0]);
    assert(byte_at(post, page, addr + 1) == newp[addr + 1]);
    assert(byte_at(post, page, addr + 2) == newp[addr + 2]);
    assert(byte_at(post, page, addr + 3) == newp[addr + 3]);
    assert(byte_at(post, page, addr + 4) == newp[addr + 4]);
    assert(byte_at(post, page, addr + 5) == newp[addr + 5]);
    assert(byte_at(post, page, addr + 6) == newp[addr + 6]);
    assert(byte_at(post, page, addr + 7) == newp[addr + 7]);
    assert(byte_at(post, page, addr + 8) == newp[addr + 8]);
    assert(byte_at(post, page, addr + 9) == newp[addr + 9]);
    assert(byte_at(post, page, addr + 10) == newp[addr + 10]);
    assert(byte_at(post, page, addr + 11) == newp[addr + 11]);
    assert(byte_at(post, page, addr + 12) == newp[addr + 12]);
    assert(byte_at(post, page, addr + 13) == newp[addr + 13]);
    assert(byte_at(post, page, addr + 14) == newp[addr + 14]);
    assert(byte_at(post, page, addr + 15) == newp[addr + 15]);
    assert(byte_at(post, page, addr + 16) == newp[addr + 16]);
    assert(byte_at(post, page, addr + 17) == newp[addr + 17]);
    assert(byte_at(post, page, addr + 18) == newp[addr + 18]);
    assert(byte_at(post, page, addr + 19) == newp[addr + 19]);
    assert(byte_at(post, page, addr + 20) == newp[addr + 20]);
    assert(byte_at(post, page, addr + 21) == newp[addr + 21]);
    assert(byte_at(post, page, addr + 22) == newp[addr + 22]);
    assert(byte_at(post, page, addr + 23) == newp[addr + 23]);
    assert(byte_at(post, page, addr + 24) == newp[addr + 24]);
    assert(byte_at(post, page, addr + 25) == newp[addr + 25]);
    assert(byte_at(post, page, addr + 26) == newp[addr + 26]);
    assert(byte_at(post, page, addr + 27) == newp[addr + 27]);
    assert(byte_at(post, page, addr + 28) == newp[addr + 28]);
    assert(byte_at(post, page, addr + 29) == newp[addr + 29]);
    assert(byte_at(post, page, addr + 30) == newp[addr + 30]);
    assert(byte_at(post, page, addr + 31) == newp[addr + 31]);
    assert(byte_at(post, page, addr + 0) as nat == value.limb3 as nat / 0x100_0000_0000_0000 % 256);
    assert(byte_at(post, page, addr + 1) as nat == value.limb3 as nat / 0x1_0000_0000_0000 % 256);
    assert(byte_at(post, page, addr + 2) as nat == value.limb3 as nat / 0x100_0000_0000 % 256);
    assert(byte_at(post, page, addr + 3) as nat == value.limb3 as nat / 0x1_0000_0000 % 256);
    assert(byte_at(post, page, addr + 4) as nat == value.limb3 as nat / 0x100_0000 % 256);
    assert(byte_at(post, page, addr + 5) as nat == value.limb3 as nat / 0x1_0000 % 256);
    assert(byte_at(post, page, addr + 6) as nat == value.limb3 as nat / 0x100 % 256);
    assert(byte_at(post, page, addr + 7) as nat == value.limb3 as nat / 1 % 256);
    assert(byte_at(post, page, addr + 8) as nat == value.limb2 as nat / 0x100_0000_0000_0000 % 256);
    assert(byte_at(post, page, addr + 9) as nat == value.limb2 as nat / 0x1_0000_0000_0000 % 256);
    assert(byte_at(post, page, addr + 10) as nat == value.limb2 as nat / 0x100_0000_0000 % 256);
    assert(byte_at(post, page, addr + 11) as nat == value.limb2 as nat / 0x1_0000_0000 % 256);
    assert(byte_at(post, page, addr + 12) as nat == value.limb2 as nat / 0x100_0000 % 256);
    assert(byte_at(post, page, addr + 13) as nat == value.limb2 as nat / 0x1_0000 % 256);
    assert(byte_at(post, page, addr + 14) as nat == value.limb2 as nat / 0x100 % 256);
    assert(byte_at(post, page, addr + 15) as nat == value.limb2 as nat / 1 % 256);
    assert(byte_at(post, page, addr + 16) as nat == value.limb1 as nat / 0x100_0000_0000_0000 % 256);
    assert(byte_at(post, page, addr + 17) as nat == value.limb1 as nat / 0x1_0000_0000_0000 % 256);
    assert(byte_at(post, page, addr + 18) as nat == value.limb1 as nat / 0x100_0000_0000 % 256);
    assert(byte_at(post, page, addr + 19) as nat == value.limb1 as nat / 0x1_0000_0000 % 256);
    assert(byte_at(post, page, addr + 20) as nat == value.limb1 as nat / 0x100_0000 % 256);
    assert(byte_at(post, page, addr + 21) as nat == value.limb1 as nat / 0x1_0000 % 256);
    assert(byte_at(post, page, addr + 22) as nat == value.limb1 as nat / 0x100 % 256);
    assert(byte_at(post, page, addr + 23) as nat == value.limb1 as nat / 1 % 256);
    assert(byte_at(post, page, addr + 24) as nat == value.limb0 as nat / 0x100_0000_0000_0000 % 256);
    assert(byte_at(post, page, addr + 25) as nat == value.limb0 as nat / 0x1_0000_0000_0000 % 256);
    assert(byte_at(post, page, addr + 26) as nat == value.limb0 as nat / 0x100_0000_0000 % 256);
    assert(byte_at(post, page, addr + 27) as nat == value.limb0 as nat / 0x1_0000_0000 % 256);
    assert(byte_at(post, page, addr + 28) as nat == value.limb0 as nat / 0x100_0000 % 256);
    assert(byte_at(post, page, addr + 29) as nat == value.limb0 as nat / 0x1_0000 % 256);
    assert(byte_at(post, page, addr + 30) as nat == value.limb0 as nat / 0x100 % 256);
    assert(byte_at(post, page, addr + 31) as nat == value.limb0 as nat / 1 % 256);
    assert(be_limb(post, page, addr) == value.limb3);
    assert(be_limb(post, page, addr + 8) == value.limb2);
    assert(be_limb(post, page, addr + 16) == value.limb1);
    assert(be_limb(post, page, addr + 24) == value.limb0);
}

impl Heaps {
    /// The byte at `(page, index)`, zero when out of bounds.
    pub fn read_byte(&self, page: u32, index: u64) -> (r: u8)
        ensures
            r == byte_at(*self, page as int, index as int),
    {
        if (page as usize) < self.pages.len() {
            let pv: &Vec<u8> = &self.pages[page as usize];
            if index < pv.len() as u64 {
                pv[index as usize]
            } else {
                0
            }
        } else {
            0
        }
    }

    /// Reads eight bytes big-endian into one limb.
    fn read_limb(&self, page: u32, addr: u64) -> (r: u64)
        requires
            addr + 8 <= u64::MAX,
        ensures
            r == be_limb(*self, page as int, addr as int),
    {
        let b0 = self.read_byte(page, addr) as u64;
        let b1 = self.read_byte(page, addr + 1) as u64;
        let b2 = self.read_byte(page, addr + 2) as u64;
        let b3 = self.read_byte(page, addr + 3) as u64;
        let b4 = self.read_byte(page, addr + 4) as u64;
        let b5 = self.read_byte(page, addr + 5) as u64;
        let b6 = self.read_byte(page, addr + 6) as u64;
        let b7 = self.read_byte(page, addr + 7) as u64;
        b0 * 0x100_0000_0000_0000 + b1 * 0x1_0000_0000_0000 + b2 * 0x100_0000_0000
            + b3 * 0x1_0000_0000 + b4 * 0x100_0000 + b5 * 0x1_0000 + b6 * 0x100 + b7
    }

    /// Reads 32 bytes big-endian at `addr` on `page`, zero-padded past the
    /// end of the page. The page is not extended.
    pub fn read_word(&self, page: u32, addr: u64) -> (r: U256)
        requires
            addr + 32 <= u64::MAX,
        ensures
            r == word_at(*self, page as int, addr as int),
    {
        let limb3 = self.read_limb(page, addr);
        let limb2 = self.read_limb(page, addr + 8);
        let limb1 = self.read_limb(page, addr + 16);
        let limb0 = self.read_limb(page, addr + 24);
        U256 { limb0, limb1, limb2, limb3 }
    }

    /// Extends page `p` with zero bytes to length `target` if shorter.
    fn extend_page(&mut self, page: u32, target: usize)
        requires
            (page as int) < old(self).pages@.len(),
        ensures
            final(self).pages@.len() == old(self).pages@.len(),
            forall|q: int| 0 <= q < old(self).pages@.len() && q != page as int
                ==> final(self).pages@[q] == old(self).pages@[q],
            final(self).pages@[page as int]@.len()
                == vstd::math::max(old(self).pages@[page as int]@.len() as int, target as int),
            forall|i: int| 0 <= i < old(self).pages@[page as int]@.len()
                ==> final(self).pages@[page as int]@[i] == old(self).pages@[page as int]@[i],
            forall|i: int| old(self).pages@[page as int]@.len() <= i < target
                ==> final(self).pages@[page as int]@[i] == 0,
    {
        let pi = page as usize;
        while self.pages[pi].len() < target
            invariant
                pi < self.pages@.len(),
                pi == page as usize,
                self.pages@.len() == old(self).pages@.len(),
                forall|q: int| 0 <= q < old(self).pages@.len() && q != pi as int
                    ==> self.pages@[q] == old(self).pages@[q],
                old(self).pages@[pi as int]@.len() <= self.pages@[pi as int]@.len(),
                self.pages@[pi as int]@.len()
                    <= vstd::math::max(old(self).pages@[pi as int]@.len() as int, target as int),
                forall|i: int| 0 <= i < old(self).pages@[pi as int]@.len()
                    ==> self.pages@[pi as int]@[i] == old(self).pages@[pi as int]@[i],
                forall|i: int| old(self).pages@[pi as int]@.len() <= i
                    < self.pages@[pi as int]@.len() ==> self.pages@[pi as int]@[i] == 0,
            decreases target - self.pages@[pi as int]@.len(),
        {
            self.pages[pi].push(0);
        }
    }

    /// Writes one byte; the page must exist and be long enough.
    fn write_byte(&mut self, page: u32, index: usize, value: u8)
        requires
            (page as int) < old(self).pages@.len(),
            (index as int) < old(self).pages@[page as int]@.len(),
        ensures
            final(self).pages@.len() == old(self).pages@.len(),
            forall|q: int| 0 <= q < old(self).pages@.len() && q != page as int
                ==> final(self).pages@[q] == old(self).pages@[q],
            final(self).pages@[page as int]@
                == old(self).pages@[page as int]@.update(index as int, value),
    {
        self.pages[page as usize][index] = value;
    }

    /// Writes 32 bytes big-endian at `addr` on `page`, first zero-extending
    /// the page to `addr + 32` if it is shorter. A write to a page id that
    /// has never been allocated leaves the pool unchanged.
    pub fn write_word(&mut self, page: u32, addr: u64, value: U256)
        requires
            addr + 32 <= usize::MAX,
        ensures
            write_effect(*old(self), *final(self), page as int, addr as int, value),
    {
        if (page as usize) < self.pages.len() {
            let end: usize = (addr as usize) + 32;
            self.extend_page(page, end);
            let base = addr as usize;
            let b: [u64; 4] = [value.limb3, value.limb2, value.limb1, value.limb0];
            let mut li: usize = 0;
            while li < 4
                invariant
                    li <= 4,
                    base == addr as usize,
                    addr + 32 <= usize::MAX,
                    b@ == seq![value.limb3, value.limb2, value.limb1, value.limb0],
                    (page as int) < self.pages@.len(),
                    self.pages@.len() == old(self).pages@.len(),
                    forall|q: int| 0 <= q < old(self).pages@.len() && q != page as int
                        ==> self.pages@[q] == old(self).pages@[q],
                    self.pages@[page as int]@.len()
                        == vstd::math::max(old(self).pages@[page as int]@.len() as int, addr + 32),
                    forall|i: int| 0 <= i < old(self).pages@[page as int]@.len() && i < addr
                        ==> self.pages@[page as int]@[i] == old(self).pages@[page as int]@[i],
                    forall|i: int| old(self).pages@[page as int]@.len() <= i < addr
                        ==> self.pages@[page as int]@[i] == 0,
                    forall|j: int| 0 <= j < 8 * li
                        ==> self.pages@[page as int]@[addr + j] == word_byte(value, j),
                    forall|i: int| addr + 32 <= i < old(self).pages@[page as int]@.len()
                        ==> self.pages@[page as int]@[i] == old(self).pages@[page as int]@[i],
                decreases 4 - li,
            {
                let l: u64 = b[li];
                let off = base + 8 * li;
                self.write_byte(page, off, (l / 0x100_0000_0000_0000 % 0x100) as u8);
                self.write_byte(page, off + 1, (l / 0x1_0000_0000_0000 % 0x100) as u8);
                self.write_byte(page, off + 2, (l / 0x100_0000_0000 % 0x100) as u8);
                self.write_byte(page, off + 3, (l / 0x1_0000_0000 % 0x100) as u8);
                self.write_byte(page, off + 4, (l / 0x100_0000 % 0x100) as u8);
                self.write_byte(page, off + 5, (l / 0x1_0000 % 0x100) as u8);
                self.write_byte(page, off + 6, (l / 0x100 % 0x100) as u8);
                self.write_byte(page, off + 7, (l % 0x100) as u8);
                li = li + 1;
            }
        }
    }

    /// One precompile memory access: a 32-byte read or write at word
    /// `index` of `page`, as the memory oracle performs it.
    pub fn execute_partial_query(&mut self, query: MemoryQuery) -> (r: MemoryQuery)
        ensures
            query.rw_flag && query.index as int * 32 + 32 <= usize::MAX ==> write_effect(
                *old(self),
                *final(self),
                query.page as int,
                query.index as int * 32,
                query.value,
            ) && r == query,
            query.rw_flag && query.index as int * 32 + 32 > usize::MAX
                ==> *final(self) == *old(self) && r == query,
            !query.rw_flag ==> {
                &&& *final(self) == *old(self)
                &&& r.value == word_at(*old(self), query.page as int, query.index as int * 32)
                &&& r.value_is_pointer == false
                &&& r.page == query.page && r.index == query.index && r.rw_flag == query.rw_flag
            },
    {
        let mut q = query;
        let start: u64 = query.index as u64 * 32;
        if query.rw_flag {
            if start <= usize::MAX as u64 - 32 {
                self.write_word(query.page, start, query.value);
            }
        } else {
            q.value = self.read_word(query.page, start);
            q.value_is_pointer = false;
        }
        q
    }
}

} // verus!

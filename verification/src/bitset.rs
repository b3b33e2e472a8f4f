//! A dense bit vector over the 2^16 stack slots, marking which slots hold
//! pointer-tagged values.

use vstd::prelude::*;

verus! {

/// One bit per stack slot, packed into 64-bit words.
pub struct Bitset {
    pub words: Vec<u64>,
}

/// Whether bit `i` (i < 64) of `w` is set.
pub open spec fn word_bit(w: u64, i: u64) -> bool {
    (w >> i) & 1 == 1
}

impl Bitset {
    pub open spec fn wf(self) -> bool {
        self.words@.len() == 1024
    }

    /// Whether slot `i` is marked.
    pub open spec fn spec_get(self, i: u16) -> bool {
        word_bit(self.words@[i as int / 64], (i % 64) as u64)
    }

    /// A bitset with every slot clear.
    pub fn new() -> (r: Bitset)
        ensures
            r.wf(),
            forall|i: u16| !r.spec_get(i),
    {
        let mut words: Vec<u64> = Vec::new();
        let mut k: usize = 0;
        while k < 1024
            invariant
                k <= 1024,
                words@.len() == k,
                forall|j: int| 0 <= j < k ==> words@[j] == 0,
            decreases 1024 - k,
        {
            words.push(0);
            k = k + 1;
        }
        let r = Bitset { words };
        proof {
            assert forall|i: u16| !r.spec_get(i) by {
                assert(r.words@[i as int / 64] == 0);
                let b = (i % 64) as u64;
                assert(0u64 >> b & 1 == 0) by (bit_vector);
            }
        }
        r
    }

    pub fn get(&self, i: u16) -> (r: bool)
        requires
            self.wf(),
        ensures
            r == self.spec_get(i),
    {
        let w = self.words[(i / 64) as usize];
        let b: u64 = (i % 64) as u64;
        (w >> b) & 1 == 1
    }

    /// Sets or clears slot `i`, leaving every other slot as it was.
    pub fn set(&mut self, i: u16, value: bool)
        requires
            old(self).wf(),
        ensures
            final(self).wf(),
            final(self).spec_get(i) == value,
            forall|j: u16| j != i ==> final(self).spec_get(j) == old(self).spec_get(j),
    {
        let idx: usize = (i / 64) as usize;
        let b: u64 = (i % 64) as u64;
        let w = self.words[idx];
        let nw: u64 = if value {
            w | (1u64 << b)
        } else {
            w & !(1u64 << b)
        };
        self.words[idx] = nw;
        proof {
            if value {
                assert(((w | (1u64 << b)) >> b) & 1 == 1) by (bit_vector)
                    requires
                        b < 64,
                ;
            } else {
                assert(((w & !(1u64 << b)) >> b) & 1 == 0) by (bit_vector)
                    requires
                        b < 64,
                ;
            }
            assert forall|j: u16| j != i implies final(self).spec_get(j) == old(self).spec_get(j)
                by {
                if j as int / 64 == i as int / 64 {
                    let c = (j % 64) as u64;
                    assert(c != b);
                    if value {
                        assert(((w | (1u64 << b)) >> c) & 1 == (w >> c) & 1) by (bit_vector)
                            requires
                                b < 64,
                                c < 64,
                                c != b,
                        ;
                    } else {
                        assert(((w & !(1u64 << b)) >> c) & 1 == (w >> c) & 1) by (bit_vector)
                            requires
                                b < 64,
                                c < 64,
                                c != b,
                        ;
                    }
                }
            }
        }
    }
}

} // verus!

//! Fat pointers: tagged references (page, start, length, offset) packed
//! losslessly into the low 128 bits of a machine word.

use vstd::prelude::*;
use crate::program::Panic;
use crate::word::U256;

verus! {

/// A typed reference into a heap page, carried in a 256-bit register.
#[derive(Clone, Copy, Debug, PartialEq, Eq, Structural)]
pub struct FatPointer {
    pub offset: u32,
    pub memory_page: u32,
    pub start: u32,
    pub length: u32,
}

/// The packed form: offset at bit 0, page at bit 32, start at bit 64,
/// length at bit 96; the high 128 bits are zero.
pub open spec fn spec_pack(p: FatPointer) -> U256 {
    U256 {
        limb0: (p.offset + p.memory_page * 0x1_0000_0000) as u64,
        limb1: (p.start + p.length * 0x1_0000_0000) as u64,
        limb2: 0,
        limb3: 0,
    }
}

/// Decoding reads the same fields back and ignores the high 128 bits.
pub open spec fn spec_unpack(v: U256) -> FatPointer {
    FatPointer {
        offset: (v.limb0 % 0x1_0000_0000) as u32,
        memory_page: (v.limb0 / 0x1_0000_0000) as u32,
        start: (v.limb1 % 0x1_0000_0000) as u32,
        length: (v.limb1 / 0x1_0000_0000) as u32,
    }
}

/// Packing then unpacking restores every fat pointer exactly.
pub proof fn lemma_fat_pointer_round_trip(p: FatPointer)
    ensures
        spec_unpack(spec_pack(p)) == p,
{
}

impl FatPointer {
    /// Packs the pointer into a machine word.
    pub fn into_u256(self) -> (r: U256)
        ensures
            r == spec_pack(self),
    {
        U256 {
            limb0: self.offset as u64 + self.memory_page as u64 * 0x1_0000_0000,
            limb1: self.start as u64 + self.length as u64 * 0x1_0000_0000,
            limb2: 0,
            limb3: 0,
        }
    }

    /// Decodes a pointer from a machine word, ignoring the high 128 bits.
    pub fn from_u256(v: U256) -> (r: FatPointer)
        ensures
            r == spec_unpack(v),
    {
        FatPointer {
            offset: (v.limb0 % 0x1_0000_0000) as u32,
            memory_page: (v.limb0 / 0x1_0000_0000) as u32,
            start: (v.limb1 % 0x1_0000_0000) as u32,
            length: (v.limb1 / 0x1_0000_0000) as u32,
        }
    }

    /// The zero pointer, used as the return value on a panicking far return.
    pub fn zero() -> (r: FatPointer)
        ensures
            r == (FatPointer { offset: 0, memory_page: 0, start: 0, length: 0 }),
    {
        FatPointer { offset: 0, memory_page: 0, start: 0, length: 0 }
    }
}

/// The return value a far return denotes: a pointer-tagged value must
/// reference memory of the returning frame or newer — its page may not lie
/// below the frame's own heap page (the caller's pages, its calldata among
/// them, are all older) — and `None` stands for the rejection. An untagged
/// value describes a slice of the frame's own heap and is always legal.
pub open spec fn spec_far_return_pointer(
    abi: U256,
    is_pointer: bool,
    own_heap: u32,
) -> Option<FatPointer> {
    let p = spec_unpack(abi);
    if is_pointer {
        if p.memory_page < own_heap {
            None
        } else {
            Some(p)
        }
    } else {
        Some(FatPointer { offset: 0, memory_page: own_heap, start: p.start, length: p.length })
    }
}

/// Decides the return value of a far return; see `spec_far_return_pointer`.
pub fn far_return_pointer(abi: U256, is_pointer: bool, own_heap: u32) -> (r: Result<
    FatPointer,
    Panic,
>)
    ensures
        ({
            match spec_far_return_pointer(abi, is_pointer, own_heap) {
                Some(p) => r == Result::<FatPointer, Panic>::Ok(p),
                None => r == Result::<FatPointer, Panic>::Err(
                    Panic::ReturnPointerIntoCallersHeap,
                ),
            }
        }),
{
    let p = FatPointer::from_u256(abi);
    if is_pointer {
        if p.memory_page < own_heap {
            Err(Panic::ReturnPointerIntoCallersHeap)
        } else {
            Ok(p)
        }
    } else {
        Ok(FatPointer { offset: 0, memory_page: own_heap, start: p.start, length: p.length })
    }
}

} // verus!

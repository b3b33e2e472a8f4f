//! Decoded instructions, their addressing modes, and immutable programs.

use vstd::prelude::*;
use crate::predication::Predicate;
use crate::word::U256;

verus! {

/// Where an operand comes from.
#[derive(Clone, Copy, Debug, PartialEq, Eq, Structural)]
pub enum Source {
    /// A register, by its 4-bit index.
    Register(u8),
    /// A 16-bit immediate.
    Immediate(u16),
    /// A stack slot at an absolute index.
    StackAbsolute(u16),
    /// A stack slot at `sp - offset`, wrapping modulo 2^16.
    StackRelative(u16),
    /// A constant from the program's code page.
    CodePage(u16),
}

/// Where a result goes.
#[derive(Clone, Copy, Debug, PartialEq, Eq, Structural)]
pub enum Destination {
    Register(u8),
    StackAbsolute(u16),
    StackRelative(u16),
}

/// The operand plumbing every instruction carries: the predicate, up to two
/// sources, up to two destinations, and the operation flags.
///
/// Instructions carry no per-instruction static gas cost: the dispatch
/// loop charges a flat one gas for every instruction, executed or
/// skipped.
#[derive(Clone, Copy, Debug, PartialEq, Eq, Structural)]
pub struct Arguments {
    pub predicate: Predicate,
    pub src1: Source,
    /// Second source: always a register index.
    pub src2: u8,
    pub dst1: Destination,
    /// Second destination: always a register index.
    pub dst2: u8,
    /// Exchange the two operands before the operation.
    pub swap: bool,
    /// Update the flags from the result.
    pub set_flags: bool,
}

impl Arguments {
    /// Arguments with the given predicate and neutral defaults everywhere
    /// else.
    pub fn new(predicate: Predicate) -> (r: Arguments)
        ensures
            r.predicate == predicate,
            r.src1 == Source::Register(0),
            r.src2 == 0,
            r.dst1 == Destination::Register(0),
            r.dst2 == 0,
            !r.swap,
            !r.set_flags,
    {
        Arguments {
            predicate,
            src1: Source::Register(0),
            src2: 0,
            dst1: Destination::Register(0),
            dst2: 0,
            swap: false,
            set_flags: false,
        }
    }
}

/// The two-operand arithmetic and logic operations.
#[derive(Clone, Copy, Debug, PartialEq, Eq, Structural)]
pub enum BinopKind {
    Add,
    Sub,
    And,
    Or,
    Xor,
    ShiftLeft,
    ShiftRight,
    RotateLeft,
    RotateRight,
    Mul,
    Div,
}

/// The pointer manipulation operations.
#[derive(Clone, Copy, Debug, PartialEq, Eq, Structural)]
pub enum PtrOpKind {
    PtrAdd,
    PtrSub,
    PtrShrink,
    PtrPack,
}

/// How a far call derives the callee's address triple.
#[derive(Clone, Copy, Debug, PartialEq, Eq, Structural)]
pub enum CallingMode {
    Normal,
    Delegate,
    Mimic,
}

/// What an instruction does; the operand plumbing lives in `Arguments`.
#[derive(Clone, Copy, Debug, PartialEq, Eq, Structural)]
pub enum Opcode {
    Binop(BinopKind),
    PtrOp(PtrOpKind),
    /// Jump to the instruction index given by the source's low 16 bits.
    Jump,
    /// Read 32 bytes through a fat pointer decoded from the source.
    HeapLoad,
    /// Write 32 bytes through a fat pointer decoded from the source.
    HeapStore,
    /// Move a pointer-tagged value, preserving the tag.
    LoadPointer,
    /// Read a storage slot of the executing address.
    SLoad,
    /// Write a storage slot of the executing address.
    SStore,
    /// Intra-frame call: `(target, exception_handler)`.
    NearCall(u16, u16),
    /// Cross-contract call: `(mode, exception_handler)`.
    FarCall(CallingMode, u16),
    /// Return from the current near or far call.
    Ret,
    /// Revert: like a return, but the world rolls back.
    Revert,
    /// Invoke a precompile selected by the executing address.
    PrecompileCall,
}

/// One decoded instruction slot.
#[derive(Clone, Copy, Debug, PartialEq, Eq, Structural)]
pub struct Instruction {
    pub opcode: Opcode,
    pub arguments: Arguments,
}

/// An immutable decoded instruction sequence plus its code page. Owned by
/// the frame that executes it; a 16-bit instruction pointer must reach one
/// past every slot, so at most 2^16 - 1 instructions.
pub struct Program {
    pub instructions: Vec<Instruction>,
    pub code_page: Vec<U256>,
}

impl Program {
    pub open spec fn wf(self) -> bool {
        self.instructions@.len() <= 0xffff
    }

    pub fn new(instructions: Vec<Instruction>, code_page: Vec<U256>) -> (r: Program)
        requires
            instructions@.len() <= 0xffff,
        ensures
            r.instructions@ == instructions@,
            r.code_page@ == code_page@,
            r.wf(),
    {
        Program { instructions, code_page }
    }

    /// An empty program: running it ends at once with an invalid
    /// instruction panic.
    pub fn empty() -> (r: Program)
        ensures
            r.instructions@.len() == 0,
            r.code_page@.len() == 0,
            r.wf(),
    {
        Program { instructions: Vec::new(), code_page: Vec::new() }
    }
}

/// How a run ends, as the embedder sees it.
#[derive(Debug, PartialEq, Eq)]
pub enum ExecutionEnd {
    /// Clean exit of the root frame; the bytes are the returned region.
    ProgramFinished(Vec<u8>),
    /// The root frame reverted; the bytes are the revert region.
    Reverted(Vec<u8>),
    /// A panic unwound past the root frame.
    Panicked,
    /// The bootloader wrote to the configured hook address on its heap.
    SuspendedOnHook { hook: u32, pc_to_resume_from: u16 },
}

/// The recoverable in-machine error conditions; each unwinds to the
/// nearest exception handler and rolls the world back.
#[derive(Clone, Copy, Debug, PartialEq, Eq, Structural)]
pub enum Panic {
    OutOfGas,
    IncorrectPointerTags,
    PointerOffsetTooLarge,
    PtrPackLowBitsNotZero,
    JumpingOutOfProgram,
    InvalidInstruction,
    StaticFrameViolation,
    ReturnPointerIntoCallersHeap,
}

impl Instruction {
    /// An arithmetic or logic instruction.
    pub fn from_binop(
        op: BinopKind,
        src1: Source,
        src2: u8,
        dst1: Destination,
        dst2: u8,
        predicate: Predicate,
        swap: bool,
        set_flags: bool,
    ) -> (r: Instruction)
        ensures
            r.opcode == Opcode::Binop(op),
            r.arguments
                == (Arguments { predicate, src1, src2, dst1, dst2, swap, set_flags }),
    {
        Instruction {
            opcode: Opcode::Binop(op),
            arguments: Arguments { predicate, src1, src2, dst1, dst2, swap, set_flags },
        }
    }

    /// A pointer operation.
    pub fn from_ptr(
        op: PtrOpKind,
        src1: Source,
        src2: u8,
        dst1: Destination,
        predicate: Predicate,
        swap: bool,
    ) -> (r: Instruction)
        ensures
            r.opcode == Opcode::PtrOp(op),
            r.arguments.predicate == predicate,
            r.arguments.src1 == src1,
            r.arguments.src2 == src2,
            r.arguments.dst1 == dst1,
            r.arguments.swap == swap,
    {
        Instruction {
            opcode: Opcode::PtrOp(op),
            arguments: Arguments {
                predicate,
                src1,
                src2,
                dst1,
                dst2: 0,
                swap,
                set_flags: false,
            },
        }
    }

    pub fn from_jump(target: Source, predicate: Predicate) -> (r: Instruction)
        ensures
            r.opcode == Opcode::Jump,
            r.arguments.src1 == target,
            r.arguments.predicate == predicate,
    {
        let mut arguments = Arguments::new(predicate);
        arguments.src1 = target;
        Instruction { opcode: Opcode::Jump, arguments }
    }

    pub fn from_heap_load(src: Source, dst: Destination, predicate: Predicate) -> (r:
        Instruction)
        ensures
            r.opcode == Opcode::HeapLoad,
            r.arguments.src1 == src,
            r.arguments.dst1 == dst,
            r.arguments.predicate == predicate,
    {
        let mut arguments = Arguments::new(predicate);
        arguments.src1 = src;
        arguments.dst1 = dst;
        Instruction { opcode: Opcode::HeapLoad, arguments }
    }

    /// Writes the value in register `value_reg` through the pointer decoded
    /// from `src`.
    pub fn from_heap_store(src: Source, value_reg: u8, predicate: Predicate) -> (r: Instruction)
        ensures
            r.opcode == Opcode::HeapStore,
            r.arguments.src1 == src,
            r.arguments.src2 == value_reg,
            r.arguments.predicate == predicate,
    {
        let mut arguments = Arguments::new(predicate);
        arguments.src1 = src;
        arguments.src2 = value_reg;
        Instruction { opcode: Opcode::HeapStore, arguments }
    }

    pub fn from_load_pointer(src: Source, dst: Destination, predicate: Predicate) -> (r:
        Instruction)
        ensures
            r.opcode == Opcode::LoadPointer,
            r.arguments.src1 == src,
            r.arguments.dst1 == dst,
            r.arguments.predicate == predicate,
    {
        let mut arguments = Arguments::new(predicate);
        arguments.src1 = src;
        arguments.dst1 = dst;
        Instruction { opcode: Opcode::LoadPointer, arguments }
    }

    pub fn from_sload(key: Source, dst: Destination, predicate: Predicate) -> (r: Instruction)
        ensures
            r.opcode == Opcode::SLoad,
            r.arguments.src1 == key,
            r.arguments.dst1 == dst,
            r.arguments.predicate == predicate,
    {
        let mut arguments = Arguments::new(predicate);
        arguments.src1 = key;
        arguments.dst1 = dst;
        Instruction { opcode: Opcode::SLoad, arguments }
    }

    /// Stores the value in register `value_reg` under the key from `key`.
    pub fn from_sstore(key: Source, value_reg: u8, predicate: Predicate) -> (r: Instruction)
        ensures
            r.opcode == Opcode::SStore,
            r.arguments.src1 == key,
            r.arguments.src2 == value_reg,
            r.arguments.predicate == predicate,
    {
        let mut arguments = Arguments::new(predicate);
        arguments.src1 = key;
        arguments.src2 = value_reg;
        Instruction { opcode: Opcode::SStore, arguments }
    }

    /// A near call: gas to pass comes from `gas_src`; `target` and
    /// `exception_handler` are instruction indices.
    pub fn from_near_call(
        gas_src: Source,
        target: u16,
        exception_handler: u16,
        predicate: Predicate,
    ) -> (r: Instruction)
        ensures
            r.opcode == Opcode::NearCall(target, exception_handler),
            r.arguments.src1 == gas_src,
            r.arguments.predicate == predicate,
    {
        let mut arguments = Arguments::new(predicate);
        arguments.src1 = gas_src;
        Instruction { opcode: Opcode::NearCall(target, exception_handler), arguments }
    }

    /// A far call: the ABI comes from `abi_src`, the callee address from
    /// register `address_reg`. The ABI word packs the calldata pointer
    /// fields into its low 128 bits and the requested gas into bits
    /// 128..160; a third operand for the gas is not representable in the
    /// two-source operand model.
    pub fn from_far_call(
        mode: CallingMode,
        abi_src: Source,
        address_reg: u8,
        exception_handler: u16,
        predicate: Predicate,
    ) -> (r: Instruction)
        ensures
            r.opcode == Opcode::FarCall(mode, exception_handler),
            r.arguments.src1 == abi_src,
            r.arguments.src2 == address_reg,
            r.arguments.predicate == predicate,
    {
        let mut arguments = Arguments::new(predicate);
        arguments.src1 = abi_src;
        arguments.src2 = address_reg;
        Instruction { opcode: Opcode::FarCall(mode, exception_handler), arguments }
    }

    /// A return; the far return value is decoded from `src1`.
    pub fn from_ret(src1: Source, predicate: Predicate) -> (r: Instruction)
        ensures
            r.opcode == Opcode::Ret,
            r.arguments.src1 == src1,
            r.arguments.predicate == predicate,
    {
        let mut arguments = Arguments::new(predicate);
        arguments.src1 = src1;
        Instruction { opcode: Opcode::Ret, arguments }
    }

    /// A revert; the far return value is decoded from `src1`.
    pub fn from_revert(src1: Source, predicate: Predicate) -> (r: Instruction)
        ensures
            r.opcode == Opcode::Revert,
            r.arguments.src1 == src1,
            r.arguments.predicate == predicate,
    {
        let mut arguments = Arguments::new(predicate);
        arguments.src1 = src1;
        Instruction { opcode: Opcode::Revert, arguments }
    }

    /// A precompile call: the ABI from `abi`, the gas to burn from register
    /// `burn_reg`, success written to `out`.
    pub fn from_precompile_call(abi: Source, burn_reg: u8, out: Destination, predicate:
        Predicate) -> (r: Instruction)
        ensures
            r.opcode == Opcode::PrecompileCall,
            r.arguments.src1 == abi,
            r.arguments.src2 == burn_reg,
            r.arguments.dst1 == out,
            r.arguments.predicate == predicate,
    {
        let mut arguments = Arguments::new(predicate);
        arguments.src1 = abi;
        arguments.src2 = burn_reg;
        arguments.dst1 = out;
        Instruction { opcode: Opcode::PrecompileCall, arguments }
    }
}

/// An always-taken return: the conventional last instruction of a program.
/// Its untagged zero ABI describes an empty slice of the frame's own heap,
/// so the output is empty whatever the registers hold.
pub fn end_execution() -> (r: Instruction)
    ensures
        r.opcode == Opcode::Ret,
        r.arguments.src1 == Source::Immediate(0),
        r.arguments.predicate == Predicate::Always,
{
    Instruction::from_ret(Source::Immediate(0), Predicate::Always)
}

/// An unconditional jump back to the program's first instruction.
pub fn jump_to_beginning() -> (r: Instruction)
    ensures
        r.opcode == Opcode::Jump,
        r.arguments.src1 == Source::Immediate(0),
        r.arguments.predicate == Predicate::Always,
{
    Instruction::from_jump(Source::Immediate(0), Predicate::Always)
}

} // verus!

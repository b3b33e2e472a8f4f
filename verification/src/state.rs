//! The machine state and the predicated dispatch loop: registers, the
//! current and stashed call frames, the heap pool, and the handlers for
//! every instruction.

use vstd::prelude::*;
use crate::binop::{binop_flags, binop_result_high, binop_result_low};
use crate::callframe::{Callframe, NearCallFrame, same_but_near_state};
use crate::fat_pointer::FatPointer;
use crate::heap::{Heaps, MemoryQuery, byte_at, word_at, write_effect};
use crate::predication::{Flags, spec_satisfied};
use crate::program::{
    Arguments, BinopKind, CallingMode, Destination, ExecutionEnd, Instruction, Opcode, Panic,
    Program, PtrOpKind, Source,
};
use crate::word::{U256, as_nat};
use crate::world::{Address, ModifiedWorld, Snapshot, World};

verus! {

/// Whether bit `i` of a 16-bit register mask is set.
pub open spec fn reg_flag(mask: u16, i: u16) -> bool {
    (mask >> i) & 1 == 1
}

fn set_reg_flag(mask: u16, i: u16, value: bool) -> (r: u16)
    requires
        i < 16,
    ensures
        reg_flag(r, i) == value,
        forall|j: u16| j < 16 && j != i ==> reg_flag(r, j) == reg_flag(mask, j),
{
    let r: u16 = if value {
        mask | (1u16 << i)
    } else {
        mask & !(1u16 << i)
    };
    proof {
        if value {
            assert(((mask | (1u16 << i)) >> i) & 1 == 1) by (bit_vector)
                requires
                    i < 16,
            ;
            assert forall|j: u16| j < 16 && j != i implies reg_flag(mask | (1u16 << i), j)
                == reg_flag(mask, j) by {
                assert(((mask | (1u16 << i)) >> j) & 1 == (mask >> j) & 1) by (bit_vector)
                    requires
                        i < 16,
                        j < 16,
                        i != j,
                ;
            }
        } else {
            assert(((mask & !(1u16 << i)) >> i) & 1 == 0) by (bit_vector)
                requires
                    i < 16,
            ;
            assert forall|j: u16| j < 16 && j != i implies reg_flag(mask & !(1u16 << i), j)
                == reg_flag(mask, j) by {
                assert(((mask & !(1u16 << i)) >> j) & 1 == (mask >> j) & 1) by (bit_vector)
                    requires
                        i < 16,
                        j < 16,
                        i != j,
                ;
            }
        }
    }
    r
}

/// The gas stashed in the suspended far frames.
pub open spec fn frames_gas(s: Seq<(u16, Callframe)>) -> nat
    decreases s.len(),
{
    if s.len() == 0 {
        0nat
    } else {
        frames_gas(s.drop_last()) + s.last().1.contained_gas()
    }
}

/// The number of activations, near and far, in the suspended frames.
pub open spec fn frames_count(s: Seq<(u16, Callframe)>) -> nat
    decreases s.len(),
{
    if s.len() == 0 {
        0nat
    } else {
        frames_count(s.drop_last()) + 1 + s.last().1.near_calls@.len()
    }
}

/// The value an operand source denotes in a given state.
pub open spec fn source_value<W>(s: State<W>, src: Source) -> U256 {
    match src {
        Source::Register(ri) => s.registers@[ri as int % 16],
        Source::Immediate(v) => U256 { limb0: v as u64, limb1: 0, limb2: 0, limb3: 0 },
        Source::StackAbsolute(i) => s.current_frame.stack@[i as int],
        Source::StackRelative(off) => s.current_frame.stack@[(s.current_frame.sp as int
            + 0x1_0000 - off) % 0x1_0000],
        Source::CodePage(i) => if (i as int) < s.current_frame.program.code_page@.len() {
            s.current_frame.program.code_page@[i as int]
        } else {
            U256 { limb0: 0, limb1: 0, limb2: 0, limb3: 0 }
        },
    }
}

/// Whether an operand source carries the pointer tag.
pub open spec fn source_is_pointer<W>(s: State<W>, src: Source) -> bool {
    match src {
        Source::Register(ri) => reg_flag(s.register_pointer_flags, (ri % 16) as u16),
        Source::Immediate(_) => false,
        Source::StackAbsolute(i) => s.current_frame.stack_pointer_flags.spec_get(i),
        Source::StackRelative(off) => s.current_frame.stack_pointer_flags.spec_get(((
            s.current_frame.sp as int + 0x1_0000 - off) % 0x1_0000) as u16),
        Source::CodePage(_) => false,
    }
}

/// The value a destination slot holds in a state; `sp` is the stack
/// pointer relative writes were resolved against.
pub open spec fn dest_read<W>(s: State<W>, dst: Destination, sp: u16) -> U256 {
    match dst {
        Destination::Register(ri) => s.registers@[ri as int % 16],
        Destination::StackAbsolute(i) => s.current_frame.stack@[i as int],
        Destination::StackRelative(off) => s.current_frame.stack@[(sp as int + 0x1_0000 - off)
            % 0x1_0000],
    }
}

/// Exactly the destination slot was written, carrying `is_pointer`; every
/// other register, pointer tag and stack slot is as it was. Relative
/// destinations resolve against `pre`'s stack pointer.
pub open spec fn dest_written<W>(
    pre: State<W>,
    post: State<W>,
    dst: Destination,
    is_pointer: bool,
) -> bool {
    &&& post.registers@.len() == pre.registers@.len()
    &&& post.current_frame.stack@.len() == pre.current_frame.stack@.len()
    &&& match dst {
        Destination::Register(ri) => {
            &&& forall|j: int| 0 <= j < pre.registers@.len() && j != ri as int % 16
                ==> post.registers@[j] == pre.registers@[j]
            &&& reg_flag(post.register_pointer_flags, (ri % 16) as u16) == is_pointer
            &&& forall|j: u16| j < 16 && j != (ri % 16) as u16
                ==> reg_flag(post.register_pointer_flags, j)
                    == reg_flag(pre.register_pointer_flags, j)
            &&& post.current_frame.stack@ == pre.current_frame.stack@
            &&& post.current_frame.stack_pointer_flags.words@
                == pre.current_frame.stack_pointer_flags.words@
        },
        Destination::StackAbsolute(i) => {
            &&& forall|j: int| 0 <= j < pre.current_frame.stack@.len() && j != i as int
                ==> post.current_frame.stack@[j] == pre.current_frame.stack@[j]
            &&& post.current_frame.stack_pointer_flags.spec_get(i) == is_pointer
            &&& forall|j: u16| j != i ==> post.current_frame.stack_pointer_flags.spec_get(j)
                == pre.current_frame.stack_pointer_flags.spec_get(j)
            &&& post.registers@ == pre.registers@
            &&& post.register_pointer_flags == pre.register_pointer_flags
        },
        Destination::StackRelative(off) => {
            let idx = (pre.current_frame.sp as int + 0x1_0000 - off) % 0x1_0000;
            &&& forall|j: int| 0 <= j < pre.current_frame.stack@.len() && j != idx
                ==> post.current_frame.stack@[j] == pre.current_frame.stack@[j]
            &&& post.current_frame.stack_pointer_flags.spec_get(idx as u16) == is_pointer
            &&& forall|j: u16| j != idx as u16
                ==> post.current_frame.stack_pointer_flags.spec_get(j)
                    == pre.current_frame.stack_pointer_flags.spec_get(j)
            &&& post.registers@ == pre.registers@
            &&& post.register_pointer_flags == pre.register_pointer_flags
        },
    }
}

/// Exactly the destination slot and the second-destination register were
/// written, both untagged; every other register, pointer tag and stack
/// slot is as it was. Relative destinations resolve against `pre`'s stack
/// pointer.
pub open spec fn dest2_written<W>(
    pre: State<W>,
    post: State<W>,
    dst: Destination,
    dst2: u8,
) -> bool {
    let d2 = dst2 as int % 16;
    &&& post.registers@.len() == pre.registers@.len()
    &&& post.current_frame.stack@.len() == pre.current_frame.stack@.len()
    &&& reg_flag(post.register_pointer_flags, (dst2 % 16) as u16) == false
    &&& match dst {
        Destination::Register(ri) => {
            &&& forall|j: int| 0 <= j < pre.registers@.len() && j != ri as int % 16 && j != d2
                ==> post.registers@[j] == pre.registers@[j]
            &&& reg_flag(post.register_pointer_flags, (ri % 16) as u16) == false
            &&& forall|j: u16| j < 16 && j != (ri % 16) as u16 && j != (dst2 % 16) as u16
                ==> reg_flag(post.register_pointer_flags, j)
                    == reg_flag(pre.register_pointer_flags, j)
            &&& post.current_frame.stack@ == pre.current_frame.stack@
            &&& post.current_frame.stack_pointer_flags.words@
                == pre.current_frame.stack_pointer_flags.words@
        },
        Destination::StackAbsolute(i) => {
            &&& forall|j: int| 0 <= j < pre.current_frame.stack@.len() && j != i as int
                ==> post.current_frame.stack@[j] == pre.current_frame.stack@[j]
            &&& post.current_frame.stack_pointer_flags.spec_get(i) == false
            &&& forall|j: u16| j != i ==> post.current_frame.stack_pointer_flags.spec_get(j)
                == pre.current_frame.stack_pointer_flags.spec_get(j)
            &&& forall|j: int| 0 <= j < pre.registers@.len() && j != d2
                ==> post.registers@[j] == pre.registers@[j]
            &&& forall|j: u16| j < 16 && j != (dst2 % 16) as u16
                ==> reg_flag(post.register_pointer_flags, j)
                    == reg_flag(pre.register_pointer_flags, j)
        },
        Destination::StackRelative(off) => {
            let idx = (pre.current_frame.sp as int + 0x1_0000 - off) % 0x1_0000;
            &&& forall|j: int| 0 <= j < pre.current_frame.stack@.len() && j != idx
                ==> post.current_frame.stack@[j] == pre.current_frame.stack@[j]
            &&& post.current_frame.stack_pointer_flags.spec_get(idx as u16) == false
            &&& forall|j: u16| j != idx as u16
                ==> post.current_frame.stack_pointer_flags.spec_get(j)
                    == pre.current_frame.stack_pointer_flags.spec_get(j)
            &&& forall|j: int| 0 <= j < pre.registers@.len() && j != d2
                ==> post.registers@[j] == pre.registers@[j]
            &&& forall|j: u16| j < 16 && j != (dst2 % 16) as u16
                ==> reg_flag(post.register_pointer_flags, j)
                    == reg_flag(pre.register_pointer_flags, j)
        },
    }
}

/// The parts of the machine a plain register/stack write can never touch:
/// the world journals, the heaps, the stashed frames, the staged context,
/// the hook, and every frame field except the stack and its tags.
pub open spec fn scaffolding_unchanged<W>(pre: State<W>, post: State<W>) -> bool {
    &&& post.world.storage_writes@ == pre.world.storage_writes@
    &&& post.world.events@ == pre.world.events@
    &&& post.heaps.pages@ == pre.heaps.pages@
    &&& post.previous_frames@ == pre.previous_frames@
    &&& post.context_u128 == pre.context_u128
    &&& post.hook_address == pre.hook_address
    &&& post.current_frame.sp == pre.current_frame.sp
    &&& post.current_frame.near_calls@ == pre.current_frame.near_calls@
    &&& post.current_frame.program.instructions@ == pre.current_frame.program.instructions@
    &&& post.current_frame.program.code_page@ == pre.current_frame.program.code_page@
    &&& post.current_frame.address == pre.current_frame.address
    &&& post.current_frame.code_address == pre.current_frame.code_address
    &&& post.current_frame.caller == pre.current_frame.caller
    &&& post.current_frame.exception_handler == pre.current_frame.exception_handler
    &&& post.current_frame.context_u128 == pre.current_frame.context_u128
    &&& post.current_frame.is_static == pre.current_frame.is_static
    &&& post.current_frame.heap == pre.current_frame.heap
    &&& post.current_frame.aux_heap == pre.current_frame.aux_heap
    &&& post.current_frame.calldata_heap == pre.current_frame.calldata_heap
    &&& post.current_frame.stipend == pre.current_frame.stipend
    &&& post.current_frame.heaps_i_am_keeping_alive@
        == pre.current_frame.heaps_i_am_keeping_alive@
    &&& post.current_frame.world_before_this_frame == pre.current_frame.world_before_this_frame
}

/// `post` is `pre` cut back to an earlier point: an append-only journal
/// after zero or more rollbacks.
pub open spec fn journal_prefix<T>(pre: Seq<T>, post: Seq<T>) -> bool {
    post.len() <= pre.len() && post == pre.take(post.len() as int)
}

proof fn lemma_journal_prefix_refl<T>(a: Seq<T>)
    ensures
        journal_prefix(a, a),
{
    assert(a =~= a.take(a.len() as int));
}

proof fn lemma_journal_prefix_trans<T>(a: Seq<T>, b: Seq<T>, c: Seq<T>)
    requires
        journal_prefix(a, b),
        journal_prefix(b, c),
    ensures
        journal_prefix(a, c),
{
    assert(c =~= a.take(c.len() as int));
}

/// The innermost near-call record whose exception handler lies inside the
/// program, as an index into the stack of records; `None` when no popped
/// near frame can receive control.
pub open spec fn find_near_handler(s: Seq<NearCallFrame>, prog_len: int) -> Option<int>
    decreases s.len(),
{
    if s.len() == 0 {
        None
    } else if (s.last().exception_handler as int) < prog_len {
        Some(s.len() - 1)
    } else {
        find_near_handler(s.drop_last(), prog_len)
    }
}

/// Where unwinding lands. Near frames of the current activation are popped
/// innermost first; the innermost one with an in-range handler receives
/// control, with its stashed `sp` and gas restored. With none, the far
/// frame is popped and the handler installed at its call checked against
/// the caller's program, recursing through the callers; only when every
/// frame is exhausted does the run end `Panicked`.
pub open spec fn unwound_to_handler<W: World>(
    cur: Callframe,
    prev: Seq<(u16, Callframe)>,
    post: State<W>,
    r: StepOutcome,
) -> bool
    decreases prev.len(),
{
    match find_near_handler(cur.near_calls@, cur.program.instructions@.len() as int) {
        Some(i) => {
            let f = cur.near_calls@[i];
            &&& r == StepOutcome::Continue(f.exception_handler as u32)
            &&& post.current_frame.near_calls@ == cur.near_calls@.take(i)
            &&& post.current_frame.sp == f.previous_frame_sp
            &&& post.current_frame.gas == f.previous_frame_gas
            &&& same_but_near_state(cur, post.current_frame)
            &&& post.previous_frames@ == prev
        },
        None => {
            if prev.len() == 0 {
                r == StepOutcome::End(ExecutionEnd::Panicked)
            } else {
                let caller = prev.last().1;
                if (cur.exception_handler as int) < caller.program.instructions@.len() {
                    &&& r == StepOutcome::Continue(cur.exception_handler as u32)
                    &&& post.previous_frames@ == prev.drop_last()
                    &&& same_but_near_state(caller, post.current_frame)
                    &&& post.current_frame.sp == caller.sp
                    &&& post.current_frame.gas == caller.gas
                    &&& post.current_frame.near_calls@ == caller.near_calls@
                } else {
                    unwound_to_handler(caller, prev.drop_last(), post, r)
                }
            }
        },
    }
}

proof fn lemma_find_near_handler_bounds(s: Seq<NearCallFrame>, l: int)
    ensures
        ({
            match find_near_handler(s, l) {
                Some(i) => 0 <= i < s.len() && (s[i].exception_handler as int) < l,
                None => true,
            }
        }),
    decreases s.len(),
{
    if s.len() > 0 && !((s.last().exception_handler as int) < l) {
        lemma_find_near_handler_bounds(s.drop_last(), l);
    }
}

/// Popping one near-call record whose handler is out of range does not
/// change where unwinding lands.
proof fn lemma_unwound_drop_invalid_near<W: World>(
    cur: Callframe,
    cur2: Callframe,
    prev: Seq<(u16, Callframe)>,
    post: State<W>,
    r: StepOutcome,
)
    requires
        cur.near_calls@.len() > 0,
        (cur.near_calls@.last().exception_handler as int) >= cur.program.instructions@.len(),
        same_but_near_state(cur, cur2),
        cur2.near_calls@ == cur.near_calls@.drop_last(),
        cur2.exception_handler == cur.exception_handler,
        unwound_to_handler(cur2, prev, post, r),
    ensures
        unwound_to_handler(cur, prev, post, r),
{
    let l = cur.program.instructions@.len() as int;
    lemma_find_near_handler_bounds(cur2.near_calls@, l);
    match find_near_handler(cur2.near_calls@, l) {
        Some(i) => {
            assert(cur.near_calls@.take(i) =~= cur2.near_calls@.take(i));
        },
        None => {},
    }
}

/// The weak half of the panic guarantee, which also covers a panic that
/// starts after a handler already moved register or frame state: gas never
/// grows, the journals only shrink back, and execution either continues at
/// an in-range handler with the error flags set or ends `Panicked` with
/// every frame exhausted.
pub open spec fn panic_escalation<W: World>(
    pre: State<W>,
    post: State<W>,
    r: StepOutcome,
) -> bool {
    &&& post.total_gas() <= pre.total_gas()
    &&& journal_prefix(pre.world.storage_writes@, post.world.storage_writes@)
    &&& journal_prefix(pre.world.events@, post.world.events@)
    &&& post.heaps.pages@ == pre.heaps.pages@
    &&& post.hook_address == pre.hook_address
    &&& match r {
        StepOutcome::Continue(next) => {
            &&& post.flags == (Flags { lt_of: true, eq: false, gt: false })
            &&& post.context_u128 == 0
            &&& (next as int) < post.current_frame.program.instructions@.len()
        },
        StepOutcome::End(end) => {
            &&& end == ExecutionEnd::Panicked
            &&& post.previous_frames@.len() == 0
            &&& post.current_frame.near_calls@.len() == 0
        },
        StepOutcome::Precompile { .. } => false,
    }
}

/// What unwinding after a panic guarantees. Frames are popped, each with
/// its snapshot rolled back, until an in-range exception handler is
/// found: then execution continues there with the error flags set, the
/// staged context cleared, and — whenever a far frame was popped — the
/// registers zeroed except for a tagged zero pointer in register 1. The
/// journals only ever shrink back to an earlier point. The run ends
/// `Panicked` exactly when every frame is exhausted.
pub open spec fn panic_unwound<W: World>(pre: State<W>, post: State<W>, r: StepOutcome) -> bool {
    &&& panic_escalation(pre, post, r)
    &&& unwound_to_handler(pre.current_frame, pre.previous_frames@, post, r)
    &&& match r {
        StepOutcome::Continue(next) => {
            &&& post.total_frames() < pre.total_frames()
            &&& {
                ||| {
                    &&& post.previous_frames@ == pre.previous_frames@
                    &&& post.registers@ == pre.registers@
                    &&& post.register_pointer_flags == pre.register_pointer_flags
                    &&& crate::callframe::same_but_near_state(
                        pre.current_frame,
                        post.current_frame,
                    )
                }
                ||| {
                    &&& post.previous_frames@.len() < pre.previous_frames@.len()
                    &&& post.registers@.len() == 16
                    &&& post.registers@[1] == crate::fat_pointer::spec_pack(FatPointer {
                        offset: 0,
                        memory_page: 0,
                        start: 0,
                        length: 0,
                    })
                    &&& forall|j: int| 0 <= j < 16 && j != 1
                        ==> as_nat(#[trigger] post.registers@[j]) == 0
                    &&& post.register_pointer_flags == 2
                }
            }
        },
        StepOutcome::End(end) => {
            &&& end == ExecutionEnd::Panicked
            &&& post.previous_frames@.len() == 0
            &&& post.current_frame.near_calls@.len() == 0
        },
        StepOutcome::Precompile { .. } => false,
    }
}


/// Saturating 32-bit addition on denoted values.
pub open spec fn sat_add_u32(a: nat, b: nat) -> nat {
    if a + b > 0xffff_ffff {
        0xffff_ffff as nat
    } else {
        a + b
    }
}

/// Registers, their tags, the stack and its tags are all as they were.
pub open spec fn machine_registers_unchanged<W>(pre: State<W>, post: State<W>) -> bool {
    &&& post.registers@ == pre.registers@
    &&& post.register_pointer_flags == pre.register_pointer_flags
    &&& post.current_frame.stack@ == pre.current_frame.stack@
    &&& post.current_frame.stack_pointer_flags.words@
        == pre.current_frame.stack_pointer_flags.words@
}

/// One gas unit was charged for the tick and nothing else moved.
pub open spec fn only_gas_charged<W>(pre: State<W>, post: State<W>) -> bool {
    &&& machine_registers_unchanged(pre, post)
    &&& scaffolding_unchanged(pre, post)
    &&& post.flags == pre.flags
    &&& post.current_frame.gas + 1 == pre.current_frame.gas
}

/// What an arithmetic or logic instruction does. `gas0` is the frame's gas
/// at handler entry (after the tick's charge).
pub open spec fn binop_effect<W: World>(
    pre: State<W>,
    post: State<W>,
    op: BinopKind,
    args: Arguments,
    ip: u16,
    r: StepOutcome,
    gas0: nat,
) -> bool {
    let t1 = source_is_pointer(pre, args.src1);
    let t2 = reg_flag(pre.register_pointer_flags, (args.src2 % 16) as u16);
    if t1 || t2 {
        panic_unwound(pre, post, r)
    } else {
        let v1 = source_value(pre, args.src1);
        let v2 = pre.registers@[args.src2 as int % 16];
        let a = if args.swap { v2 } else { v1 };
        let b = if args.swap { v1 } else { v2 };
        let second_dst_overlaps = match op {
            BinopKind::Mul | BinopKind::Div => match args.dst1 {
                Destination::Register(ri) => ri as int % 16 == args.dst2 as int % 16,
                _ => false,
            },
            _ => false,
        };
        &&& r == StepOutcome::Continue((ip + 1) as u32)
        &&& post.current_frame.gas == gas0
        &&& scaffolding_unchanged(pre, post)
        &&& (!second_dst_overlaps ==> as_nat(dest_read(post, args.dst1, pre.current_frame.sp))
            == binop_result_low(op, a, b))
        &&& (match op {
            BinopKind::Mul | BinopKind::Div => as_nat(post.registers@[args.dst2 as int % 16])
                == binop_result_high(op, a, b) && dest2_written(pre, post, args.dst1,
                args.dst2),
            _ => dest_written(pre, post, args.dst1, false),
        })
        &&& post.flags == (if args.set_flags { binop_flags(op, a, b) } else { pre.flags })
    }
}

/// The packed result of a pointer operation, or `None` where it panics.
pub open spec fn ptr_op_result(op: PtrOpKind, a: U256, b: U256) -> Option<U256> {
    match op {
        PtrOpKind::PtrPack => if b.limb0 != 0 || b.limb1 != 0 {
            None
        } else {
            Some(U256 { limb0: a.limb0, limb1: a.limb1, limb2: b.limb2, limb3: b.limb3 })
        },
        _ => {
            if b.limb1 != 0 || b.limb2 != 0 || b.limb3 != 0 || b.limb0 > u32::MAX {
                None
            } else {
                let delta = b.limb0 as u32;
                let pt = crate::fat_pointer::spec_unpack(a);
                match op {
                    PtrOpKind::PtrAdd => if pt.offset + delta > u32::MAX {
                        None
                    } else {
                        Some(crate::fat_pointer::spec_pack(FatPointer {
                            offset: (pt.offset + delta) as u32,
                            ..pt
                        }))
                    },
                    PtrOpKind::PtrSub => if pt.offset < delta {
                        None
                    } else {
                        Some(crate::fat_pointer::spec_pack(FatPointer {
                            offset: (pt.offset - delta) as u32,
                            ..pt
                        }))
                    },
                    _ => if pt.length < delta {
                        None
                    } else {
                        Some(crate::fat_pointer::spec_pack(FatPointer {
                            length: (pt.length - delta) as u32,
                            ..pt
                        }))
                    },
                }
            }
        },
    }
}

/// What a pointer instruction does: the first (post-swap) operand must be
/// tagged and the second untagged; the result keeps the tag.
pub open spec fn ptr_effect<W: World>(
    pre: State<W>,
    post: State<W>,
    op: PtrOpKind,
    args: Arguments,
    ip: u16,
    r: StepOutcome,
    gas0: nat,
) -> bool {
    let v1 = source_value(pre, args.src1);
    let t1 = source_is_pointer(pre, args.src1);
    let v2 = pre.registers@[args.src2 as int % 16];
    let t2 = reg_flag(pre.register_pointer_flags, (args.src2 % 16) as u16);
    let a = if args.swap { v2 } else { v1 };
    let atag = if args.swap { t2 } else { t1 };
    let b = if args.swap { v1 } else { v2 };
    let btag = if args.swap { t1 } else { t2 };
    if !atag || btag {
        panic_unwound(pre, post, r)
    } else {
        match ptr_op_result(op, a, b) {
            None => panic_unwound(pre, post, r),
            Some(v) => {
                &&& r == StepOutcome::Continue((ip + 1) as u32)
                &&& post.current_frame.gas == gas0
                &&& scaffolding_unchanged(pre, post)
                &&& dest_written(pre, post, args.dst1, true)
                &&& dest_read(post, args.dst1, pre.current_frame.sp) == v
                &&& post.flags == pre.flags
            },
        }
    }
}

/// What a jump does: transfer to the target index, or panic when it lies
/// outside the program.
pub open spec fn jump_effect<W: World>(
    pre: State<W>,
    post: State<W>,
    args: Arguments,
    r: StepOutcome,
    gas0: nat,
) -> bool {
    let target = as_nat(source_value(pre, args.src1)) % 0x1_0000;
    if target < pre.current_frame.program.instructions@.len() {
        &&& r == StepOutcome::Continue(target as u32)
        &&& post.current_frame.gas == gas0
        &&& machine_registers_unchanged(pre, post)
        &&& scaffolding_unchanged(pre, post)
        &&& post.flags == pre.flags
    } else {
        panic_unwound(pre, post, r)
    }
}

/// What a heap load does: 32 zero-padded bytes read through the pointer
/// decoded from the source, the page not extended.
pub open spec fn heap_load_effect<W: World>(
    pre: State<W>,
    post: State<W>,
    args: Arguments,
    ip: u16,
    r: StepOutcome,
    gas0: nat,
) -> bool {
    let pt = crate::fat_pointer::spec_unpack(source_value(pre, args.src1));
    &&& r == StepOutcome::Continue((ip + 1) as u32)
    &&& post.current_frame.gas == gas0
    &&& scaffolding_unchanged(pre, post)
    &&& dest_written(pre, post, args.dst1, false)
    &&& dest_read(post, args.dst1, pre.current_frame.sp) == word_at(
        pre.heaps,
        pt.memory_page as int,
        pt.start + pt.offset,
    )
    &&& post.flags == pre.flags
}

/// What a heap store does: 32 bytes written through the decoded pointer
/// (zero-extending the page), a panic in a static frame, and a suspension
/// when the configured hook address of the frame's own heap is hit.
pub open spec fn heap_store_effect<W: World>(
    pre: State<W>,
    post: State<W>,
    args: Arguments,
    ip: u16,
    r: StepOutcome,
    gas0: nat,
) -> bool {
    if pre.current_frame.is_static {
        panic_unwound(pre, post, r)
    } else {
        let pt = crate::fat_pointer::spec_unpack(source_value(pre, args.src1));
        let value = pre.registers@[args.src2 as int % 16];
        let addr = pt.start + pt.offset;
        &&& (addr + 32 <= usize::MAX ==> write_effect(
            pre.heaps,
            post.heaps,
            pt.memory_page as int,
            addr,
            value,
        ))
        &&& (addr + 32 > usize::MAX ==> post.heaps.pages@ == pre.heaps.pages@)
        &&& post.current_frame.gas == gas0
        &&& post.registers@ == pre.registers@
        &&& post.register_pointer_flags == pre.register_pointer_flags
        &&& crate::callframe::same_but_near_state(pre.current_frame, post.current_frame)
        &&& post.current_frame.sp == pre.current_frame.sp
        &&& post.current_frame.near_calls@ == pre.current_frame.near_calls@
        &&& post.world.storage_writes@ == pre.world.storage_writes@
        &&& post.world.events@ == pre.world.events@
        &&& post.previous_frames@ == pre.previous_frames@
        &&& post.context_u128 == pre.context_u128
        &&& post.hook_address == pre.hook_address
        &&& post.flags == pre.flags
        &&& r == (if pre.hook_address matches Some(h) && pt.memory_page
            == pre.current_frame.heap && addr == h {
            StepOutcome::End(ExecutionEnd::SuspendedOnHook {
                hook: (as_nat(value) % 0x1_0000_0000) as u32,
                pc_to_resume_from: (ip + 1) as u16,
            })
        } else {
            StepOutcome::Continue((ip + 1) as u32)
        })
    }
}

/// What a pointer move does: the tagged value is copied, tag and all; an
/// untagged source panics.
pub open spec fn load_pointer_effect<W: World>(
    pre: State<W>,
    post: State<W>,
    args: Arguments,
    ip: u16,
    r: StepOutcome,
    gas0: nat,
) -> bool {
    if !source_is_pointer(pre, args.src1) {
        panic_unwound(pre, post, r)
    } else {
        &&& r == StepOutcome::Continue((ip + 1) as u32)
        &&& post.current_frame.gas == gas0
        &&& scaffolding_unchanged(pre, post)
        &&& dest_written(pre, post, args.dst1, true)
        &&& dest_read(post, args.dst1, pre.current_frame.sp) == source_value(pre, args.src1)
        &&& post.flags == pre.flags
    }
}

/// What a storage read does: the latest journaled write to the key wins;
/// otherwise the underlying world's answer lands in the destination. The
/// journals are unchanged; a static frame panics.
pub open spec fn sload_effect<W: World>(
    pre: State<W>,
    post: State<W>,
    args: Arguments,
    ip: u16,
    r: StepOutcome,
    gas0: nat,
) -> bool {
    if pre.current_frame.is_static {
        panic_unwound(pre, post, r)
    } else {
        let key = source_value(pre, args.src1);
        &&& r == StepOutcome::Continue((ip + 1) as u32)
        &&& post.current_frame.gas == gas0
        &&& scaffolding_unchanged(pre, post)
        &&& dest_written(pre, post, args.dst1, false)
        &&& (match crate::world::journal_lookup(
            pre.world.storage_writes@,
            pre.current_frame.address,
            key,
        ) {
            Some(v) => dest_read(post, args.dst1, pre.current_frame.sp) == v,
            None => true,
        })
        &&& post.flags == pre.flags
    }
}

/// What a storage write does: one entry appended to the write journal; a
/// static frame panics.
pub open spec fn sstore_effect<W: World>(
    pre: State<W>,
    post: State<W>,
    args: Arguments,
    ip: u16,
    r: StepOutcome,
    gas0: nat,
) -> bool {
    if pre.current_frame.is_static {
        panic_unwound(pre, post, r)
    } else {
        let key = source_value(pre, args.src1);
        let value = pre.registers@[args.src2 as int % 16];
        &&& r == StepOutcome::Continue((ip + 1) as u32)
        &&& post.current_frame.gas == gas0
        &&& post.world.storage_writes@ == pre.world.storage_writes@.push(
            (pre.current_frame.address, key, value),
        )
        &&& post.world.events@ == pre.world.events@
        &&& machine_registers_unchanged(pre, post)
        &&& crate::callframe::same_but_near_state(pre.current_frame, post.current_frame)
        &&& post.current_frame.sp == pre.current_frame.sp
        &&& post.current_frame.near_calls@ == pre.current_frame.near_calls@
        &&& post.heaps.pages@ == pre.heaps.pages@
        &&& post.previous_frames@ == pre.previous_frames@
        &&& post.context_u128 == pre.context_u128
        &&& post.hook_address == pre.hook_address
        &&& post.flags == pre.flags
    }
}

/// What a near call does: a record stashing the unpassed gas, the return
/// site, the handler and the world snapshot is pushed; the frame runs on
/// with the passed gas (all of it when more was asked than held), cleared
/// flags, and control at the target.
pub open spec fn near_call_effect<W: World>(
    pre: State<W>,
    post: State<W>,
    args: Arguments,
    target: u16,
    eh: u16,
    ip: u16,
    r: StepOutcome,
    gas0: nat,
) -> bool {
    let requested = as_nat(source_value(pre, args.src1)) % 0x1_0000_0000;
    let to_pass: nat = if requested > gas0 {
        gas0
    } else {
        requested
    };
    &&& r == StepOutcome::Continue(target as u32)
    &&& post.current_frame.near_calls@ == pre.current_frame.near_calls@.push(NearCallFrame {
        call_instruction: ip,
        exception_handler: eh,
        previous_frame_sp: pre.current_frame.sp,
        previous_frame_gas: (gas0 - to_pass) as u32,
        world_before_this_frame: Snapshot {
            storage_len: pre.world.storage_writes@.len() as usize,
            events_len: pre.world.events@.len() as usize,
        },
    })
    &&& post.current_frame.gas == to_pass
    &&& post.current_frame.sp == pre.current_frame.sp
    &&& crate::callframe::same_but_near_state(pre.current_frame, post.current_frame)
    &&& machine_registers_unchanged(pre, post)
    &&& post.world.storage_writes@ == pre.world.storage_writes@
    &&& post.world.events@ == pre.world.events@
    &&& post.heaps.pages@ == pre.heaps.pages@
    &&& post.previous_frames@ == pre.previous_frames@
    &&& post.context_u128 == pre.context_u128
    &&& post.hook_address == pre.hook_address
    &&& post.flags == (Flags { lt_of: false, eq: false, gt: false })
}


/// What a precompile invocation does on the machine side: the operand-
/// supplied cost is charged (panicking when it exceeds the gas held), the
/// ABI's zero page ids are patched to the frame's own heap, success is
/// written to the output register, and the patched ABI is handed out for
/// the primitive to run before execution resumes.
pub open spec fn precompile_effect<W: World>(
    pre: State<W>,
    post: State<W>,
    args: Arguments,
    ip: u16,
    r: StepOutcome,
    gas0: nat,
) -> bool {
    let cost = as_nat(pre.registers@[args.src2 as int % 16]) % 0x1_0000_0000;
    if cost > gas0 {
        panic_unwound(pre, post, r)
    } else {
        let abi = source_value(pre, args.src1);
        let read_page: nat = if abi.limb2 as nat % 0x1_0000_0000 == 0 {
            pre.current_frame.heap as nat
        } else {
            abi.limb2 as nat % 0x1_0000_0000
        };
        let write_page: nat = if abi.limb2 as nat / 0x1_0000_0000 == 0 {
            pre.current_frame.heap as nat
        } else {
            abi.limb2 as nat / 0x1_0000_0000
        };
        &&& r == (StepOutcome::Precompile {
            address_low: (pre.current_frame.address.low % 0x1_0000) as u16,
            abi: U256 {
                limb0: abi.limb0,
                limb1: abi.limb1,
                limb2: (read_page + write_page * 0x1_0000_0000) as u64,
                limb3: abi.limb3,
            },
            resume_pc: (ip + 1) as u16,
        })
        &&& post.current_frame.gas == gas0 - cost
        &&& scaffolding_unchanged(pre, post)
        &&& dest_written(pre, post, args.dst1, false)
        &&& as_nat(dest_read(post, args.dst1, pre.current_frame.sp)) == 1
        &&& post.flags == pre.flags
    }
}

/// What a return or revert does. A near return restores the caller's `sp`
/// and stashed gas plus the callee's leftover, clears the flags (to the
/// error state on a revert, which also rolls the world back to the
/// snapshot of the call), and continues after the call site or at the
/// handler. A far return validates the returned pointer, and either ends
/// the run at the root with the referenced bytes, or restores the caller
/// with the pointer tagged in register 1 and every other register zeroed.
/// An out-of-range handler on a revert escalates as a panic.
pub open spec fn ret_effect<W: World>(
    pre: State<W>,
    post: State<W>,
    is_revert: bool,
    args: Arguments,
    r: StepOutcome,
    gas0: nat,
) -> bool {
    let near = pre.current_frame.near_calls@;
    if near.len() > 0 {
        let f = near.last();
        if is_revert && !((f.exception_handler as int)
            < pre.current_frame.program.instructions@.len()) {
            panic_escalation(pre, post, r)
        } else {
            &&& post.current_frame.near_calls@ == near.drop_last()
            &&& post.current_frame.sp == f.previous_frame_sp
            &&& post.current_frame.gas == sat_add_u32(f.previous_frame_gas as nat, gas0)
            &&& same_but_near_state(pre.current_frame, post.current_frame)
            &&& machine_registers_unchanged(pre, post)
            &&& post.heaps.pages@ == pre.heaps.pages@
            &&& post.previous_frames@ == pre.previous_frames@
            &&& post.context_u128 == pre.context_u128
            &&& post.hook_address == pre.hook_address
            &&& (if is_revert {
                let snap = f.world_before_this_frame;
                &&& (snap.storage_len <= pre.world.storage_writes@.len()
                    && snap.events_len <= pre.world.events@.len()
                    ==> post.world.storage_writes@ == pre.world.storage_writes@.take(
                    snap.storage_len as int,
                ) && post.world.events@ == pre.world.events@.take(snap.events_len as int))
                &&& journal_prefix(pre.world.storage_writes@, post.world.storage_writes@)
                &&& journal_prefix(pre.world.events@, post.world.events@)
                &&& post.flags == (Flags { lt_of: true, eq: false, gt: false })
                &&& r == StepOutcome::Continue(f.exception_handler as u32)
            } else {
                &&& post.world.storage_writes@ == pre.world.storage_writes@
                &&& post.world.events@ == pre.world.events@
                &&& post.flags == (Flags { lt_of: false, eq: false, gt: false })
                &&& r == StepOutcome::Continue((f.call_instruction + 1) as u32)
            })
        }
    } else {
        match crate::fat_pointer::spec_far_return_pointer(
            source_value(pre, args.src1),
            source_is_pointer(pre, args.src1),
            pre.current_frame.heap,
        ) {
            None => panic_unwound(pre, post, r),
            Some(p) => {
                if pre.previous_frames@.len() == 0 {
                    &&& machine_registers_unchanged(pre, post)
                    &&& same_but_near_state(pre.current_frame, post.current_frame)
                    &&& post.current_frame.sp == pre.current_frame.sp
                    &&& post.current_frame.near_calls@ == near
                    &&& post.current_frame.gas == gas0
                    &&& post.world.storage_writes@ == pre.world.storage_writes@
                    &&& post.world.events@ == pre.world.events@
                    &&& post.heaps.pages@ == pre.heaps.pages@
                    &&& post.previous_frames@ == pre.previous_frames@
                    &&& post.context_u128 == pre.context_u128
                    &&& post.hook_address == pre.hook_address
                    &&& post.flags == pre.flags
                    &&& (match r {
                        StepOutcome::End(end) => match end {
                            ExecutionEnd::ProgramFinished(out) => {
                                &&& !is_revert
                                &&& out@.len() == p.length
                                &&& forall|j: int| 0 <= j < p.length ==> out@[j] == byte_at(
                                    pre.heaps,
                                    p.memory_page as int,
                                    p.start + j,
                                )
                            },
                            ExecutionEnd::Reverted(out) => {
                                &&& is_revert
                                &&& out@.len() == p.length
                                &&& forall|j: int| 0 <= j < p.length ==> out@[j] == byte_at(
                                    pre.heaps,
                                    p.memory_page as int,
                                    p.start + j,
                                )
                            },
                            _ => false,
                        },
                        _ => false,
                    })
                } else {
                    let entry = pre.previous_frames@.last();
                    let caller = entry.1;
                    if is_revert && !((pre.current_frame.exception_handler as int)
                        < caller.program.instructions@.len()) {
                        panic_escalation(pre, post, r)
                    } else {
                        &&& post.previous_frames@ == pre.previous_frames@.drop_last()
                        &&& post.current_frame.address == caller.address
                        &&& post.current_frame.code_address == caller.code_address
                        &&& post.current_frame.caller == caller.caller
                        &&& post.current_frame.program.instructions@
                            == caller.program.instructions@
                        &&& post.current_frame.program.code_page@ == caller.program.code_page@
                        &&& post.current_frame.heap == caller.heap
                        &&& post.current_frame.aux_heap == caller.aux_heap
                        &&& post.current_frame.calldata_heap == caller.calldata_heap
                        &&& post.current_frame.exception_handler == caller.exception_handler
                        &&& post.current_frame.context_u128 == caller.context_u128
                        &&& post.current_frame.is_static == caller.is_static
                        &&& post.current_frame.stipend == caller.stipend
                        &&& post.current_frame.sp == caller.sp
                        &&& post.current_frame.near_calls@ == caller.near_calls@
                        &&& post.current_frame.stack@ == caller.stack@
                        &&& post.current_frame.stack_pointer_flags.words@
                            == caller.stack_pointer_flags.words@
                        &&& post.current_frame.world_before_this_frame
                            == caller.world_before_this_frame
                        &&& post.current_frame.heaps_i_am_keeping_alive@
                            == caller.heaps_i_am_keeping_alive@.push(p.memory_page)
                        &&& post.current_frame.gas == sat_add_u32(caller.gas as nat, gas0)
                        &&& post.registers@.len() == 16
                        &&& post.registers@[1] == crate::fat_pointer::spec_pack(p)
                        &&& forall|j: int| 0 <= j < 16 && j != 1
                            ==> as_nat(#[trigger] post.registers@[j]) == 0
                        &&& post.register_pointer_flags == 2
                        &&& post.context_u128 == 0
                        &&& post.heaps.pages@ == pre.heaps.pages@
                        &&& post.hook_address == pre.hook_address
                        &&& (if is_revert {
                            let snap = pre.current_frame.world_before_this_frame;
                            &&& (snap.storage_len <= pre.world.storage_writes@.len()
                                && snap.events_len <= pre.world.events@.len()
                                ==> post.world.storage_writes@
                                    == pre.world.storage_writes@.take(snap.storage_len as int)
                                    && post.world.events@ == pre.world.events@.take(
                                    snap.events_len as int,
                                ))
                            &&& journal_prefix(
                                pre.world.storage_writes@,
                                post.world.storage_writes@,
                            )
                            &&& journal_prefix(pre.world.events@, post.world.events@)
                            &&& post.flags == (Flags { lt_of: true, eq: false, gt: false })
                            &&& r == StepOutcome::Continue(
                                pre.current_frame.exception_handler as u32,
                            )
                        } else {
                            &&& post.world.storage_writes@ == pre.world.storage_writes@
                            &&& post.world.events@ == pre.world.events@
                            &&& post.flags == (Flags { lt_of: false, eq: false, gt: false })
                            &&& r == StepOutcome::Continue((entry.0 + 1) as u32)
                        })
                    }
                }
            },
        }
    }
}

/// What a far call does: the callee's code is resolved through the world,
/// two fresh heap pages become its heap and aux heap, the caller is
/// stashed with its unpassed gas (at most 63/64 may leave), the calldata
/// pointer is forwarded or built over the caller's heap, and the callee
/// starts at instruction zero with cleared flags and registers holding
/// only the calldata pointer and the ABI high word.
pub open spec fn far_call_effect<W: World>(
    pre: State<W>,
    post: State<W>,
    mode: CallingMode,
    args: Arguments,
    eh: u16,
    ip: u16,
    r: StepOutcome,
    gas0: nat,
) -> bool {
    if pre.heaps.pages@.len() >= u32::MAX - 1 {
        panic_unwound(pre, post, r)
    } else {
        let abi = source_value(pre, args.src1);
        let tagged = source_is_pointer(pre, args.src1);
        let addr_word = pre.registers@[args.src2 as int % 16];
        let code_address = Address {
            high: (addr_word.limb2 as nat % 0x1_0000_0000) as u32,
            low: (addr_word.limb0 as nat + addr_word.limb1 as nat
                * 0x1_0000_0000_0000_0000) as u128,
        };
        let requested = abi.limb2 as nat % 0x1_0000_0000;
        let max_pass: nat = gas0 * 63 / 64;
        let to_pass: nat = if requested > max_pass {
            max_pass
        } else {
            requested
        };
        let raw = crate::fat_pointer::spec_unpack(abi);
        let pointer = if tagged {
            raw
        } else {
            FatPointer {
                offset: 0,
                memory_page: pre.current_frame.heap,
                start: raw.start,
                length: raw.length,
            }
        };
        &&& r == StepOutcome::Continue(0)
        &&& post.heaps.pages@.len() == pre.heaps.pages@.len() + 2
        &&& forall|q: int| 0 <= q < pre.heaps.pages@.len()
            ==> post.heaps.pages@[q] == pre.heaps.pages@[q]
        &&& post.heaps.pages@[pre.heaps.pages@.len() as int]@.len() == 0
        &&& post.heaps.pages@[pre.heaps.pages@.len() as int + 1]@.len() == 0
        &&& post.previous_frames@.len() == pre.previous_frames@.len() + 1
        &&& post.previous_frames@.drop_last() == pre.previous_frames@
        &&& post.previous_frames@.last().0 == ip
        &&& same_but_near_state(pre.current_frame, post.previous_frames@.last().1)
        &&& post.previous_frames@.last().1.sp == pre.current_frame.sp
        &&& post.previous_frames@.last().1.near_calls@ == pre.current_frame.near_calls@
        &&& post.previous_frames@.last().1.gas == gas0 - to_pass
        &&& post.current_frame.address == (match mode {
            CallingMode::Delegate => pre.current_frame.address,
            _ => code_address,
        })
        &&& post.current_frame.code_address == code_address
        &&& post.current_frame.caller == (match mode {
            CallingMode::Normal => pre.current_frame.address,
            CallingMode::Delegate => pre.current_frame.caller,
            CallingMode::Mimic => Address {
                high: (pre.registers@[3].limb2 as nat % 0x1_0000_0000) as u32,
                low: (pre.registers@[3].limb0 as nat + pre.registers@[3].limb1 as nat
                    * 0x1_0000_0000_0000_0000) as u128,
            },
        })
        &&& post.current_frame.context_u128 == (match mode {
            CallingMode::Delegate => pre.current_frame.context_u128,
            _ => pre.context_u128,
        })
        &&& post.current_frame.heap as int == pre.heaps.pages@.len()
        &&& post.current_frame.aux_heap as int == pre.heaps.pages@.len() + 1
        &&& post.current_frame.calldata_heap == pointer.memory_page
        &&& post.current_frame.gas == to_pass
        &&& post.current_frame.stipend == 0
        &&& post.current_frame.exception_handler == eh
        &&& post.current_frame.is_static == pre.current_frame.is_static
        &&& post.current_frame.sp == 1024
        &&& post.current_frame.near_calls@.len() == 0
        &&& post.current_frame.heaps_i_am_keeping_alive@.len() == 0
        &&& post.current_frame.stack@.len() == 0x1_0000
        &&& forall|i: int| 0 <= i < 0x1_0000 ==> as_nat(#[trigger] post.current_frame.stack@[i])
            == 0
        &&& forall|i: u16| !post.current_frame.stack_pointer_flags.spec_get(i)
        &&& post.current_frame.world_before_this_frame == (Snapshot {
            storage_len: pre.world.storage_writes@.len() as usize,
            events_len: pre.world.events@.len() as usize,
        })
        &&& post.registers@.len() == 16
        &&& post.registers@[1] == crate::fat_pointer::spec_pack(pointer)
        &&& post.registers@[2] == (U256 {
            limb0: abi.limb2,
            limb1: abi.limb3,
            limb2: 0,
            limb3: 0,
        })
        &&& forall|j: int| 0 <= j < 16 && j != 1 && j != 2
            ==> as_nat(#[trigger] post.registers@[j]) == 0
        &&& post.register_pointer_flags == 2
        &&& post.flags == (Flags { lt_of: false, eq: false, gt: false })
        &&& post.context_u128 == 0
        &&& post.world.storage_writes@ == pre.world.storage_writes@
        &&& post.world.events@ == pre.world.events@
        &&& post.hook_address == pre.hook_address
    }
}


/// What one dispatch step does, per the tick protocol: an instruction
/// pointer outside the program raises an invalid-instruction panic; then
/// one gas unit is charged (out of gas panics); a failed predicate skips
/// the instruction for exactly that one unit; a satisfied predicate runs
/// the instruction's handler with its full effect.
pub open spec fn step_effect<W: World>(
    pre: State<W>,
    post: State<W>,
    ip: u32,
    r: StepOutcome,
) -> bool {
    if ip >= pre.current_frame.program.instructions@.len() {
        panic_unwound(pre, post, r)
    } else if pre.current_frame.gas == 0 {
        panic_unwound(pre, post, r)
    } else {
        let instr = pre.current_frame.program.instructions@[ip as int];
        let gas0 = (pre.current_frame.gas - 1) as nat;
        if !spec_satisfied(instr.arguments.predicate, pre.flags) {
            r == StepOutcome::Continue((ip + 1) as u32) && only_gas_charged(pre, post)
        } else {
            match instr.opcode {
                Opcode::Binop(op) => binop_effect(pre, post, op, instr.arguments, ip as u16, r,
                    gas0),
                Opcode::PtrOp(op) => ptr_effect(pre, post, op, instr.arguments, ip as u16, r,
                    gas0),
                Opcode::Jump => jump_effect(pre, post, instr.arguments, r, gas0),
                Opcode::HeapLoad => heap_load_effect(pre, post, instr.arguments, ip as u16, r,
                    gas0),
                Opcode::HeapStore => heap_store_effect(pre, post, instr.arguments, ip as u16,
                    r, gas0),
                Opcode::LoadPointer => load_pointer_effect(pre, post, instr.arguments,
                    ip as u16, r, gas0),
                Opcode::SLoad => sload_effect(pre, post, instr.arguments, ip as u16, r, gas0),
                Opcode::SStore => sstore_effect(pre, post, instr.arguments, ip as u16, r,
                    gas0),
                Opcode::NearCall(target, eh) => near_call_effect(pre, post, instr.arguments,
                    target, eh, ip as u16, r, gas0),
                Opcode::FarCall(mode, eh) => far_call_effect(pre, post, mode,
                    instr.arguments, eh, ip as u16, r, gas0),
                Opcode::Ret => ret_effect(pre, post, false, instr.arguments, r, gas0),
                Opcode::Revert => ret_effect(pre, post, true, instr.arguments, r, gas0),
                Opcode::PrecompileCall => precompile_effect(pre, post, instr.arguments,
                    ip as u16, r, gas0),
            }
        }
    }
}

/// What a whole run does: a finite chain of dispatch steps, each governed
/// by `step_effect` and threading the instruction pointer to the next,
/// until one step yields the run's outcome. `n` bounds the chain's
/// length; the dispatch loop ensures some bound exists.
pub open spec fn run_reaches<W: World>(
    pre: State<W>,
    post: State<W>,
    ip: u32,
    r: RunOutcome,
    n: nat,
) -> bool
    decreases n,
{
    n > 0 && exists|mid: State<W>, s: StepOutcome| {
        &&& #[trigger] step_effect(pre, mid, ip, s)
        &&& match s {
            StepOutcome::Continue(next) => run_reaches(mid, post, next, r, (n - 1) as nat),
            StepOutcome::End(end) => post == mid && r == RunOutcome::Done(end),
            StepOutcome::Precompile { address_low, abi, resume_pc } => post == mid && r
                == (RunOutcome::PrecompileRequested { address_low, abi, resume_pc }),
        }
    }
}

/// What a dispatch step asks of its caller next.
#[derive(Debug)]
pub enum RunOutcome {
    /// The run ended; this is what the embedder sees.
    Done(ExecutionEnd),
    /// A precompile selected by the executing address's low bits must run
    /// against the heaps before execution resumes at `resume_pc`. The
    /// success flag has already been written to the output register.
    PrecompileRequested { address_low: u16, abi: U256, resume_pc: u16 },
}

/// The global machine state: one running frame over a transactional world.
pub struct State<W> {
    pub world: ModifiedWorld<W>,

    pub registers: Vec<U256>,
    pub register_pointer_flags: u16,

    pub flags: Flags,

    pub current_frame: Callframe,

    /// The far frames this one is nested in, each with the instruction
    /// index of its far-call instruction.
    pub previous_frames: Vec<(u16, Callframe)>,

    pub heaps: Heaps,

    pub context_u128: u128,

    /// When set, a heap store to this address of the bootloader heap
    /// suspends the run.
    pub hook_address: Option<u32>,
}

impl<W: World> State<W> {
    pub open spec fn wf(self) -> bool {
        &&& self.registers@.len() == 16
        &&& self.current_frame.wf()
        &&& forall|i: int| 0 <= i < self.previous_frames@.len()
            ==> (#[trigger] self.previous_frames@[i]).1.wf()
    }

    /// All gas anywhere in the machine. Every instruction burns at least
    /// one unit of it, which bounds the length of any run.
    pub open spec fn total_gas(self) -> nat {
        self.current_frame.contained_gas() + frames_gas(self.previous_frames@)
    }

    /// All activations currently alive.
    pub open spec fn total_frames(self) -> nat {
        1 + self.current_frame.near_calls@.len() + frames_count(self.previous_frames@)
    }

    /// Boots a machine: decommits the program at `address`, installs the
    /// calldata as heap page 1 with a fat pointer to it in register 1, and
    /// gives the root frame all the gas there is.
    pub fn new(world: W, address: Address, caller: Address, calldata: Vec<u8>) -> (r: State<W>)
        ensures
            r.wf(),
            r.current_frame.gas == u32::MAX,
            r.current_frame.address == address,
            r.current_frame.code_address == address,
            r.current_frame.caller == caller,
            r.current_frame.heap == 2,
            r.current_frame.aux_heap == 3,
            r.current_frame.calldata_heap == 1,
            r.current_frame.sp == 1024,
            r.current_frame.stipend == 0,
            r.current_frame.exception_handler == 0,
            r.current_frame.context_u128 == 0,
            !r.current_frame.is_static,
            r.current_frame.near_calls@.len() == 0,
            r.heaps.pages@.len() == 4,
            r.heaps.pages@[0]@.len() == 0,
            r.heaps.pages@[1]@ == calldata@,
            r.heaps.pages@[2]@.len() == 0,
            r.heaps.pages@[3]@.len() == 0,
            r.registers@.len() == 16,
            r.registers@[1] == crate::fat_pointer::spec_pack(FatPointer {
                offset: 0,
                memory_page: 1,
                start: 0,
                length: if calldata@.len() <= u32::MAX { calldata@.len() as u32 } else {
                    u32::MAX
                },
            }),
            forall|j: int| 0 <= j < 16 && j != 1 ==> as_nat(#[trigger] r.registers@[j]) == 0,
            r.register_pointer_flags == 2,
            r.flags == (Flags { lt_of: false, eq: false, gt: false }),
            r.previous_frames@.len() == 0,
            r.world.storage_writes@.len() == 0,
            r.world.events@.len() == 0,
            r.context_u128 == 0,
            r.hook_address is None,
    {
        let mut world = ModifiedWorld::new(world);
        let program = world.decommit(address);
        let program = if program.instructions.len() <= 0xffff {
            program
        } else {
            Program::empty()
        };
        let snapshot = world.snapshot();
        let frame = Callframe::new(
            address,
            address,
            caller,
            program,
            2,
            3,
            1,
            u32::MAX,
            0,
            0,
            0,
            false,
            snapshot,
        );
        let mut registers: Vec<U256> = Vec::new();
        let mut k: usize = 0;
        while k < 16
            invariant
                k <= 16,
                registers@.len() == k,
                forall|j: int| 0 <= j < k ==> as_nat(#[trigger] registers@[j]) == 0,
            decreases 16 - k,
        {
            registers.push(U256::zero());
            k = k + 1;
        }
        let calldata_pointer = FatPointer {
            offset: 0,
            memory_page: 1,
            start: 0,
            length: if calldata.len() <= u32::MAX as usize {
                calldata.len() as u32
            } else {
                u32::MAX
            },
        };
        registers[1] = calldata_pointer.into_u256();
        let mut pages: Vec<Vec<u8>> = Vec::new();
        pages.push(Vec::new());
        pages.push(calldata);
        pages.push(Vec::new());
        pages.push(Vec::new());
        State {
            world,
            registers,
            register_pointer_flags: 2,
            flags: Flags::new(false, false, false),
            current_frame: frame,
            previous_frames: Vec::new(),
            heaps: Heaps { pages },
            context_u128: 0,
            hook_address: None,
        }
    }

    /// Charges `amount` gas from the current frame, or reports that it
    /// cannot.
    pub fn use_gas(&mut self, amount: u32) -> (r: Result<(), Panic>)
        ensures
            old(self).current_frame.gas >= amount ==> r is Ok
                && final(self).current_frame.gas == old(self).current_frame.gas - amount,
            old(self).current_frame.gas < amount ==> r == Result::<(), Panic>::Err(
                Panic::OutOfGas,
            ) && final(self).current_frame.gas == old(self).current_frame.gas,
            final(self).total_gas() + amount >= old(self).total_gas(),
            final(self).total_gas() <= old(self).total_gas(),
            final(self).total_frames() == old(self).total_frames(),
            same_but_near_state(old(self).current_frame, final(self).current_frame),
            final(self).current_frame.near_calls@ == old(self).current_frame.near_calls@,
            final(self).current_frame.sp == old(self).current_frame.sp,
            final(self).registers@ == old(self).registers@,
            final(self).register_pointer_flags == old(self).register_pointer_flags,
            final(self).flags == old(self).flags,
            final(self).previous_frames@ == old(self).previous_frames@,
            final(self).heaps.pages@ == old(self).heaps.pages@,
            final(self).world.storage_writes@ == old(self).world.storage_writes@,
            final(self).world.events@ == old(self).world.events@,
            final(self).context_u128 == old(self).context_u128,
            final(self).hook_address == old(self).hook_address,
            old(self).wf() ==> final(self).wf(),
    {
        if self.current_frame.gas >= amount {
            self.current_frame.gas = self.current_frame.gas - amount;
            Ok(())
        } else {
            Err(Panic::OutOfGas)
        }
    }

    /// Sets the context value that the next far call hands to its callee.
    /// Nothing else changes; in particular the current frame's own context
    /// value, which `get_context_u128` reads, is untouched.
    pub fn set_context_u128(&mut self, value: u128)
        ensures
            final(self).context_u128 == value,
            final(self).current_frame == old(self).current_frame,
            final(self).registers@ == old(self).registers@,
            final(self).register_pointer_flags == old(self).register_pointer_flags,
            final(self).flags == old(self).flags,
            final(self).previous_frames@ == old(self).previous_frames@,
            final(self).heaps.pages@ == old(self).heaps.pages@,
            final(self).world.storage_writes@ == old(self).world.storage_writes@,
            final(self).world.events@ == old(self).world.events@,
            final(self).hook_address == old(self).hook_address,
            final(self).total_gas() == old(self).total_gas(),
            final(self).total_frames() == old(self).total_frames(),
            old(self).wf() ==> final(self).wf(),
    {
        self.context_u128 = value;
    }

    /// The context value of the current frame.
    pub fn get_context_u128(&self) -> (r: u128)
        ensures
            r == self.current_frame.context_u128,
    {
        self.current_frame.context_u128
    }

    /// Runs one precompile memory access; see `Heaps::execute_partial_query`.
    pub fn execute_heap_query(&mut self, query: MemoryQuery) -> (r: MemoryQuery)
        ensures
            query.rw_flag && query.index as int * 32 + 32 <= usize::MAX ==> write_effect(
                old(self).heaps,
                final(self).heaps,
                query.page as int,
                query.index as int * 32,
                query.value,
            ),
            query.rw_flag && query.index as int * 32 + 32 > usize::MAX
                ==> final(self).heaps.pages@ == old(self).heaps.pages@,
            !query.rw_flag ==> final(self).heaps == old(self).heaps && r.value == word_at(
                old(self).heaps,
                query.page as int,
                query.index as int * 32,
            ),
    {
        self.heaps.execute_partial_query(query)
    }
}



/// What executing one instruction asks the dispatch loop to do next.
pub enum StepOutcome {
    /// Continue at this instruction index.
    Continue(u32),
    /// The run is over.
    End(ExecutionEnd),
    /// Run a precompile, then continue at `resume_pc`.
    Precompile { address_low: u16, abi: U256, resume_pc: u16 },
}

impl<W: World> State<W> {
    /// Reads one operand: its value and whether it is pointer-tagged.
    fn fetch_source(&self, src: Source) -> (r: (U256, bool))
        requires
            self.wf(),
        ensures
            r.0 == source_value(*self, src),
            r.1 == source_is_pointer(*self, src),
    {
        match src {
            Source::Register(ri) => {
                let idx = (ri % 16) as usize;
                (self.registers[idx], self.reg_tag((ri % 16) as u16))
            },
            Source::Immediate(v) => (U256::from_u64(v as u64), false),
            Source::StackAbsolute(i) => (
                self.current_frame.stack[i as usize],
                self.current_frame.stack_pointer_flags.get(i),
            ),
            Source::StackRelative(off) => {
                let idx: u16 = (((self.current_frame.sp as u32) + 0x1_0000 - off as u32)
                    % 0x1_0000) as u16;
                (
                    self.current_frame.stack[idx as usize],
                    self.current_frame.stack_pointer_flags.get(idx),
                )
            },
            Source::CodePage(i) => {
                if (i as usize) < self.current_frame.program.code_page.len() {
                    (self.current_frame.program.code_page[i as usize], false)
                } else {
                    (U256::zero(), false)
                }
            },
        }
    }

    fn reg_tag(&self, i: u16) -> (r: bool)
        requires
            i < 16,
        ensures
            r == reg_flag(self.register_pointer_flags, i),
    {
        (self.register_pointer_flags >> i) & 1 == 1
    }

    /// The register holding the second operand.
    fn fetch_register(&self, ri: u8) -> (r: (U256, bool))
        requires
            self.wf(),
        ensures
            r.0 == self.registers@[ri as int % 16],
            r.1 == reg_flag(self.register_pointer_flags, (ri % 16) as u16),
    {
        (self.registers[(ri % 16) as usize], self.reg_tag((ri % 16) as u16))
    }

    /// Writes one result and its pointer tag; nothing else changes.
    fn write_destination(&mut self, dst: Destination, value: U256, is_pointer: bool)
        requires
            old(self).wf(),
        ensures
            final(self).wf(),
            final(self).total_gas() == old(self).total_gas(),
            final(self).total_frames() == old(self).total_frames(),
            final(self).flags == old(self).flags,
            final(self).previous_frames@ == old(self).previous_frames@,
            final(self).heaps.pages@ == old(self).heaps.pages@,
            final(self).world.storage_writes@ == old(self).world.storage_writes@,
            final(self).world.events@ == old(self).world.events@,
            final(self).context_u128 == old(self).context_u128,
            final(self).hook_address == old(self).hook_address,
            final(self).current_frame.gas == old(self).current_frame.gas,
            final(self).current_frame.sp == old(self).current_frame.sp,
            final(self).current_frame.near_calls@ == old(self).current_frame.near_calls@,
            final(self).current_frame.program.instructions@
                == old(self).current_frame.program.instructions@,
            final(self).current_frame.program.code_page@
                == old(self).current_frame.program.code_page@,
            scaffolding_unchanged(*old(self), *final(self)),
            dest_written(*old(self), *final(self), dst, is_pointer),
            dest_read(*final(self), dst, old(self).current_frame.sp) == value,
    {
        match dst {
            Destination::Register(ri) => {
                let idx = (ri % 16) as usize;
                self.registers[idx] = value;
                self.register_pointer_flags = set_reg_flag(
                    self.register_pointer_flags,
                    (ri % 16) as u16,
                    is_pointer,
                );
            },
            Destination::StackAbsolute(i) => {
                self.current_frame.stack[i as usize] = value;
                self.current_frame.stack_pointer_flags.set(i, is_pointer);
            },
            Destination::StackRelative(off) => {
                let idx: u16 = (((self.current_frame.sp as u32) + 0x1_0000 - off as u32)
                    % 0x1_0000) as u16;
                self.current_frame.stack[idx as usize] = value;
                self.current_frame.stack_pointer_flags.set(idx, is_pointer);
            },
        }
    }
}


impl<W: World> State<W> {
    /// Unwinds after a panic: pops near frames (rolling back their
    /// snapshots) and then far frames (with the revert-path restore and a
    /// zero return pointer) until a valid exception handler is found; if
    /// none is, the run ends with `Panicked`.
    fn ret_panic(&mut self, kind: Panic) -> (r: StepOutcome)
        requires
            old(self).wf(),
        ensures
            final(self).wf(),
            panic_unwound(*old(self), *final(self), r),
        decreases old(self).total_frames(),
    {
        let _ = kind;
        match self.current_frame.pop_near_call() {
            Some((_pc, eh, snapshot)) => {
                self.rollback_world(snapshot);
                self.flags = Flags::new(true, false, false);
                self.context_u128 = 0;
                if (eh as usize) < self.current_frame.program.instructions.len() {
                    proof {
                        assert(old(self).current_frame.near_calls@.take(
                            old(self).current_frame.near_calls@.len() - 1,
                        ) =~= old(self).current_frame.near_calls@.drop_last());
                    }
                    StepOutcome::Continue(eh as u32)
                } else {
                    let ghost mid_storage = self.world.storage_writes@;
                    let ghost mid_events = self.world.events@;
                    let ghost mid_frame = self.current_frame;
                    let r2 = self.ret_panic(Panic::InvalidInstruction);
                    proof {
                        lemma_journal_prefix_trans(
                            old(self).world.storage_writes@,
                            mid_storage,
                            self.world.storage_writes@,
                        );
                        lemma_journal_prefix_trans(
                            old(self).world.events@,
                            mid_events,
                            self.world.events@,
                        );
                        lemma_unwound_drop_invalid_near(
                            old(self).current_frame,
                            mid_frame,
                            old(self).previous_frames@,
                            *self,
                            r2,
                        );
                    }
                    r2
                }
            },
            None => {
                let snapshot = self.current_frame.world_before_this_frame;
                let eh = self.current_frame.exception_handler;
                match self.previous_frames.pop() {
                    None => {
                        proof {
                            lemma_journal_prefix_refl(old(self).world.storage_writes@);
                            lemma_journal_prefix_refl(old(self).world.events@);
                        }
                        StepOutcome::End(ExecutionEnd::Panicked)
                    },
                    Some((_pc, frame)) => {
                        proof {
                            assert(old(self).previous_frames@.drop_last()
                                =~= self.previous_frames@);
                        }
                        self.rollback_world(snapshot);
                        self.current_frame = frame;
                        self.zero_registers();
                        self.registers[1] = FatPointer::zero().into_u256();
                        self.register_pointer_flags = 2;
                        self.flags = Flags::new(true, false, false);
                        self.context_u128 = 0;
                        if (eh as usize) < self.current_frame.program.instructions.len() {
                            StepOutcome::Continue(eh as u32)
                        } else {
                            let ghost mid_storage = self.world.storage_writes@;
                            let ghost mid_events = self.world.events@;
                            let r2 = self.ret_panic(Panic::InvalidInstruction);
                            proof {
                                lemma_journal_prefix_trans(
                                    old(self).world.storage_writes@,
                                    mid_storage,
                                    self.world.storage_writes@,
                                );
                                lemma_journal_prefix_trans(
                                    old(self).world.events@,
                                    mid_events,
                                    self.world.events@,
                                );
                            }
                            r2
                        }
                    },
                }
            },
        }
    }

    /// Rolls the world back to a snapshot; a stale snapshot from a journal
    /// that has already been truncated further is a no-op.
    fn rollback_world(&mut self, snapshot: Snapshot)
        ensures
            final(self).registers@ == old(self).registers@,
            final(self).register_pointer_flags == old(self).register_pointer_flags,
            final(self).flags == old(self).flags,
            final(self).previous_frames@ == old(self).previous_frames@,
            final(self).heaps.pages@ == old(self).heaps.pages@,
            final(self).context_u128 == old(self).context_u128,
            final(self).hook_address == old(self).hook_address,
            final(self).current_frame == old(self).current_frame,
            snapshot.storage_len <= old(self).world.storage_writes@.len()
                && snapshot.events_len <= old(self).world.events@.len()
                ==> final(self).world.storage_writes@ == old(self).world.storage_writes@.take(
                snapshot.storage_len as int,
            ) && final(self).world.events@ == old(self).world.events@.take(
                snapshot.events_len as int,
            ),
            !(snapshot.storage_len <= old(self).world.storage_writes@.len()
                && snapshot.events_len <= old(self).world.events@.len())
                ==> final(self).world.storage_writes@ == old(self).world.storage_writes@
                    && final(self).world.events@ == old(self).world.events@,
            journal_prefix(old(self).world.storage_writes@, final(self).world.storage_writes@),
            journal_prefix(old(self).world.events@, final(self).world.events@),
            old(self).wf() ==> final(self).wf(),
            final(self).total_gas() == old(self).total_gas(),
            final(self).total_frames() == old(self).total_frames(),
    {
        let rolled = snapshot.storage_len <= self.world.storage_writes.len()
            && snapshot.events_len <= self.world.events.len();
        if rolled {
            self.world.rollback(snapshot);
        }
        proof {
            if !rolled {
                lemma_journal_prefix_refl(old(self).world.storage_writes@);
                lemma_journal_prefix_refl(old(self).world.events@);
            }
        }
    }

    /// Zeroes all sixteen registers and their pointer tags.
    fn zero_registers(&mut self)
        requires
            old(self).wf(),
        ensures
            final(self).wf(),
            final(self).registers@.len() == 16,
            forall|i: int| 0 <= i < 16 ==> as_nat(#[trigger] final(self).registers@[i]) == 0,
            final(self).register_pointer_flags == 0,
            final(self).flags == old(self).flags,
            final(self).previous_frames@ == old(self).previous_frames@,
            final(self).heaps.pages@ == old(self).heaps.pages@,
            final(self).world.storage_writes@ == old(self).world.storage_writes@,
            final(self).world.events@ == old(self).world.events@,
            final(self).context_u128 == old(self).context_u128,
            final(self).hook_address == old(self).hook_address,
            final(self).current_frame == old(self).current_frame,
            final(self).total_gas() == old(self).total_gas(),
            final(self).total_frames() == old(self).total_frames(),
    {
        let mut k: usize = 0;
        while k < 16
            invariant
                k <= 16,
                self.registers@.len() == 16,
                forall|i: int| 0 <= i < k ==> as_nat(#[trigger] self.registers@[i]) == 0,
                self.current_frame == old(self).current_frame,
                self.previous_frames@ == old(self).previous_frames@,
                self.heaps.pages@ == old(self).heaps.pages@,
                self.world.storage_writes@ == old(self).world.storage_writes@,
                self.world.events@ == old(self).world.events@,
                self.flags == old(self).flags,
                self.context_u128 == old(self).context_u128,
                self.hook_address == old(self).hook_address,
                self.register_pointer_flags == old(self).register_pointer_flags,
                old(self).wf() ==> self.wf(),
            decreases 16 - k,
        {
            self.registers[k] = U256::zero();
            k = k + 1;
        }
        self.register_pointer_flags = 0;
    }

    /// Executes one instruction whose predicate was satisfied. The one gas
    /// unit for the tick has already been charged.
    fn execute_instruction(&mut self, instr: Instruction, ip: u16) -> (r: StepOutcome)
        requires
            old(self).wf(),
            ip < old(self).current_frame.program.instructions@.len(),
        ensures
            final(self).wf(),
            final(self).total_gas() <= old(self).total_gas(),
            ({
                let gas0 = old(self).current_frame.gas as nat;
                match instr.opcode {
                    Opcode::Binop(op) => binop_effect(*old(self), *final(self), op,
                        instr.arguments, ip, r, gas0),
                    Opcode::PtrOp(op) => ptr_effect(*old(self), *final(self), op,
                        instr.arguments, ip, r, gas0),
                    Opcode::Jump => jump_effect(*old(self), *final(self), instr.arguments, r,
                        gas0),
                    Opcode::HeapLoad => heap_load_effect(*old(self), *final(self),
                        instr.arguments, ip, r, gas0),
                    Opcode::HeapStore => heap_store_effect(*old(self), *final(self),
                        instr.arguments, ip, r, gas0),
                    Opcode::LoadPointer => load_pointer_effect(*old(self), *final(self),
                        instr.arguments, ip, r, gas0),
                    Opcode::SLoad => sload_effect(*old(self), *final(self), instr.arguments,
                        ip, r, gas0),
                    Opcode::SStore => sstore_effect(*old(self), *final(self),
                        instr.arguments, ip, r, gas0),
                    Opcode::NearCall(target, eh) => near_call_effect(*old(self),
                        *final(self), instr.arguments, target, eh, ip, r, gas0),
                    Opcode::FarCall(mode, eh) => far_call_effect(*old(self), *final(self),
                        mode, instr.arguments, eh, ip, r, gas0),
                    Opcode::Ret => ret_effect(*old(self), *final(self), false,
                        instr.arguments, r, gas0),
                    Opcode::Revert => ret_effect(*old(self), *final(self), true,
                        instr.arguments, r, gas0),
                    Opcode::PrecompileCall => precompile_effect(*old(self), *final(self),
                        instr.arguments, ip, r, gas0),
                }
            }),
    {
        let args = instr.arguments;
        match instr.opcode {
            Opcode::Binop(op) => self.exec_binop(op, args, ip),
            Opcode::PtrOp(op) => self.exec_ptr(op, args, ip),
            Opcode::Jump => self.exec_jump(args),
            Opcode::HeapLoad => self.exec_heap_load(args, ip),
            Opcode::HeapStore => self.exec_heap_store(args, ip),
            Opcode::LoadPointer => self.exec_load_pointer(args, ip),
            Opcode::SLoad => self.exec_sload(args, ip),
            Opcode::SStore => self.exec_sstore(args, ip),
            Opcode::NearCall(target, eh) => self.exec_near_call(args, target, eh, ip),
            Opcode::FarCall(mode, eh) => self.exec_far_call(mode, args, eh, ip),
            Opcode::Ret => self.exec_ret(false, args, ip),
            Opcode::Revert => self.exec_ret(true, args, ip),
            Opcode::PrecompileCall => self.exec_precompile(args, ip),
        }
    }

    fn exec_binop(&mut self, op: BinopKind, args: Arguments, ip: u16) -> (r: StepOutcome)
        requires
            old(self).wf(),
        ensures
            final(self).wf(),
            final(self).total_gas() <= old(self).total_gas(),
            binop_effect(*old(self), *final(self), op, args, ip, r, old(self).current_frame.gas as nat),
    {
        let (v1, t1) = self.fetch_source(args.src1);
        let (v2, t2) = self.fetch_register(args.src2);
        if t1 || t2 {
            return self.ret_panic(Panic::IncorrectPointerTags);
        }
        let (a, b) = if args.swap {
            (v2, v1)
        } else {
            (v1, v2)
        };
        let (low, high, flags) = crate::binop::binop_compute(op, a, b);
        self.write_destination(args.dst1, low, false);
        match op {
            BinopKind::Mul | BinopKind::Div => {
                let dst2 = Destination::Register(args.dst2);
                self.write_destination(dst2, high, false);
            },
            _ => {},
        }
        if args.set_flags {
            self.flags = flags;
        }
        StepOutcome::Continue(ip as u32 + 1)
    }

    fn exec_ptr(&mut self, op: PtrOpKind, args: Arguments, ip: u16) -> (r: StepOutcome)
        requires
            old(self).wf(),
        ensures
            final(self).wf(),
            final(self).total_gas() <= old(self).total_gas(),
            ptr_effect(*old(self), *final(self), op, args, ip, r, old(self).current_frame.gas as nat),
    {
        let (v1, t1) = self.fetch_source(args.src1);
        let (v2, t2) = self.fetch_register(args.src2);
        let (a, atag, b, btag) = if args.swap {
            (v2, t2, v1, t1)
        } else {
            (v1, t1, v2, t2)
        };
        if !atag || btag {
            return self.ret_panic(Panic::IncorrectPointerTags);
        }
        match op {
            PtrOpKind::PtrAdd | PtrOpKind::PtrSub => {
                if b.limb1 != 0 || b.limb2 != 0 || b.limb3 != 0
                    || b.limb0 > u32::MAX as u64 {
                    return self.ret_panic(Panic::PointerOffsetTooLarge);
                }
                let delta = b.limb0 as u32;
                let mut p = FatPointer::from_u256(a);
                if matches!(op, PtrOpKind::PtrAdd) {
                    if p.offset > u32::MAX - delta {
                        return self.ret_panic(Panic::PointerOffsetTooLarge);
                    }
                    p.offset = p.offset + delta;
                } else {
                    if p.offset < delta {
                        return self.ret_panic(Panic::PointerOffsetTooLarge);
                    }
                    p.offset = p.offset - delta;
                }
                self.write_destination(args.dst1, p.into_u256(), true);
            },
            PtrOpKind::PtrShrink => {
                if b.limb1 != 0 || b.limb2 != 0 || b.limb3 != 0
                    || b.limb0 > u32::MAX as u64 {
                    return self.ret_panic(Panic::PointerOffsetTooLarge);
                }
                let delta = b.limb0 as u32;
                let mut p = FatPointer::from_u256(a);
                if p.length < delta {
                    return self.ret_panic(Panic::PointerOffsetTooLarge);
                }
                p.length = p.length - delta;
                self.write_destination(args.dst1, p.into_u256(), true);
            },
            PtrOpKind::PtrPack => {
                if b.limb0 != 0 || b.limb1 != 0 {
                    return self.ret_panic(Panic::PtrPackLowBitsNotZero);
                }
                let packed = U256 { limb0: a.limb0, limb1: a.limb1, limb2: b.limb2, limb3:
                    b.limb3 };
                self.write_destination(args.dst1, packed, true);
            },
        }
        StepOutcome::Continue(ip as u32 + 1)
    }

    fn exec_jump(&mut self, args: Arguments) -> (r: StepOutcome)
        requires
            old(self).wf(),
        ensures
            final(self).wf(),
            final(self).total_gas() <= old(self).total_gas(),
            jump_effect(*old(self), *final(self), args, r, old(self).current_frame.gas as nat),
    {
        let (v, _) = self.fetch_source(args.src1);
        let target = v.low_u16();
        if (target as usize) < self.current_frame.program.instructions.len() {
            StepOutcome::Continue(target as u32)
        } else {
            self.ret_panic(Panic::JumpingOutOfProgram)
        }
    }

    fn exec_heap_load(&mut self, args: Arguments, ip: u16) -> (r: StepOutcome)
        requires
            old(self).wf(),
        ensures
            final(self).wf(),
            final(self).total_gas() <= old(self).total_gas(),
            heap_load_effect(*old(self), *final(self), args, ip, r, old(self).current_frame.gas as nat),
    {
        let (v, _) = self.fetch_source(args.src1);
        let p = FatPointer::from_u256(v);
        let addr = p.start as u64 + p.offset as u64;
        let value = self.heaps.read_word(p.memory_page, addr);
        self.write_destination(args.dst1, value, false);
        StepOutcome::Continue(ip as u32 + 1)
    }

    fn exec_heap_store(&mut self, args: Arguments, ip: u16) -> (r: StepOutcome)
        requires
            old(self).wf(),
            ip < old(self).current_frame.program.instructions@.len(),
        ensures
            final(self).wf(),
            final(self).total_gas() <= old(self).total_gas(),
            heap_store_effect(*old(self), *final(self), args, ip, r,
                old(self).current_frame.gas as nat),
    {
        if self.current_frame.is_static {
            return self.ret_panic(Panic::StaticFrameViolation);
        }
        let (v, _) = self.fetch_source(args.src1);
        let (value, _) = self.fetch_register(args.src2);
        let p = FatPointer::from_u256(v);
        let addr = p.start as u64 + p.offset as u64;
        if addr <= usize::MAX as u64 - 32 {
            self.heaps.write_word(p.memory_page, addr, value);
        }
        match self.hook_address {
            Some(hook) if p.memory_page == self.current_frame.heap && addr == hook as u64 => {
                StepOutcome::End(ExecutionEnd::SuspendedOnHook {
                    hook: value.low_u32(),
                    pc_to_resume_from: ip + 1,
                })
            },
            _ => StepOutcome::Continue(ip as u32 + 1),
        }
    }

    fn exec_load_pointer(&mut self, args: Arguments, ip: u16) -> (r: StepOutcome)
        requires
            old(self).wf(),
        ensures
            final(self).wf(),
            final(self).total_gas() <= old(self).total_gas(),
            load_pointer_effect(*old(self), *final(self), args, ip, r, old(self).current_frame.gas as nat),
    {
        let (v, tag) = self.fetch_source(args.src1);
        if !tag {
            return self.ret_panic(Panic::IncorrectPointerTags);
        }
        self.write_destination(args.dst1, v, true);
        StepOutcome::Continue(ip as u32 + 1)
    }

    fn exec_sload(&mut self, args: Arguments, ip: u16) -> (r: StepOutcome)
        requires
            old(self).wf(),
        ensures
            final(self).wf(),
            final(self).total_gas() <= old(self).total_gas(),
            sload_effect(*old(self), *final(self), args, ip, r, old(self).current_frame.gas as nat),
    {
        if self.current_frame.is_static {
            return self.ret_panic(Panic::StaticFrameViolation);
        }
        let (key, _) = self.fetch_source(args.src1);
        let address = self.current_frame.address;
        let value = self.world.read_storage(address, key);
        self.write_destination(args.dst1, value, false);
        StepOutcome::Continue(ip as u32 + 1)
    }

    fn exec_sstore(&mut self, args: Arguments, ip: u16) -> (r: StepOutcome)
        requires
            old(self).wf(),
        ensures
            final(self).wf(),
            final(self).total_gas() <= old(self).total_gas(),
            sstore_effect(*old(self), *final(self), args, ip, r, old(self).current_frame.gas as nat),
    {
        if self.current_frame.is_static {
            return self.ret_panic(Panic::StaticFrameViolation);
        }
        let (key, _) = self.fetch_source(args.src1);
        let (value, _) = self.fetch_register(args.src2);
        let address = self.current_frame.address;
        self.world.write_storage(address, key, value);
        StepOutcome::Continue(ip as u32 + 1)
    }

    fn exec_near_call(&mut self, args: Arguments, target: u16, eh: u16, ip: u16) -> (r:
        StepOutcome)
        requires
            old(self).wf(),
        ensures
            final(self).wf(),
            final(self).total_gas() <= old(self).total_gas(),
            near_call_effect(*old(self), *final(self), args, target, eh, ip, r,
                old(self).current_frame.gas as nat),
    {
        let (v, _) = self.fetch_source(args.src1);
        let requested = v.low_u32();
        let to_pass = if requested > self.current_frame.gas {
            self.current_frame.gas
        } else {
            requested
        };
        let snapshot = self.world.snapshot();
        self.current_frame.push_near_call(to_pass, ip, eh, snapshot);
        self.flags = Flags::new(false, false, false);
        StepOutcome::Continue(target as u32)
    }

    fn exec_ret(&mut self, is_revert: bool, args: Arguments, _ip: u16) -> (r: StepOutcome)
        requires
            old(self).wf(),
        ensures
            final(self).wf(),
            final(self).total_gas() <= old(self).total_gas(),
            ret_effect(*old(self), *final(self), is_revert, args, r,
                old(self).current_frame.gas as nat),
    {
        let (abi, abi_tag) = self.fetch_source(args.src1);
        let gas_left = self.current_frame.gas;
        match self.current_frame.pop_near_call() {
            Some((pc, eh, snapshot)) => {
                self.current_frame.gas = self.current_frame.gas.saturating_add(gas_left);
                if is_revert {
                    self.rollback_world(snapshot);
                    self.flags = Flags::new(true, false, false);
                    if (eh as usize) < self.current_frame.program.instructions.len() {
                        StepOutcome::Continue(eh as u32)
                    } else {
                        let ghost mid_storage = self.world.storage_writes@;
                        let ghost mid_events = self.world.events@;
                        let r2 = self.ret_panic(Panic::InvalidInstruction);
                        proof {
                            lemma_journal_prefix_trans(
                                old(self).world.storage_writes@,
                                mid_storage,
                                self.world.storage_writes@,
                            );
                            lemma_journal_prefix_trans(
                                old(self).world.events@,
                                mid_events,
                                self.world.events@,
                            );
                        }
                        r2
                    }
                } else {
                    self.flags = Flags::new(false, false, false);
                    StepOutcome::Continue(pc as u32 + 1)
                }
            },
            None => {
                let pointer = match crate::fat_pointer::far_return_pointer(
                    abi,
                    abi_tag,
                    self.current_frame.heap,
                ) {
                    Err(panic) => {
                        return self.ret_panic(panic);
                    },
                    Ok(p) => p,
                };
                let snapshot = self.current_frame.world_before_this_frame;
                let eh = self.current_frame.exception_handler;
                match self.previous_frames.pop() {
                    None => {
                        let output = self.read_heap_region(
                            pointer.memory_page,
                            pointer.start,
                            pointer.length,
                        );
                        if is_revert {
                            StepOutcome::End(ExecutionEnd::Reverted(output))
                        } else {
                            StepOutcome::End(ExecutionEnd::ProgramFinished(output))
                        }
                    },
                    Some((pc, frame)) => {
                        proof {
                            assert(old(self).previous_frames@.drop_last()
                                =~= self.previous_frames@);
                        }
                        self.current_frame = frame;
                        self.current_frame.heaps_i_am_keeping_alive.push(
                            pointer.memory_page,
                        );
                        self.zero_registers();
                        self.registers[1] = pointer.into_u256();
                        self.register_pointer_flags = 2;
                        self.context_u128 = 0;
                        self.current_frame.gas = self.current_frame.gas.saturating_add(
                            gas_left,
                        );
                        if is_revert {
                            self.rollback_world(snapshot);
                            self.flags = Flags::new(true, false, false);
                            if (eh as usize)
                                < self.current_frame.program.instructions.len() {
                                StepOutcome::Continue(eh as u32)
                            } else {
                                let ghost mid_storage = self.world.storage_writes@;
                                let ghost mid_events = self.world.events@;
                                let r2 = self.ret_panic(Panic::InvalidInstruction);
                                proof {
                                    lemma_journal_prefix_trans(
                                        old(self).world.storage_writes@,
                                        mid_storage,
                                        self.world.storage_writes@,
                                    );
                                    lemma_journal_prefix_trans(
                                        old(self).world.events@,
                                        mid_events,
                                        self.world.events@,
                                    );
                                }
                                r2
                            }
                        } else {
                            self.flags = Flags::new(false, false, false);
                            StepOutcome::Continue(pc as u32 + 1)
                        }
                    },
                }
            },
        }
    }

    /// Copies `length` bytes starting at `start` of `page` out of the
    /// heaps, zero-padded past the page's end.
    fn read_heap_region(&self, page: u32, start: u32, length: u32) -> (out: Vec<u8>)
        ensures
            out@.len() == length,
            forall|j: int| 0 <= j < length ==> out@[j] == byte_at(
                self.heaps,
                page as int,
                start + j,
            ),
    {
        let mut out: Vec<u8> = Vec::new();
        let mut j: u32 = 0;
        while j < length
            invariant
                j <= length,
                out@.len() == j,
                forall|k: int| 0 <= k < j ==> out@[k] == crate::heap::byte_at(
                    self.heaps,
                    page as int,
                    start + k,
                ),
            decreases length - j,
        {
            out.push(self.heaps.read_byte(page, start as u64 + j as u64));
            j = j + 1;
        }
        out
    }

    fn exec_far_call(&mut self, mode: CallingMode, args: Arguments, eh: u16, ip: u16) -> (r:
        StepOutcome)
        requires
            old(self).wf(),
        ensures
            final(self).wf(),
            final(self).total_gas() <= old(self).total_gas(),
            far_call_effect(*old(self), *final(self), mode, args, eh, ip, r,
                old(self).current_frame.gas as nat),
    {
        let (abi, abi_tag) = self.fetch_source(args.src1);
        let (addr_word, _) = self.fetch_register(args.src2);
        // Page ids are 32 bits; a pool that large cannot accept new pages.
        if self.heaps.pages.len() >= (u32::MAX - 1) as usize {
            return self.ret_panic(Panic::OutOfGas);
        }
        let code_address = Address {
            high: (addr_word.limb2 % 0x1_0000_0000) as u32,
            low: addr_word.limb0 as u128 + (addr_word.limb1 as u128) * 0x1_0000_0000_0000_0000,
        };
        let program = self.world.decommit(code_address);
        let program = if program.instructions.len() <= 0xffff {
            program
        } else {
            Program::empty()
        };
        let requested = (abi.limb2 % 0x1_0000_0000) as u32;
        // At most 63/64 of the held gas may leave with the callee.
        let max_pass = ((self.current_frame.gas as u64) * 63 / 64) as u32;
        let to_pass = if requested > max_pass {
            max_pass
        } else {
            requested
        };
        self.current_frame.gas = self.current_frame.gas - to_pass;
        let new_heap = self.heaps.pages.len() as u32;
        self.heaps.pages.push(Vec::new());
        self.heaps.pages.push(Vec::new());
        let pointer = if abi_tag {
            FatPointer::from_u256(abi)
        } else {
            let raw = FatPointer::from_u256(abi);
            FatPointer {
                offset: 0,
                memory_page: self.current_frame.heap,
                start: raw.start,
                length: raw.length,
            }
        };
        let snapshot = self.world.snapshot();
        let address = match mode {
            CallingMode::Normal => code_address,
            CallingMode::Delegate => self.current_frame.address,
            CallingMode::Mimic => code_address,
        };
        let caller = match mode {
            CallingMode::Normal => self.current_frame.address,
            CallingMode::Delegate => self.current_frame.caller,
            CallingMode::Mimic => {
                let w = self.registers[3];
                Address {
                    high: (w.limb2 % 0x1_0000_0000) as u32,
                    low: w.limb0 as u128 + (w.limb1 as u128) * 0x1_0000_0000_0000_0000,
                }
            },
        };
        let context = match mode {
            CallingMode::Delegate => self.current_frame.context_u128,
            _ => self.context_u128,
        };
        let mut new_frame = Callframe::new(
            address,
            code_address,
            caller,
            program,
            new_heap,
            new_heap + 1,
            pointer.memory_page,
            to_pass,
            0,
            eh,
            context,
            self.current_frame.is_static,
            snapshot,
        );
        self.context_u128 = 0;
        core::mem::swap(&mut self.current_frame, &mut new_frame);
        self.previous_frames.push((ip, new_frame));
        proof {
            assert(self.previous_frames@.drop_last() =~= old(self).previous_frames@);
        }
        self.zero_registers();
        self.registers[1] = pointer.into_u256();
        self.registers[2] = U256 { limb0: abi.limb2, limb1: abi.limb3, limb2: 0, limb3: 0 };
        self.register_pointer_flags = 2;
        self.flags = Flags::new(false, false, false);
        StepOutcome::Continue(0)
    }

    fn exec_precompile(&mut self, args: Arguments, ip: u16) -> (r: StepOutcome)
        requires
            old(self).wf(),
            ip < old(self).current_frame.program.instructions@.len(),
        ensures
            final(self).wf(),
            final(self).total_gas() <= old(self).total_gas(),
            precompile_effect(*old(self), *final(self), args, ip, r,
                old(self).current_frame.gas as nat),
    {
        let (aux, _) = self.fetch_register(args.src2);
        let cost = aux.low_u32();
        match self.use_gas(cost) {
            Err(_) => self.ret_panic(Panic::OutOfGas),
            Ok(()) => {
                let (abi, _) = self.fetch_source(args.src1);
                let read_page = (abi.limb2 % 0x1_0000_0000) as u32;
                let write_page = (abi.limb2 / 0x1_0000_0000) as u32;
                let read_page = if read_page == 0 {
                    self.current_frame.heap
                } else {
                    read_page
                };
                let write_page = if write_page == 0 {
                    self.current_frame.heap
                } else {
                    write_page
                };
                let patched = U256 {
                    limb0: abi.limb0,
                    limb1: abi.limb1,
                    limb2: read_page as u64 + (write_page as u64) * 0x1_0000_0000,
                    limb3: abi.limb3,
                };
                let address_low = self.current_frame.address.low_u16();
                self.write_destination(args.dst1, U256::one(), false);
                StepOutcome::Precompile { address_low, abi: patched, resume_pc: ip + 1 }
            },
        }
    }

    /// Runs from instruction index 0 of the current frame.
    pub fn run(&mut self) -> (r: RunOutcome)
        requires
            old(self).wf(),
        ensures
            final(self).wf(),
            final(self).total_gas() <= old(self).total_gas(),
            ({ exists|n: nat| #[trigger] run_reaches(*old(self), *final(self), 0, r, n) }),
    {
        self.run_starting_from(0)
    }

    /// One dispatch step, the machine's tick: its full semantics are
    /// `step_effect`. Each step either consumes gas or pops a frame, which
    /// bounds every run.
    #[verifier::rlimit(100)]
    pub fn step(&mut self, ip: u32) -> (r: StepOutcome)
        requires
            old(self).wf(),
        ensures
            final(self).wf(),
            step_effect(*old(self), *final(self), ip, r),
            final(self).total_gas() <= old(self).total_gas(),
            r is Continue ==> final(self).total_gas() < old(self).total_gas()
                || final(self).total_frames() < old(self).total_frames(),
    {
        if ip >= self.current_frame.program.instructions.len() as u32 {
            // The pointer left the program: an invalid-instruction panic,
            // raised before any gas is charged for the tick.
            return self.ret_panic(Panic::InvalidInstruction);
        }
        match self.use_gas(1) {
            Err(_) => {
                return self.ret_panic(Panic::OutOfGas);
            },
            Ok(()) => {},
        }
        let instr = self.current_frame.program.instructions[ip as usize];
        if !instr.arguments.predicate.satisfied(&self.flags) {
            return StepOutcome::Continue(ip + 1);
        }
        let ghost mid = *self;
        let r2 = self.execute_instruction(instr, ip as u16);
        proof {
            lemma_step_effect_transfer(*old(self), mid, *self, instr, ip as u16, r2);
        }
        r2
    }

    /// The dispatch loop: iterates `step` from `pc` until a step yields an
    /// outcome. Every iteration is governed by `step_effect`; the loop
    /// itself only threads the instruction pointer through.
    pub fn run_starting_from(&mut self, pc: u16) -> (r: RunOutcome)
        requires
            old(self).wf(),
        ensures
            final(self).wf(),
            final(self).total_gas() <= old(self).total_gas(),
            ({ exists|n: nat| #[trigger] run_reaches(*old(self), *final(self), pc as u32, r,
                n) }),
    {
        let mut ip: u32 = pc as u32;
        loop
            invariant
                self.wf(),
                self.total_gas() <= old(self).total_gas(),
                forall|post: State<W>, rr: RunOutcome, n: nat|
                    #[trigger] run_reaches(*self, post, ip, rr, n) ==> exists|m: nat|
                        #[trigger] run_reaches(*old(self), post, pc as u32, rr, m),
            decreases self.total_gas(), self.total_frames(),
        {
            let ghost prev = *self;
            match self.step(ip) {
                StepOutcome::Continue(next) => {
                    proof {
                        assert forall|post: State<W>, rr: RunOutcome, n: nat|
                            #[trigger] run_reaches(*self, post, next, rr, n)
                            implies exists|m: nat| #[trigger] run_reaches(
                            *old(self),
                            post,
                            pc as u32,
                            rr,
                            m,
                        ) by {
                            assert(run_reaches(prev, post, ip, rr, n + 1));
                        }
                    }
                    ip = next;
                },
                StepOutcome::End(end) => {
                    proof {
                        assert(run_reaches(prev, *self, ip, RunOutcome::Done(end), 1));
                    }
                    return RunOutcome::Done(end);
                },
                StepOutcome::Precompile { address_low, abi, resume_pc } => {
                    proof {
                        assert(run_reaches(
                            prev,
                            *self,
                            ip,
                            RunOutcome::PrecompileRequested { address_low, abi, resume_pc },
                            1,
                        ));
                    }
                    return RunOutcome::PrecompileRequested { address_low, abi, resume_pc };
                },
            }
        }
    }
}


/// The per-opcode instruction effect carries from the charged state (one
/// tick already paid) back to the step's pre-state: the two differ only in
/// that one unit of gas, which the effect tracks through its `gas0`
/// argument.
#[verifier::rlimit(100)]
proof fn lemma_step_effect_transfer<W: World>(
    pre: State<W>,
    mid: State<W>,
    post: State<W>,
    instr: Instruction,
    ip: u16,
    r: StepOutcome,
)
    requires
        only_gas_charged(pre, mid),
        pre.current_frame.gas >= 1,
        ({
            let gas0 = mid.current_frame.gas as nat;
            match instr.opcode {
                Opcode::Binop(op) => binop_effect(mid, post, op, instr.arguments, ip, r, gas0),
                Opcode::PtrOp(op) => ptr_effect(mid, post, op, instr.arguments, ip, r, gas0),
                Opcode::Jump => jump_effect(mid, post, instr.arguments, r, gas0),
                Opcode::HeapLoad => heap_load_effect(mid, post, instr.arguments, ip, r, gas0),
                Opcode::HeapStore => heap_store_effect(mid, post, instr.arguments, ip, r,
                    gas0),
                Opcode::LoadPointer => load_pointer_effect(mid, post, instr.arguments, ip, r,
                    gas0),
                Opcode::SLoad => sload_effect(mid, post, instr.arguments, ip, r, gas0),
                Opcode::SStore => sstore_effect(mid, post, instr.arguments, ip, r, gas0),
                Opcode::NearCall(target, eh) => near_call_effect(mid, post, instr.arguments,
                    target, eh, ip, r, gas0),
                Opcode::FarCall(mode, eh) => far_call_effect(mid, post, mode,
                    instr.arguments, eh, ip, r, gas0),
                Opcode::Ret => ret_effect(mid, post, false, instr.arguments, r, gas0),
                Opcode::Revert => ret_effect(mid, post, true, instr.arguments, r, gas0),
                Opcode::PrecompileCall => precompile_effect(mid, post, instr.arguments, ip,
                    r, gas0),
            }
        }),
    ensures
        ({
            let gas0 = (pre.current_frame.gas - 1) as nat;
            match instr.opcode {
                Opcode::Binop(op) => binop_effect(pre, post, op, instr.arguments, ip, r, gas0),
                Opcode::PtrOp(op) => ptr_effect(pre, post, op, instr.arguments, ip, r, gas0),
                Opcode::Jump => jump_effect(pre, post, instr.arguments, r, gas0),
                Opcode::HeapLoad => heap_load_effect(pre, post, instr.arguments, ip, r, gas0),
                Opcode::HeapStore => heap_store_effect(pre, post, instr.arguments, ip, r,
                    gas0),
                Opcode::LoadPointer => load_pointer_effect(pre, post, instr.arguments, ip, r,
                    gas0),
                Opcode::SLoad => sload_effect(pre, post, instr.arguments, ip, r, gas0),
                Opcode::SStore => sstore_effect(pre, post, instr.arguments, ip, r, gas0),
                Opcode::NearCall(target, eh) => near_call_effect(pre, post, instr.arguments,
                    target, eh, ip, r, gas0),
                Opcode::FarCall(mode, eh) => far_call_effect(pre, post, mode,
                    instr.arguments, eh, ip, r, gas0),
                Opcode::Ret => ret_effect(pre, post, false, instr.arguments, r, gas0),
                Opcode::Revert => ret_effect(pre, post, true, instr.arguments, r, gas0),
                Opcode::PrecompileCall => precompile_effect(pre, post, instr.arguments, ip,
                    r, gas0),
            }
        }),
{
    let gas0 = (pre.current_frame.gas - 1) as nat;
    match instr.opcode {
        Opcode::Binop(op) => {
            assert(binop_effect(pre, post, op, instr.arguments, ip, r, gas0));
        },
        Opcode::PtrOp(op) => {
            assert(ptr_effect(pre, post, op, instr.arguments, ip, r, gas0));
        },
        Opcode::Jump => {
            assert(jump_effect(pre, post, instr.arguments, r, gas0));
        },
        Opcode::HeapLoad => {
            assert(heap_load_effect(pre, post, instr.arguments, ip, r, gas0));
        },
        Opcode::HeapStore => {
            assert(heap_store_effect(pre, post, instr.arguments, ip, r, gas0));
        },
        Opcode::LoadPointer => {
            assert(load_pointer_effect(pre, post, instr.arguments, ip, r, gas0));
        },
        Opcode::SLoad => {
            assert(sload_effect(pre, post, instr.arguments, ip, r, gas0));
        },
        Opcode::SStore => {
            assert(sstore_effect(pre, post, instr.arguments, ip, r, gas0));
        },
        Opcode::NearCall(target, eh) => {
            assert(near_call_effect(pre, post, instr.arguments, target, eh, ip, r, gas0));
        },
        Opcode::FarCall(mode, eh) => {
            assert(far_call_effect(pre, post, mode, instr.arguments, eh, ip, r, gas0));
        },
        Opcode::Ret => {
            assert(ret_effect(pre, post, false, instr.arguments, r, gas0));
        },
        Opcode::Revert => {
            assert(ret_effect(pre, post, true, instr.arguments, r, gas0));
        },
        Opcode::PrecompileCall => {
            assert(precompile_effect(pre, post, instr.arguments, ip, r, gas0));
        },
    }
}

} // verus!

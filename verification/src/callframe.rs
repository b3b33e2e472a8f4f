//! Call frames: one activation of a contract, owning its program, stack,
//! heap page ids, gas, and the snapshot to roll back to.

use vstd::prelude::*;
use crate::bitset::Bitset;
use crate::program::Program;
use crate::word::U256;
use crate::world::{Address, Snapshot};

verus! {

/// A cheap intra-frame call record: enough to restore the caller exactly.
#[derive(Clone, Copy, Debug, PartialEq, Eq, Structural)]
pub struct NearCallFrame {
    pub call_instruction: u16,
    pub exception_handler: u16,
    pub previous_frame_sp: u16,
    pub previous_frame_gas: u32,
    pub world_before_this_frame: Snapshot,
}

/// One activation of a contract.
pub struct Callframe {
    pub address: Address,
    pub code_address: Address,
    pub caller: Address,

    pub exception_handler: u16,
    pub context_u128: u128,
    pub is_static: bool,

    pub stack: Vec<U256>,
    pub stack_pointer_flags: Bitset,

    pub heap: u32,
    pub aux_heap: u32,
    pub sp: u16,

    pub gas: u32,
    pub stipend: u32,

    pub near_calls: Vec<NearCallFrame>,

    pub program: Program,

    /// Returning a pointer into the calldata is illegal: the caller's heap
    /// could become reachable both directly and through the pointer. Heap
    /// pages older than this one belong to callers.
    pub calldata_heap: u32,

    /// Pages returned to this frame exist only so it can read them; they
    /// are all releasable on return, except possibly one that is passed on.
    pub heaps_i_am_keeping_alive: Vec<u32>,

    pub world_before_this_frame: Snapshot,
}

/// The gas stashed in a stack of near-call records.
pub open spec fn near_calls_gas(s: Seq<NearCallFrame>) -> nat
    decreases s.len(),
{
    if s.len() == 0 {
        0nat
    } else {
        near_calls_gas(s.drop_last()) + s.last().previous_frame_gas as nat
    }
}

/// `b` agrees with `a` on every field outside the near-call bookkeeping
/// (`sp`, `gas`, and the near-call stack).
pub open spec fn same_but_near_state(a: Callframe, b: Callframe) -> bool {
    &&& b.address == a.address
    &&& b.code_address == a.code_address
    &&& b.caller == a.caller
    &&& b.exception_handler == a.exception_handler
    &&& b.context_u128 == a.context_u128
    &&& b.is_static == a.is_static
    &&& b.stack@ == a.stack@
    &&& b.stack_pointer_flags.words@ == a.stack_pointer_flags.words@
    &&& b.heap == a.heap
    &&& b.aux_heap == a.aux_heap
    &&& b.stipend == a.stipend
    &&& b.program.instructions@ == a.program.instructions@
    &&& b.program.code_page@ == a.program.code_page@
    &&& b.calldata_heap == a.calldata_heap
    &&& b.heaps_i_am_keeping_alive@ == a.heaps_i_am_keeping_alive@
    &&& b.world_before_this_frame == a.world_before_this_frame
}

impl Callframe {
    pub open spec fn wf(self) -> bool {
        &&& self.stack@.len() == 0x1_0000
        &&& self.stack_pointer_flags.wf()
        &&& self.program.wf()
    }

    /// All gas held by this frame, including amounts currently
    /// inaccessible because a near call stashed them.
    pub open spec fn contained_gas(self) -> nat {
        self.gas as nat + near_calls_gas(self.near_calls@)
    }

    /// Builds a frame with a zeroed stack, `sp` at its initial value, and
    /// no near calls.
    pub fn new(
        address: Address,
        code_address: Address,
        caller: Address,
        program: Program,
        heap: u32,
        aux_heap: u32,
        calldata_heap: u32,
        gas: u32,
        stipend: u32,
        exception_handler: u16,
        context_u128: u128,
        is_static: bool,
        world_before_this_frame: Snapshot,
    ) -> (r: Callframe)
        requires
            program.wf(),
        ensures
            r.wf(),
            r.address == address,
            r.code_address == code_address,
            r.caller == caller,
            r.program.instructions@ == program.instructions@,
            r.program.code_page@ == program.code_page@,
            r.heap == heap,
            r.aux_heap == aux_heap,
            r.calldata_heap == calldata_heap,
            r.gas == gas,
            r.stipend == stipend,
            r.exception_handler == exception_handler,
            r.context_u128 == context_u128,
            r.is_static == is_static,
            r.world_before_this_frame == world_before_this_frame,
            r.sp == 1024,
            r.near_calls@.len() == 0,
            r.heaps_i_am_keeping_alive@.len() == 0,
            forall|i: int| 0 <= i < 0x1_0000 ==> r.stack@[i]
                == (U256 { limb0: 0, limb1: 0, limb2: 0, limb3: 0 }),
            forall|i: u16| !r.stack_pointer_flags.spec_get(i),
            r.contained_gas() == gas,
    {
        let mut stack: Vec<U256> = Vec::new();
        let mut k: usize = 0;
        while k < 0x1_0000
            invariant
                k <= 0x1_0000,
                stack@.len() == k,
                forall|i: int| 0 <= i < k ==> stack@[i]
                    == (U256 { limb0: 0, limb1: 0, limb2: 0, limb3: 0 }),
            decreases 0x1_0000 - k,
        {
            stack.push(U256::zero());
            k = k + 1;
        }
        Callframe {
            address,
            code_address,
            caller,
            program,
            context_u128,
            is_static,
            stack,
            stack_pointer_flags: Bitset::new(),
            heap,
            aux_heap,
            calldata_heap,
            heaps_i_am_keeping_alive: Vec::new(),
            sp: 1024,
            gas,
            stipend,
            exception_handler,
            near_calls: Vec::new(),
            world_before_this_frame,
        }
    }

    /// Pushes a near-call record stashing the unpassed gas, the return
    /// site, and the world snapshot; the frame's gas becomes `gas_to_call`.
    pub fn push_near_call(
        &mut self,
        gas_to_call: u32,
        old_pc: u16,
        exception_handler: u16,
        world_before_this_frame: Snapshot,
    )
        requires
            gas_to_call <= old(self).gas,
        ensures
            final(self).near_calls@ == old(self).near_calls@.push(NearCallFrame {
                call_instruction: old_pc,
                exception_handler,
                previous_frame_sp: old(self).sp,
                previous_frame_gas: (old(self).gas - gas_to_call) as u32,
                world_before_this_frame,
            }),
            final(self).gas == gas_to_call,
            final(self).contained_gas() == old(self).contained_gas(),
            final(self).sp == old(self).sp,
            same_but_near_state(*old(self), *final(self)),
    {
        let frame = NearCallFrame {
            call_instruction: old_pc,
            exception_handler,
            previous_frame_sp: self.sp,
            previous_frame_gas: self.gas - gas_to_call,
            world_before_this_frame,
        };
        self.near_calls.push(frame);
        self.gas = gas_to_call;
        proof {
            assert(final(self).near_calls@.drop_last() =~= old(self).near_calls@);
        }
    }

    /// Pops the innermost near call, restoring the stashed `sp` and gas
    /// exactly; the gas the callee still held is discarded by the caller of
    /// this method (a return adds it back, a panic does not). Returns the
    /// call site, the exception handler, and the snapshot.
    pub fn pop_near_call(&mut self) -> (r: Option<(u16, u16, Snapshot)>)
        ensures
            old(self).near_calls@.len() == 0 ==> r is None
                && same_but_near_state(*old(self), *final(self))
                && final(self).sp == old(self).sp
                && final(self).gas == old(self).gas
                && final(self).near_calls@ == old(self).near_calls@,
            old(self).near_calls@.len() > 0 ==> {
                let f = old(self).near_calls@.last();
                &&& r == Some((f.call_instruction, f.exception_handler,
                    f.world_before_this_frame))
                &&& final(self).near_calls@ == old(self).near_calls@.drop_last()
                &&& final(self).sp == f.previous_frame_sp
                &&& final(self).gas == f.previous_frame_gas
                &&& final(self).contained_gas() + old(self).gas == old(self).contained_gas()
                &&& same_but_near_state(*old(self), *final(self))
            },
    {
        match self.near_calls.pop() {
            None => None,
            Some(f) => {
                self.sp = f.previous_frame_sp;
                self.gas = f.previous_frame_gas;
                Some((f.call_instruction, f.exception_handler, f.world_before_this_frame))
            },
        }
    }

    /// Pushing a near call and popping it restores the frame: `sp` and the
    /// near-call stack come back exactly, and the gas comes back except
    /// for what the callee actually consumed (the popped frame restores
    /// the stashed remainder; the return path adds the callee's leftover
    /// back separately).
    pub proof fn lemma_near_call_round_trip(
        pre: Callframe,
        pushed: Callframe,
        popped: Callframe,
        gas_to_call: u32,
        old_pc: u16,
        exception_handler: u16,
        snapshot: Snapshot,
    )
        requires
            gas_to_call <= pre.gas,
            // the effect `push_near_call` guarantees
            pushed.near_calls@ == pre.near_calls@.push(NearCallFrame {
                call_instruction: old_pc,
                exception_handler,
                previous_frame_sp: pre.sp,
                previous_frame_gas: (pre.gas - gas_to_call) as u32,
                world_before_this_frame: snapshot,
            }),
            pushed.gas == gas_to_call,
            pushed.sp == pre.sp,
            same_but_near_state(pre, pushed),
            // the effect `pop_near_call` guarantees on the pushed frame
            popped.near_calls@ == pushed.near_calls@.drop_last(),
            popped.sp == pushed.near_calls@.last().previous_frame_sp,
            popped.gas == pushed.near_calls@.last().previous_frame_gas,
            same_but_near_state(pushed, popped),
        ensures
            popped.near_calls@ == pre.near_calls@,
            popped.sp == pre.sp,
            popped.gas + gas_to_call == pre.gas,
            same_but_near_state(pre, popped),
    {
        assert(pushed.near_calls@.drop_last() =~= pre.near_calls@);
    }

    /// The number of instructions in this frame's program.
    pub fn program_len(&self) -> (r: usize)
        ensures
            r == self.program.instructions@.len(),
    {
        self.program.instructions.len()
    }
}

} // verus!

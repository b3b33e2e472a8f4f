use vm2::bitset::Bitset;
use vm2::fat_pointer::FatPointer;
use vm2::heap::Heaps;
use vm2::predication::{Flags, Predicate};
use vm2::program::{
    end_execution, BinopKind, CallingMode, Destination, ExecutionEnd, Instruction, Program,
    Source,
};
use vm2::state::{RunOutcome, State};
use vm2::word::U256;
use vm2::world::{Address, ModifiedWorld, Snapshot, World};

struct TestWorld {
    program: Vec<Instruction>,
}

impl World for TestWorld {
    fn decommit(&mut self, _address: Address) -> Program {
        Program::new(self.program.clone(), vec![U256::from_u64(1234)])
    }

    fn read_storage(&mut self, _address: Address, _key: U256) -> U256 {
        U256::zero()
    }
}

fn boot(program: Vec<Instruction>) -> State<TestWorld> {
    State::new(
        TestWorld { program },
        Address { high: 0, low: 0xabcd },
        Address::zero(),
        vec![1, 2, 3, 4],
    )
}

fn done(outcome: RunOutcome) -> ExecutionEnd {
    match outcome {
        RunOutcome::Done(end) => end,
        RunOutcome::PrecompileRequested { .. } => panic!("unexpected precompile request"),
    }
}

fn add_imm(value: u16, dst: u8) -> Instruction {
    Instruction::from_binop(
        BinopKind::Add,
        Source::Immediate(value),
        0,
        Destination::Register(dst),
        0,
        Predicate::Always,
        false,
        false,
    )
}

#[test]
fn gas_starvation_panics_after_five_ticks() {
    let mut program = Vec::new();
    for _ in 0..10 {
        program.push(Instruction::from_binop(
            BinopKind::Add,
            Source::Register(1),
            1,
            Destination::Register(1),
            0,
            Predicate::Always,
            false,
            true,
        ));
    }
    program.push(end_execution());
    let mut state = boot(program);
    state.current_frame.gas = 5;
    let end = done(state.run());
    assert_eq!(end, ExecutionEnd::Panicked);
}

#[test]
fn near_call_revert_rolls_back_storage() {
    // 0: r2 = 7        1: storage[1] = r2      2: near call 3, handler 6
    // 3: r3 = 9        4: storage[1] = r3      5: revert
    // 6: r4 = sload(1) 7: return
    let program = vec![
        add_imm(7, 2),
        Instruction::from_sstore(Source::Immediate(1), 2, Predicate::Always),
        Instruction::from_near_call(Source::Immediate(0), 3, 6, Predicate::Always),
        add_imm(9, 3),
        Instruction::from_sstore(Source::Immediate(1), 3, Predicate::Always),
        Instruction::from_revert(Source::Register(0), Predicate::Always),
        Instruction::from_sload(Source::Immediate(1), Destination::Register(4), Predicate::Always),
        end_execution(),
    ];
    let mut state = boot(program);
    let end = done(state.run());
    assert_eq!(end, ExecutionEnd::ProgramFinished(vec![]));
    assert_eq!(state.registers[4], U256::from_u64(7));
    let address = state.current_frame.address;
    assert_eq!(state.world.read_storage(address, U256::from_u64(1)), U256::from_u64(7));
}

#[test]
fn far_return_of_calldata_pointer_panics() {
    // The callee returns its own calldata pointer, whose page belongs to
    // the caller's side: the return panics and the caller lands on its
    // exception handler with a zero pointer in register 1.
    // Build a call ABI in r8: the tagged calldata pointer with 1000 units
    // of gas packed into its high bits.
    let program = vec![
        add_imm(1000, 5),
        add_imm(128, 6),
        Instruction::from_binop(
            BinopKind::ShiftLeft,
            Source::Register(5),
            6,
            Destination::Register(7),
            0,
            Predicate::Always,
            false,
            false,
        ),
        Instruction::from_ptr(
            vm2::program::PtrOpKind::PtrPack,
            Source::Register(1),
            7,
            Destination::Register(8),
            Predicate::Always,
            false,
        ),
        Instruction::from_far_call(
            CallingMode::Normal,
            Source::Register(8),
            2,
            6,
            Predicate::Always,
        ),
        end_execution(),
        // exception handler: return cleanly so the test can observe state
        end_execution(),
    ];
    // The world's program is the callee: it immediately returns the
    // pointer it was called with.
    let callee = vec![Instruction::from_ret(Source::Register(1), Predicate::Always)];
    let mut state = State::new(
        TestWorld { program: callee },
        Address { high: 0, low: 77 },
        Address::zero(),
        vec![9, 9],
    );
    // The root frame runs the caller side.
    state.current_frame.program = Program::new(program, vec![]);
    let end = done(state.run());
    assert_eq!(end, ExecutionEnd::ProgramFinished(vec![]));
    // The panic path zeroed register 1 and set the error flag before the
    // handler ran.
    assert_eq!(state.registers[1], U256::zero());
    assert!(state.flags.lt_of);
}

#[test]
fn skipped_predicates_still_cost_gas() {
    let mut program = Vec::new();
    for _ in 0..3 {
        program.push(Instruction::from_binop(
            BinopKind::Add,
            Source::Immediate(1),
            0,
            Destination::Register(2),
            0,
            Predicate::IfEQ,
            false,
            false,
        ));
    }
    program.push(end_execution());
    let mut state = boot(program);
    state.current_frame.gas = 100;
    let end = done(state.run());
    assert_eq!(end, ExecutionEnd::ProgramFinished(vec![]));
    // Three skipped instructions and the return each cost one gas.
    assert_eq!(state.current_frame.gas, 96);
    // The skipped adds never executed.
    assert_eq!(state.registers[2], U256::zero());
}

#[test]
fn heap_read_zero_fills_and_write_zero_extends() {
    let mut heaps = Heaps { pages: vec![Vec::new()] };
    // A fresh heap reads as zero and is not extended by the read.
    let value = heaps.read_word(0, 0);
    assert_eq!(value, U256::zero());
    assert_eq!(heaps.pages[0].len(), 0);
    // A write at offset 64 extends the page to 96 with zeroes before it.
    let pattern = U256 {
        limb0: 0x1111_1111_1111_1111,
        limb1: 0x1111_1111_1111_1111,
        limb2: 0x1111_1111_1111_1111,
        limb3: 0x1111_1111_1111_1111,
    };
    heaps.write_word(0, 64, pattern);
    assert_eq!(heaps.pages[0].len(), 96);
    for i in 0..64 {
        assert_eq!(heaps.pages[0][i], 0);
    }
    assert_eq!(heaps.read_word(0, 64), pattern);
}

#[test]
fn mul_wide_result_and_flags() {
    // r2 = 2^256 - 1 (0 - 1 with the operands swapped), then r3:r4 = r2 * 2.
    let program = vec![
        Instruction::from_binop(
            BinopKind::Sub,
            Source::Immediate(1),
            0,
            Destination::Register(2),
            0,
            Predicate::Always,
            true,
            false,
        ),
        Instruction::from_binop(
            BinopKind::Mul,
            Source::Immediate(2),
            2,
            Destination::Register(3),
            4,
            Predicate::Always,
            false,
            true,
        ),
        end_execution(),
    ];
    let mut state = boot(program);
    let end = done(state.run());
    assert_eq!(end, ExecutionEnd::ProgramFinished(vec![]));
    let expected_low = U256 {
        limb0: 0xffff_ffff_ffff_fffe,
        limb1: 0xffff_ffff_ffff_ffff,
        limb2: 0xffff_ffff_ffff_ffff,
        limb3: 0xffff_ffff_ffff_ffff,
    };
    assert_eq!(state.registers[3], expected_low);
    assert_eq!(state.registers[4], U256::from_u64(1));
    assert!(state.flags.lt_of);
    assert!(!state.flags.eq);
    assert!(!state.flags.gt);
}

#[test]
fn div_by_zero_returns_zero_zero() {
    let program = vec![
        Instruction::from_binop(
            BinopKind::Div,
            Source::Immediate(5),
            0,
            Destination::Register(2),
            3,
            Predicate::Always,
            false,
            true,
        ),
        end_execution(),
    ];
    let mut state = boot(program);
    let end = done(state.run());
    assert_eq!(end, ExecutionEnd::ProgramFinished(vec![]));
    assert_eq!(state.registers[2], U256::zero());
    assert_eq!(state.registers[3], U256::zero());
    assert!(state.flags.eq);
    assert!(!state.flags.lt_of);
    assert!(!state.flags.gt);
}

#[test]
fn division_computes_quotient_and_remainder() {
    // 1000 / 7 = 142 remainder 6.
    let program = vec![
        add_imm(7, 2),
        Instruction::from_binop(
            BinopKind::Div,
            Source::Immediate(1000),
            2,
            Destination::Register(3),
            4,
            Predicate::Always,
            false,
            false,
        ),
        end_execution(),
    ];
    let mut state = boot(program);
    let end = done(state.run());
    assert_eq!(end, ExecutionEnd::ProgramFinished(vec![]));
    assert_eq!(state.registers[3], U256::from_u64(142));
    assert_eq!(state.registers[4], U256::from_u64(6));
}

#[test]
fn shifts_and_rotates() {
    // r2 = 32, r3 = 5 << 32, r4 = r3 >> 32.
    let program = vec![
        add_imm(32, 2),
        Instruction::from_binop(
            BinopKind::ShiftLeft,
            Source::Immediate(5),
            2,
            Destination::Register(3),
            0,
            Predicate::Always,
            false,
            false,
        ),
        Instruction::from_binop(
            BinopKind::ShiftRight,
            Source::Register(3),
            2,
            Destination::Register(4),
            0,
            Predicate::Always,
            false,
            false,
        ),
        end_execution(),
    ];
    let mut state = boot(program);
    let end = done(state.run());
    assert_eq!(end, ExecutionEnd::ProgramFinished(vec![]));
    assert_eq!(state.registers[3], U256 { limb0: 5 << 32, limb1: 0, limb2: 0, limb3: 0 });
    assert_eq!(state.registers[4], U256::from_u64(5));
}

#[test]
fn jump_out_of_program_panics() {
    let program = vec![
        Instruction::from_jump(Source::Immediate(5), Predicate::Always),
        end_execution(),
    ];
    let mut state = boot(program);
    let end = done(state.run());
    assert_eq!(end, ExecutionEnd::Panicked);
}

#[test]
fn jump_to_program_length_panics() {
    let program = vec![
        Instruction::from_jump(Source::Immediate(2), Predicate::Always),
        end_execution(),
    ];
    let mut state = boot(program);
    let end = done(state.run());
    assert_eq!(end, ExecutionEnd::Panicked);
}

#[test]
fn near_call_with_invalid_handler_escalates() {
    let program = vec![
        Instruction::from_near_call(Source::Immediate(0), 1, 99, Predicate::Always),
        Instruction::from_revert(Source::Register(0), Predicate::Always),
    ];
    let mut state = boot(program);
    let end = done(state.run());
    assert_eq!(end, ExecutionEnd::Panicked);
}

#[test]
fn arithmetic_on_pointer_tags_panics() {
    // Register 1 holds the tagged calldata pointer.
    let program = vec![
        Instruction::from_binop(
            BinopKind::Add,
            Source::Register(1),
            1,
            Destination::Register(1),
            0,
            Predicate::Always,
            false,
            false,
        ),
        end_execution(),
    ];
    let mut state = boot(program);
    let end = done(state.run());
    assert_eq!(end, ExecutionEnd::Panicked);
}

#[test]
fn pointer_shrink_underflow_panics() {
    // The calldata pointer is 4 bytes long; shrinking by 100 underflows.
    let program = vec![
        add_imm(100, 2),
        Instruction::from_ptr(
            vm2::program::PtrOpKind::PtrShrink,
            Source::Register(1),
            2,
            Destination::Register(3),
            Predicate::Always,
            false,
        ),
        end_execution(),
    ];
    let mut state = boot(program);
    let end = done(state.run());
    assert_eq!(end, ExecutionEnd::Panicked);
}

#[test]
fn pointer_pack_low_bits_must_be_zero() {
    let program = vec![
        add_imm(5, 2),
        Instruction::from_ptr(
            vm2::program::PtrOpKind::PtrPack,
            Source::Register(1),
            2,
            Destination::Register(3),
            Predicate::Always,
            false,
        ),
        end_execution(),
    ];
    let mut state = boot(program);
    let end = done(state.run());
    assert_eq!(end, ExecutionEnd::Panicked);
}

#[test]
fn pointer_add_moves_offset_and_keeps_tag() {
    // r3 = r1 + 2, then load 32 bytes through it.
    let program = vec![
        add_imm(2, 2),
        Instruction::from_ptr(
            vm2::program::PtrOpKind::PtrAdd,
            Source::Register(1),
            2,
            Destination::Register(3),
            Predicate::Always,
            false,
        ),
        Instruction::from_heap_load(
            Source::Register(3),
            Destination::Register(4),
            Predicate::Always,
        ),
        end_execution(),
    ];
    let mut state = boot(program);
    let end = done(state.run());
    assert_eq!(end, ExecutionEnd::ProgramFinished(vec![]));
    let p = FatPointer::from_u256(state.registers[3]);
    assert_eq!(p.offset, 2);
    assert_eq!(p.memory_page, 1);
    // Calldata is [1, 2, 3, 4]; reading at offset 2 sees 3, 4, then zeros.
    assert_eq!(state.registers[4].limb3, 0x0304_0000_0000_0000);
}

#[test]
fn static_frame_rejects_storage_writes() {
    let program = vec![
        Instruction::from_sstore(Source::Immediate(1), 0, Predicate::Always),
        end_execution(),
    ];
    let mut state = boot(program);
    state.current_frame.is_static = true;
    let end = done(state.run());
    assert_eq!(end, ExecutionEnd::Panicked);
}

#[test]
fn fat_pointer_round_trip() {
    let p = FatPointer { offset: 7, memory_page: 11, start: 1000, length: 65536 };
    assert_eq!(FatPointer::from_u256(p.into_u256()), p);
    let q = FatPointer {
        offset: u32::MAX,
        memory_page: u32::MAX,
        start: u32::MAX,
        length: u32::MAX,
    };
    assert_eq!(FatPointer::from_u256(q.into_u256()), q);
}

#[test]
fn predicate_satisfaction_table() {
    let eq = Flags::new(false, true, false);
    let gt = Flags::new(false, false, true);
    let lt = Flags::new(true, false, false);
    assert!(Predicate::Always.satisfied(&eq));
    assert!(Predicate::IfEQ.satisfied(&eq));
    assert!(!Predicate::IfEQ.satisfied(&gt));
    assert!(Predicate::IfGT.satisfied(&gt));
    assert!(Predicate::IfLT.satisfied(&lt));
    assert!(Predicate::IfGE.satisfied(&gt) && Predicate::IfGE.satisfied(&eq));
    assert!(Predicate::IfLE.satisfied(&lt) && Predicate::IfLE.satisfied(&eq));
    assert!(Predicate::IfNotEQ.satisfied(&gt) && !Predicate::IfNotEQ.satisfied(&eq));
    assert!(Predicate::IfGTOrLT.satisfied(&gt) && Predicate::IfGTOrLT.satisfied(&lt));
    assert!(!Predicate::IfGTOrLT.satisfied(&eq));
}

struct EmptyWorld;

impl World for EmptyWorld {
    fn decommit(&mut self, _address: Address) -> Program {
        Program::new(Vec::new(), Vec::new())
    }

    fn read_storage(&mut self, _address: Address, _key: U256) -> U256 {
        U256::from_u64(0xdead)
    }
}

#[test]
fn snapshot_then_rollback_is_noop() {
    let mut world = ModifiedWorld::new(EmptyWorld);
    let a = Address { high: 1, low: 2 };
    world.write_storage(a, U256::from_u64(1), U256::from_u64(10));
    world.record_event(vm2::world::Event { key: U256::zero(), value: U256::from_u64(3) });
    let before_writes = world.storage_writes.clone();
    let before_events = world.events.clone();
    let snapshot: Snapshot = world.snapshot();
    world.rollback(snapshot);
    assert_eq!(world.storage_writes, before_writes);
    assert_eq!(world.events, before_events);
    // Rolling back to the start erases the view but not the underlying
    // world.
    world.rollback(Snapshot { storage_len: 0, events_len: 0 });
    assert_eq!(world.read_storage(a, U256::from_u64(1)), U256::from_u64(0xdead));
}

#[test]
fn near_call_return_restores_sp_and_unspent_gas() {
    // 0: near call to 1 passing 10 gas; 1: return; 2: far return.
    let program = vec![
        Instruction::from_near_call(Source::Immediate(10), 1, 2, Predicate::Always),
        Instruction::from_ret(Source::Register(0), Predicate::Always),
        end_execution(),
    ];
    let mut state = boot(program);
    state.current_frame.gas = 100;
    let sp_before = state.current_frame.sp;
    let end = done(state.run());
    assert_eq!(end, ExecutionEnd::ProgramFinished(vec![]));
    assert_eq!(state.current_frame.sp, sp_before);
    // Three instructions ran, each costing 1 gas; nothing else was lost.
    assert_eq!(state.current_frame.gas, 97);
}

#[test]
fn far_call_return_restores_caller() {
    // The callee records the ABI high word it received in storage, then
    // returns an empty slice of its own heap (register 4 is zero, so the
    // untagged return ABI has start 0 and length 0).
    let callee = vec![
        Instruction::from_sstore(Source::Immediate(2), 2, Predicate::Always),
        Instruction::from_ret(Source::Register(4), Predicate::Always),
    ];
    let mut state = State::new(
        TestWorld { program: callee },
        Address { high: 0, low: 5 },
        Address::zero(),
        vec![],
    );
    // The untagged ABI in r7 passes 1000 units of gas and describes an
    // empty slice.
    let caller = vec![
        add_imm(1000, 5),
        add_imm(128, 6),
        Instruction::from_binop(
            BinopKind::ShiftLeft,
            Source::Register(5),
            6,
            Destination::Register(7),
            0,
            Predicate::Always,
            false,
            false,
        ),
        Instruction::from_far_call(
            CallingMode::Normal,
            Source::Register(7),
            2,
            5,
            Predicate::Always,
        ),
        end_execution(),
        end_execution(),
    ];
    state.current_frame.program = Program::new(caller, vec![]);
    let end = done(state.run());
    assert_eq!(end, ExecutionEnd::ProgramFinished(vec![]));
    // The returned pointer landed tagged in register 1, pointing at the
    // callee's own heap page, and the error flag is clear.
    assert_eq!(state.register_pointer_flags, 2);
    assert!(!state.flags.lt_of);
    let p = FatPointer::from_u256(state.registers[1]);
    assert_eq!(p.memory_page, 4);
    assert_eq!(p.length, 0);
    // The callee saw the ABI high word (its gas field) in register 2.
    assert_eq!(
        state.world.read_storage(Address::zero(), U256::from_u64(2)),
        U256::from_u64(1000)
    );
}

#[test]
fn precompile_call_requests_external_run_and_resumes() {
    let program = vec![
        Instruction::from_precompile_call(
            Source::Immediate(0),
            0,
            Destination::Register(5),
            Predicate::Always,
        ),
        end_execution(),
    ];
    let mut state = boot(program);
    match state.run() {
        RunOutcome::Done(end) => panic!("ended early: {:?}", end),
        RunOutcome::PrecompileRequested { address_low, abi, resume_pc } => {
            assert_eq!(address_low, 0xabcd);
            // Both memory pages defaulted to the frame's heap (page 2).
            assert_eq!(abi.limb2, 2 + (2 << 32));
            assert_eq!(resume_pc, 1);
        },
    }
    // Success was already written to the output register.
    assert_eq!(state.registers[5], U256::from_u64(1));
    let end = done(state.run_starting_from(1));
    assert_eq!(end, ExecutionEnd::ProgramFinished(vec![]));
}

#[test]
fn code_page_source_reads_constants() {
    // The boot world supplies a code page with the constant 1234.
    let program = vec![
        Instruction::from_binop(
            BinopKind::Add,
            Source::CodePage(0),
            0,
            Destination::Register(2),
            0,
            Predicate::Always,
            false,
            false,
        ),
        Instruction::from_binop(
            BinopKind::Add,
            Source::CodePage(7),
            0,
            Destination::Register(3),
            0,
            Predicate::Always,
            false,
            false,
        ),
        end_execution(),
    ];
    let mut state = boot(program);
    let end = done(state.run());
    assert_eq!(end, ExecutionEnd::ProgramFinished(vec![]));
    assert_eq!(state.registers[2], U256::from_u64(1234));
    // Out-of-range code page constants read as zero.
    assert_eq!(state.registers[3], U256::zero());
}

#[test]
fn bitset_marks_individual_slots() {
    let mut b = Bitset::new();
    assert!(!b.get(1024));
    b.set(1024, true);
    b.set(65535, true);
    assert!(b.get(1024));
    assert!(b.get(65535));
    assert!(!b.get(1025));
    b.set(1024, false);
    assert!(!b.get(1024));
    assert!(b.get(65535));
}

#[test]
fn stack_destinations_carry_pointer_tags() {
    // Store the calldata pointer to the stack and load it back.
    let program = vec![
        Instruction::from_load_pointer(
            Source::Register(1),
            Destination::StackAbsolute(10),
            Predicate::Always,
        ),
        Instruction::from_load_pointer(
            Source::StackAbsolute(10),
            Destination::Register(6),
            Predicate::Always,
        ),
        end_execution(),
    ];
    let mut state = boot(program);
    let end = done(state.run());
    assert_eq!(end, ExecutionEnd::ProgramFinished(vec![]));
    let p = FatPointer::from_u256(state.registers[6]);
    assert_eq!(p.memory_page, 1);
    assert_eq!(p.length, 4);
}

#[test]
fn hook_store_suspends_and_resumes() {
    // r7 = a pointer value to the frame's own heap (page 2, offset 0);
    // storing through it at the configured hook address suspends the run.
    let program = vec![
        add_imm(2, 5),
        add_imm(32, 6),
        Instruction::from_binop(
            BinopKind::ShiftLeft,
            Source::Register(5),
            6,
            Destination::Register(7),
            0,
            Predicate::Always,
            false,
            false,
        ),
        Instruction::from_heap_store(Source::Register(7), 5, Predicate::Always),
        end_execution(),
    ];
    let mut state = boot(program);
    state.hook_address = Some(0);
    match state.run() {
        RunOutcome::Done(ExecutionEnd::SuspendedOnHook { hook, pc_to_resume_from }) => {
            assert_eq!(hook, 2);
            assert_eq!(pc_to_resume_from, 4);
        }
        other => panic!("expected a hook suspension, got {:?}", other),
    }
    // The store itself happened before the suspension.
    assert_eq!(state.heaps.pages[2][31], 2);
    let end = done(state.run_starting_from(4));
    assert_eq!(end, ExecutionEnd::ProgramFinished(vec![]));
}

#[test]
fn word_division_at_limb_boundary() {
    // 2^64 / 3 == 0x5555_5555_5555_5555 remainder 1.
    let a = U256 { limb0: 0, limb1: 1, limb2: 0, limb3: 0 };
    let three = U256::from_u64(3);
    let (q, r) = a.div_rem(three);
    assert_eq!(q, U256::from_u64(0x5555_5555_5555_5555));
    assert_eq!(r, U256::from_u64(1));
    // Addition carries across all four limbs.
    let max = U256 {
        limb0: u64::MAX,
        limb1: u64::MAX,
        limb2: u64::MAX,
        limb3: u64::MAX,
    };
    let (sum, carry) = max.add_with_carry(U256::from_u64(1));
    assert_eq!(sum, U256::zero());
    assert!(carry);
}

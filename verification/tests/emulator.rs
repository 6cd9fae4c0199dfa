//! End-to-end tests of the step driver: the halt protocol, load/store
//! round trips, dark writes, busy loops, permissive ecalls, default-zero
//! memory, traps, and trace replay.

use std::collections::HashSet;

use ceno_emul::{
    AddrRange, ByteAddr, InsnKind, Instruction, Platform, Program, SyscallEffects, TrapCause,
    VMError, VMState, WordAddr,
};

fn test_platform(unsafe_ecall_nop: bool) -> Platform {
    Platform {
        text: AddrRange { start: 0x1000, end: 0x2000 },
        stack: AddrRange { start: 0x8000, end: 0x9000 },
        heap: AddrRange { start: 0x4000, end: 0x5000 },
        hints: AddrRange { start: 0x6000, end: 0x7000 },
        public_io: AddrRange { start: 0x3000, end: 0x3800 },
        prog_data: HashSet::new(),
        unsafe_ecall_nop,
    }
}

fn insn(kind: InsnKind, rd: usize, rs1: usize, rs2: usize, imm: u32) -> Instruction {
    Instruction { kind, rd, rs1, rs2, imm }
}

fn program_at(entry: u32, instructions: Vec<Instruction>) -> Program {
    Program { entry, base_address: entry, instructions, image: Vec::new() }
}

fn halt_insns() -> Vec<Instruction> {
    vec![
        insn(InsnKind::Addi, 5, 0, 0, 0),  // t0 = ecall_halt code
        insn(InsnKind::Addi, 10, 0, 0, 0), // a0 = exit code 0
        insn(InsnKind::Ecall, 0, 0, 0, 0),
    ]
}

#[test]
fn halt_immediately() {
    let program = program_at(0x1000, halt_insns());
    let mut vm = VMState::new(test_platform(false), program);
    let records = vm.iter_until_halt().expect("run to halt");
    assert_eq!(records.len(), 3);
    assert!(vm.halted());
    assert_eq!(vm.peek_register(10), 0); // exit code
    assert_eq!(vm.tracer().cycle(), 3); // cycle count
    for (i, rec) in records.iter().enumerate() {
        assert_eq!(rec.cycle, i as u64);
    }
    // The two addi steps fall through by one instruction each.
    assert_eq!(records[0].pc_change.before, ByteAddr(0x1000));
    assert_eq!(records[0].pc_change.after, ByteAddr(0x1004));
    assert_eq!(records[1].pc_change.before, ByteAddr(0x1004));
    assert_eq!(records[1].pc_change.after, ByteAddr(0x1008));
    // The halt ecall parks the program counter at zero.
    assert_eq!(records[2].pc_change.before, ByteAddr(0x1008));
    assert_eq!(records[2].pc_change.after, ByteAddr(0));
    assert_eq!(records[2].fetched.unwrap().kind, InsnKind::Ecall);
}

#[test]
fn load_store_roundtrip() {
    let mut instructions = vec![
        insn(InsnKind::Addi, 2, 0, 0, 0xDEADBEEF), // x2 = value
        insn(InsnKind::Addi, 1, 0, 0, 0x4000),     // x1 = heap start
        insn(InsnKind::Sw, 0, 1, 2, 0),            // memory[x1] = x2
        insn(InsnKind::Lw, 3, 1, 0, 0),            // x3 = memory[x1]
    ];
    instructions.push(insn(InsnKind::Ecall, 0, 0, 0, 0));
    let program = program_at(0x1000, instructions);
    let mut vm = VMState::new(test_platform(false), program);
    let records = vm.iter_until_halt().expect("run to halt");
    assert_eq!(records.len(), 5);

    let store = &records[2];
    assert_eq!(store.memory_writes.len(), 1);
    let (wa, change) = store.memory_writes[0];
    assert_eq!(wa, WordAddr(0x4000 / 4));
    assert_eq!(change.before, 0);
    assert_eq!(change.after, 0xDEADBEEF);

    let load = &records[3];
    assert_eq!(load.memory_reads.len(), 1);
    assert_eq!(load.memory_reads[0], (WordAddr(0x4000 / 4), 0xDEADBEEF));
    assert_eq!(load.register_writes.len(), 1);
    let (rd, reg_change) = load.register_writes[0];
    assert_eq!(rd, 3);
    assert_eq!(reg_change.after, 0xDEADBEEF);

    assert_eq!(vm.peek_memory(WordAddr(0x4000 / 4)), 0xDEADBEEF);
    assert_eq!(vm.peek_register(3), 0xDEADBEEF);
}

#[test]
fn dark_write_to_x0() {
    let program = program_at(0x1000, vec![insn(InsnKind::Add, 0, 5, 6, 0)]);
    let mut vm = VMState::new(test_platform(false), program);
    vm.init_register_unsafe(5, 5); // t0
    vm.init_register_unsafe(6, 7); // t1
    let rec = vm.step().expect("one step");
    assert_eq!(rec.register_reads, vec![(5, 5), (6, 7)]);
    assert!(rec.register_writes.is_empty());
    assert_eq!(vm.peek_register(0), 0);
}

#[test]
fn busy_loop() {
    // An unconditional self-jump with no side effects: the finished step
    // changed nothing while the machine was not halted.
    let program = program_at(0x1000, vec![insn(InsnKind::Jal, 0, 0, 0, 0)]);
    let mut vm = VMState::new(test_platform(false), program);
    let r = vm.step();
    assert_eq!(r, Err(VMError::BusyLoop));
    assert!(!vm.halted());
}

#[test]
fn unknown_ecall_as_nop() {
    let program = program_at(0x1000, vec![insn(InsnKind::Ecall, 0, 0, 0, 0)]);
    let mut vm = VMState::new(test_platform(true), program);
    vm.init_register_unsafe(5, 0xDEAD); // unknown function code
    let rec = vm.step().expect("permissive nop step");
    assert!(rec.syscall.is_none());
    // A dark write to the sink register.
    assert_eq!(rec.register_writes.len(), 1);
    assert_eq!(rec.register_writes[0].0, 32);
    // A self-referential write of the top stack word.
    assert_eq!(rec.memory_writes.len(), 1);
    let (wa, change) = rec.memory_writes[0];
    assert_eq!(wa, WordAddr((0x9000 - 4) / 4));
    assert_eq!(change.before, change.after);
    // The program counter falls through.
    assert_eq!(rec.pc_change.before, ByteAddr(0x1000));
    assert_eq!(rec.pc_change.after, ByteAddr(0x1004));
    assert!(!vm.halted());
}

#[test]
fn memory_default_zero() {
    let mut instructions = vec![
        insn(InsnKind::Addi, 1, 0, 0, 0x4000),
        insn(InsnKind::Lw, 2, 1, 0, 0),
    ];
    instructions.push(insn(InsnKind::Ecall, 0, 0, 0, 0));
    let program = program_at(0x1000, instructions);
    let mut vm = VMState::new(test_platform(false), program);
    // An empty image: every address reads as zero.
    assert_eq!(vm.peek_memory(WordAddr(0)), 0);
    assert_eq!(vm.peek_memory(WordAddr(0x4000 / 4)), 0);
    assert_eq!(vm.peek_memory(WordAddr(0xFFFF_FFFF)), 0);
    let records = vm.iter_until_halt().expect("run to halt");
    // The first load from an uninitialized address records value zero.
    assert_eq!(records[1].memory_reads, vec![(WordAddr(0x4000 / 4), 0)]);
    assert_eq!(vm.peek_register(2), 0);
}

#[test]
fn image_is_copied_into_memory() {
    let mut program = program_at(0x1000, halt_insns());
    program.image = vec![(0x4000, 0xAB), (0x4004, 0xCD)];
    let vm = VMState::new(test_platform(false), program);
    assert_eq!(vm.peek_memory(WordAddr(0x4000 / 4)), 0xAB);
    assert_eq!(vm.peek_memory(WordAddr(0x4004 / 4)), 0xCD);
    assert_eq!(vm.peek_memory(WordAddr(0x4008 / 4)), 0);
}

#[test]
fn peeks_leave_no_trace() {
    let program = program_at(0x1000, vec![insn(InsnKind::Ecall, 0, 0, 0, 0)]);
    let mut vm = VMState::new(test_platform(false), program);
    // Peeks before the step must not show up in its record.
    assert_eq!(vm.peek_register(3), 0);
    assert_eq!(vm.peek_memory(WordAddr(0x2000)), 0);
    assert_eq!(vm.tracer().cycle(), 0);
    let rec = vm.step().expect("halt step");
    assert_eq!(rec.register_reads, vec![(5, 0), (10, 0)]);
    assert!(rec.memory_reads.is_empty());
}

#[test]
fn halted_only_by_halt_ecall() {
    let program = program_at(
        0x1000,
        vec![insn(InsnKind::Addi, 1, 0, 0, 7), insn(InsnKind::Ecall, 0, 0, 0, 0)],
    );
    let mut vm = VMState::new(test_platform(false), program);
    vm.step().expect("addi");
    assert!(!vm.halted());
    vm.step().expect("halt ecall");
    assert!(vm.halted());
}

#[test]
fn jal_links_and_jumps() {
    let program = program_at(
        0x1000,
        vec![
            insn(InsnKind::Jal, 1, 0, 0, 8),
            insn(InsnKind::Invalid, 0, 0, 0, 0),
            insn(InsnKind::Ecall, 0, 0, 0, 0),
        ],
    );
    let mut vm = VMState::new(test_platform(false), program);
    let rec = vm.step().expect("jal");
    assert_eq!(rec.pc_change.before, ByteAddr(0x1000));
    assert_eq!(rec.pc_change.after, ByteAddr(0x1008));
    assert_eq!(vm.peek_register(1), 0x1004);
    vm.step().expect("halt over the skipped word");
    assert!(vm.halted());
}

#[test]
fn branch_taken_and_not_taken() {
    let program = program_at(
        0x1000,
        vec![
            insn(InsnKind::Beq, 0, 0, 0, 8), // x0 == x0: skip the next word
            insn(InsnKind::Invalid, 0, 0, 0, 0),
            insn(InsnKind::Bne, 0, 0, 0, 8), // x0 != x0 is false: fall through
            insn(InsnKind::Ecall, 0, 0, 0, 0),
        ],
    );
    let mut vm = VMState::new(test_platform(false), program);
    let taken = vm.step().expect("beq taken");
    assert_eq!(taken.pc_change.after, ByteAddr(0x1008));
    let not_taken = vm.step().expect("bne not taken");
    assert_eq!(not_taken.pc_change.after, ByteAddr(0x100C));
    vm.step().expect("halt");
    assert!(vm.halted());
}

#[test]
fn sub_wraps() {
    let program = program_at(
        0x1000,
        vec![
            insn(InsnKind::Addi, 1, 0, 0, 3),
            insn(InsnKind::Addi, 2, 0, 0, 5),
            insn(InsnKind::Sub, 3, 1, 2, 0), // 3 - 5 wraps
            insn(InsnKind::Ecall, 0, 0, 0, 0),
        ],
    );
    let mut vm = VMState::new(test_platform(false), program);
    vm.iter_until_halt().expect("run to halt");
    assert_eq!(vm.peek_register(3), 0xFFFF_FFFE);
}

#[test]
fn trap_illegal_instruction() {
    let program = program_at(0x1000, vec![insn(InsnKind::Invalid, 0, 0, 0, 0xFFFF)]);
    let mut vm = VMState::new(test_platform(false), program);
    assert_eq!(
        vm.step(),
        Err(VMError::Trap(TrapCause::IllegalInstruction(0xFFFF)))
    );
}

#[test]
fn trap_fetch_out_of_range() {
    let program = program_at(0x1000, Vec::new());
    let mut vm = VMState::new(test_platform(false), program);
    assert_eq!(
        vm.step(),
        Err(VMError::Trap(TrapCause::InstructionAccessFault(ByteAddr(0x1000))))
    );
}

#[test]
fn trap_load_access_fault() {
    // Address 0 lies in no readable range.
    let program = program_at(0x1000, vec![insn(InsnKind::Lw, 2, 0, 0, 0)]);
    let mut vm = VMState::new(test_platform(false), program);
    assert_eq!(
        vm.step(),
        Err(VMError::Trap(TrapCause::LoadAccessFault(ByteAddr(0))))
    );
}

#[test]
fn trap_store_access_fault() {
    // The text range may be read but never written.
    let program = program_at(
        0x1000,
        vec![insn(InsnKind::Addi, 1, 0, 0, 0x1000), insn(InsnKind::Sw, 0, 1, 0, 0)],
    );
    let mut vm = VMState::new(test_platform(false), program);
    vm.step().expect("addi");
    assert_eq!(
        vm.step(),
        Err(VMError::Trap(TrapCause::StoreAccessFault(ByteAddr(0x1000))))
    );
}

#[test]
fn trap_load_misaligned() {
    let program = program_at(0x1000, vec![insn(InsnKind::Lw, 2, 0, 0, 0x4001)]);
    let mut vm = VMState::new(test_platform(false), program);
    assert_eq!(
        vm.step(),
        Err(VMError::Trap(TrapCause::LoadAddressMisaligned(ByteAddr(0x4001))))
    );
}

#[test]
fn trap_store_misaligned() {
    let program = program_at(0x1000, vec![insn(InsnKind::Sw, 0, 0, 0, 0x4002)]);
    let mut vm = VMState::new(test_platform(false), program);
    assert_eq!(
        vm.step(),
        Err(VMError::Trap(TrapCause::StoreAddressMisaligned(ByteAddr(0x4002))))
    );
}

#[test]
fn trap_unknown_ecall_strict() {
    let program = program_at(0x1000, vec![insn(InsnKind::Ecall, 0, 0, 0, 0)]);
    let mut vm = VMState::new(test_platform(false), program);
    vm.init_register_unsafe(5, 7); // unknown function code, permissive off
    assert_eq!(vm.step(), Err(VMError::Trap(TrapCause::EcallError)));
    assert!(!vm.halted());
}

#[test]
fn halted_machine_yields_no_more_steps() {
    let program = program_at(0x1000, halt_insns());
    let mut vm = VMState::new(test_platform(false), program);
    vm.iter_until_halt().expect("run to halt");
    assert!(vm.halted());
    let again = vm.iter_until_halt().expect("already halted");
    assert!(again.is_empty());
    assert_eq!(vm.tracer().cycle(), 3);
}

#[test]
fn syscall_step_applies_effects_atomically() {
    let program = program_at(
        0x1000,
        vec![insn(InsnKind::Ecall, 0, 0, 0, 0), insn(InsnKind::Ecall, 0, 0, 0, 0)],
    );
    let mut vm = VMState::new(test_platform(false), program);
    vm.init_register_unsafe(5, 0x200); // a handler-dispatched function code
    let effects = SyscallEffects {
        mem_values: vec![(WordAddr(0x4000 / 4), 0xABCD)],
        reg_values: vec![(11, 42)],
        next_pc: None,
        witness: vec![7],
    };
    let rec = vm.step_with_syscall(Ok(effects.clone())).expect("handled ecall");
    // The bundle itself is the trace artifact: no individual change pairs.
    assert_eq!(rec.syscall, Some(effects));
    assert!(rec.register_writes.is_empty());
    assert!(rec.memory_writes.is_empty());
    assert_eq!(rec.register_reads, vec![(5, 0x200)]);
    assert_eq!(rec.fetched.unwrap().kind, InsnKind::Ecall);
    // The effects landed, and the program counter fell through.
    assert_eq!(vm.peek_memory(WordAddr(0x4000 / 4)), 0xABCD);
    assert_eq!(vm.peek_register(11), 42);
    assert_eq!(rec.pc_change.before, ByteAddr(0x1000));
    assert_eq!(rec.pc_change.after, ByteAddr(0x1004));
    assert!(!vm.halted());
    assert_eq!(vm.tracer().cycle(), 1);
}

#[test]
fn syscall_step_with_next_pc_override() {
    let program = program_at(0x1000, vec![insn(InsnKind::Ecall, 0, 0, 0, 0)]);
    let mut vm = VMState::new(test_platform(false), program);
    vm.init_register_unsafe(5, 0x200);
    let effects = SyscallEffects {
        mem_values: Vec::new(),
        reg_values: Vec::new(),
        next_pc: Some(0x2000),
        witness: Vec::new(),
    };
    let rec = vm.step_with_syscall(Ok(effects)).expect("handled ecall");
    assert_eq!(rec.pc_change.after, ByteAddr(0x2000));
}

#[test]
fn syscall_step_falls_back_without_handler() {
    let program = program_at(
        0x1000,
        vec![insn(InsnKind::Addi, 1, 0, 0, 7), insn(InsnKind::Ecall, 0, 0, 0, 0)],
    );
    let mut vm = VMState::new(test_platform(false), program);
    // A non-ecall instruction ignores the outcome entirely.
    let effects = SyscallEffects {
        mem_values: Vec::new(),
        reg_values: Vec::new(),
        next_pc: None,
        witness: Vec::new(),
    };
    let rec = vm.step_with_syscall(Ok(effects)).expect("plain addi");
    assert!(rec.syscall.is_none());
    assert_eq!(vm.peek_register(1), 7);
    // A failed handler on a non-halt code traps as usual in strict mode.
    vm.init_register_unsafe(5, 0x200);
    assert_eq!(
        vm.step_with_syscall(Err(())),
        Err(VMError::Trap(TrapCause::EcallError))
    );
}

#[test]
fn image_addresses_cover_the_image() {
    let mut program = program_at(0x1000, halt_insns());
    program.image = vec![(0x4000, 0xAB), (0x4004, 0xCD)];
    let covered = program.image_addresses();
    assert!(covered.contains(&0x4000));
    assert!(covered.contains(&0x4004));
    assert!(!covered.contains(&0x4008));
    assert_eq!(covered.len(), 2);
}

#[test]
fn replay_reproduces_final_state() {
    // Replaying the recorded writes against a fresh machine built from the
    // same program reproduces the final registers and memory.
    let mut instructions = vec![
        insn(InsnKind::Addi, 2, 0, 0, 0xDEADBEEF),
        insn(InsnKind::Addi, 1, 0, 0, 0x4000),
        insn(InsnKind::Sw, 0, 1, 2, 0),
        insn(InsnKind::Lw, 3, 1, 0, 0),
        insn(InsnKind::Addi, 4, 3, 0, 1),
    ];
    instructions.push(insn(InsnKind::Ecall, 0, 0, 0, 0));
    let program = program_at(0x1000, instructions);
    let mut vm = VMState::new(test_platform(false), program);
    let records = vm.iter_until_halt().expect("run to halt");

    let replay_program = program_at(
        0x1000,
        vec![
            insn(InsnKind::Addi, 2, 0, 0, 0xDEADBEEF),
            insn(InsnKind::Addi, 1, 0, 0, 0x4000),
            insn(InsnKind::Sw, 0, 1, 2, 0),
            insn(InsnKind::Lw, 3, 1, 0, 0),
            insn(InsnKind::Addi, 4, 3, 0, 1),
            insn(InsnKind::Ecall, 0, 0, 0, 0),
        ],
    );
    let mut replayed = VMState::new(test_platform(false), replay_program);
    let mut touched: Vec<WordAddr> = Vec::new();
    for rec in &records {
        for &(idx, change) in &rec.register_writes {
            replayed.init_register_unsafe(idx, change.after);
        }
        for &(wa, change) in &rec.memory_writes {
            replayed.init_memory(wa, change.after);
            touched.push(wa);
        }
    }
    for idx in 0..33 {
        assert_eq!(replayed.peek_register(idx), vm.peek_register(idx));
    }
    for wa in touched {
        assert_eq!(replayed.peek_memory(wa), vm.peek_memory(wa));
    }
}

//! Unit tests of the addressing primitives, the platform predicates, the
//! tracer, the syscall protocol, and the table descriptors.

use std::collections::HashSet;

use ceno_emul::{
    AddrRange, ByteAddr, Change, DynMemTable, DynVolatileRamTable, HintsTable, InsnKind,
    Instruction, NonVolatileTable, OpsTable, Platform, Program, ProgramParams, PubIOTable,
    RAMType, ROMType, RegTable, StaticMemTable, SyscallEffects, Tracer, VMState, WordAddr,
    UINT_LIMBS,
};

fn test_platform() -> Platform {
    Platform {
        text: AddrRange { start: 0x1000, end: 0x2000 },
        stack: AddrRange { start: 0x8000, end: 0x9000 },
        heap: AddrRange { start: 0x4000, end: 0x5000 },
        hints: AddrRange { start: 0x6000, end: 0x7000 },
        public_io: AddrRange { start: 0x3000, end: 0x3800 },
        prog_data: HashSet::new(),
        unsafe_ecall_nop: false,
    }
}

fn test_params() -> ProgramParams {
    ProgramParams {
        platform: test_platform(),
        program_size: 0x100,
        static_memory_len: 0x200,
        pubio_len: 0x10,
    }
}

#[test]
fn byte_and_word_addresses() {
    assert_eq!(ByteAddr(0x1004).waddr(), WordAddr(0x401));
    assert_eq!(ByteAddr(0x1007).waddr(), WordAddr(0x401));
    assert_eq!(WordAddr(0x401).baddr(), ByteAddr(0x1004));
    assert!(ByteAddr(0x1004).is_aligned());
    assert!(!ByteAddr(0x1005).is_aligned());
}

#[test]
fn platform_permissions() {
    let mut platform = test_platform();
    platform.prog_data.insert(0x2100);
    // Readable: every named range plus the program data.
    assert!(platform.can_read(0x1000)); // text
    assert!(platform.can_read(0x8FFC)); // stack
    assert!(platform.can_read(0x4000)); // heap
    assert!(platform.can_read(0x6000)); // hints
    assert!(platform.can_read(0x3000)); // public I/O
    assert!(platform.can_read(0x2100)); // program data
    assert!(!platform.can_read(0x0));
    assert!(!platform.can_read(0x2000)); // one past text
    // Writable: readable minus text and public I/O.
    assert!(platform.can_write(0x8000));
    assert!(platform.can_write(0x4FFC));
    assert!(platform.can_write(0x2100));
    assert!(!platform.can_write(0x1000));
    assert!(!platform.can_write(0x3000));
    assert!(!platform.can_write(0x0));
}

#[test]
fn syscall_convention() {
    assert_eq!(Platform::reg_ecall(), 5);
    assert_eq!(Platform::reg_arg0(), 10);
    assert_eq!(Platform::ecall_halt(), 0);
}

#[test]
fn tracer_collects_and_resets() {
    let mut tracer = Tracer::new();
    assert_eq!(tracer.cycle(), 0);
    let fetched = Instruction { kind: InsnKind::Addi, rd: 1, rs1: 0, rs2: 0, imm: 7 };
    tracer.fetch(WordAddr(0x400), fetched);
    tracer.load_register(0, 0);
    tracer.store_register(1, Change { before: 0, after: 7 });
    tracer.store_pc(ByteAddr(0x1004));
    let rec = tracer.advance();
    assert_eq!(rec.cycle, 0);
    assert_eq!(rec.pc_change.before, ByteAddr(0x1000));
    assert_eq!(rec.pc_change.after, ByteAddr(0x1004));
    assert_eq!(rec.fetched, Some(fetched));
    assert_eq!(rec.register_reads, vec![(0, 0)]);
    assert_eq!(rec.register_writes, vec![(1, Change { before: 0, after: 7 })]);
    assert!(!rec.is_busy_loop());
    assert_eq!(tracer.cycle(), 1);
    // The buffer was cleared for the next instruction.
    let next = tracer.advance();
    assert_eq!(next.cycle, 1);
    assert!(next.fetched.is_none());
    assert!(next.register_reads.is_empty());
}

#[test]
fn busy_loop_record_shape() {
    let mut tracer = Tracer::new();
    let fetched = Instruction { kind: InsnKind::Jal, rd: 0, rs1: 0, rs2: 0, imm: 0 };
    tracer.fetch(WordAddr(0x400), fetched);
    tracer.store_pc(ByteAddr(0x1000));
    let rec = tracer.advance();
    assert!(rec.is_busy_loop());
}

#[test]
fn syscall_record_has_no_individual_writes() {
    let mut tracer = Tracer::new();
    let fetched = Instruction { kind: InsnKind::Ecall, rd: 0, rs1: 0, rs2: 0, imm: 0 };
    tracer.fetch(WordAddr(0x400), fetched);
    let effects = SyscallEffects {
        mem_values: vec![(WordAddr(0x1000), 7)],
        reg_values: vec![(1, 9)],
        next_pc: Some(0x2000),
        witness: vec![0xAB],
    };
    tracer.track_syscall(effects.clone());
    let rec = tracer.advance();
    assert_eq!(rec.syscall, Some(effects));
    assert!(rec.register_writes.is_empty());
    assert!(rec.memory_writes.is_empty());
}

#[test]
fn apply_syscall_updates_state_atomically() {
    let program = Program {
        entry: 0x1000,
        base_address: 0x1000,
        instructions: Vec::new(),
        image: Vec::new(),
    };
    let mut vm = VMState::new(test_platform(), program);
    let effects = SyscallEffects {
        mem_values: vec![(WordAddr(0x1000), 7), (WordAddr(0x1001), 8)],
        reg_values: vec![(1, 9), (2, 11)],
        next_pc: Some(0x2000),
        witness: Vec::new(),
    };
    vm.apply_syscall(effects).expect("apply");
    assert_eq!(vm.peek_memory(WordAddr(0x1000)), 7);
    assert_eq!(vm.peek_memory(WordAddr(0x1001)), 8);
    assert_eq!(vm.peek_register(1), 9);
    assert_eq!(vm.peek_register(2), 11);
    assert_eq!(vm.peek_register(0), 0);
    assert_eq!(vm.get_pc(), ByteAddr(0x2000));
}

#[test]
fn apply_syscall_falls_through_without_next_pc() {
    let program = Program {
        entry: 0x1000,
        base_address: 0x1000,
        instructions: Vec::new(),
        image: Vec::new(),
    };
    let mut vm = VMState::new(test_platform(), program);
    let effects = SyscallEffects {
        mem_values: Vec::new(),
        reg_values: Vec::new(),
        next_pc: None,
        witness: Vec::new(),
    };
    vm.apply_syscall(effects).expect("apply");
    assert_eq!(vm.get_pc(), ByteAddr(0x1004));
}

struct AndTable;

impl OpsTable for AndTable {
    fn rom_type() -> ROMType {
        ROMType::And
    }

    fn len() -> usize {
        1 << 16
    }

    fn content() -> Vec<[u64; 3]> {
        let mut rows = Vec::new();
        for i in 0..Self::len() as u64 {
            let (a, b) = Self::unpack(i);
            rows.push([a, b, a & b]);
        }
        rows
    }
}

#[test]
fn ops_pack_unpack() {
    assert_eq!(AndTable::pack(0, 0), 0);
    assert_eq!(AndTable::pack(0xAB, 0xCD), 0xCDAB);
    assert_eq!(AndTable::unpack(0xCDAB), (0xAB, 0xCD));
    // The round trip holds across the byte range.
    for a in [0u64, 1, 0x7F, 0xFF] {
        for b in [0u64, 1, 0x80, 0xFF] {
            assert_eq!(AndTable::unpack(AndTable::pack(a, b)), (a, b));
        }
    }
    assert_eq!(AndTable::rom_type(), ROMType::And);
    let rows = AndTable::content();
    assert_eq!(rows.len(), 1 << 16);
    assert_eq!(rows[0xCDAB], [0xAB, 0xCD, 0xAB & 0xCD]);
}

#[test]
fn next_power_of_two_values() {
    assert_eq!(ceno_emul::tables::next_power_of_two(0), 1);
    assert_eq!(ceno_emul::tables::next_power_of_two(1), 1);
    assert_eq!(ceno_emul::tables::next_power_of_two(2), 2);
    assert_eq!(ceno_emul::tables::next_power_of_two(3), 4);
    assert_eq!(ceno_emul::tables::next_power_of_two(5), 8);
    assert_eq!(ceno_emul::tables::next_power_of_two(64), 64);
    assert_eq!(ceno_emul::tables::next_power_of_two(65), 128);
}

#[test]
fn register_table_descriptor() {
    let params = test_params();
    // 33 registers rounded up to the next power of two.
    assert_eq!(RegTable::len(&params), 64);
    assert_eq!(RegTable::ram_type(), RAMType::Register);
    assert_eq!(RegTable::v_limbs(), UINT_LIMBS);
    assert!(RegTable::writable());
    assert_eq!(RegTable::name(), "RegTable");
}

#[test]
fn memory_table_descriptors() {
    let params = test_params();
    assert_eq!(StaticMemTable::len(&params), 0x200);
    assert_eq!(StaticMemTable::ram_type(), RAMType::Memory);
    assert!(StaticMemTable::writable());
    assert_eq!(StaticMemTable::name(), "StaticMemTable");

    assert_eq!(PubIOTable::len(&params), 0x10);
    assert!(!PubIOTable::writable());
    assert_eq!(PubIOTable::name(), "PubIOTable");

    assert_eq!(DynMemTable::offset_addr(&params), 0x4000);
    assert_eq!(DynMemTable::end_addr(&params), 0x5000);
    assert!(DynMemTable::zero_init());
    assert_eq!(DynMemTable::v_limbs(), 1);
    assert_eq!(DynMemTable::name(), "DynMemTable");

    assert_eq!(HintsTable::offset_addr(&params), 0x6000);
    assert_eq!(HintsTable::end_addr(&params), 0x7000);
    assert!(!HintsTable::zero_init());
    assert_eq!(HintsTable::name(), "HintsTable");
}

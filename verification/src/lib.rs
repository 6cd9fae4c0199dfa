//! A deterministic RV32IM instruction-stepping emulator core that produces,
//! for every executed instruction, a structured trace record suitable for a
//! downstream proving layer.
//!
//! A loaded [`program::Program`] and a [`platform::Platform`] descriptor give
//! a [`vm_state::VMState`], which is advanced one instruction at a time until
//! a halt syscall fires. Every read and write of a register, a memory word,
//! or the fetched instruction is recorded by the [`tracer::Tracer`] with
//! before/after values, so that a verifier can replay the step.

pub mod addr;
pub mod ops;
pub mod platform;
pub mod program;
pub mod rv32im;
pub mod tables;
pub mod tracer;
pub mod vm_state;

pub use addr::{ByteAddr, RegIdx, Word, WordAddr, PC_STEP_SIZE, WORD_SIZE};
pub use ops::{OpsTable, OpsTableCircuit, ROMType};
pub use platform::{AddrRange, Platform};
pub use program::Program;
pub use rv32im::{InsnKind, Instruction, TrapCause, RD_NULL};
pub use tables::{
    DynMemTable, DynVolatileRamTable, HintsTable, NonVolatileTable, ProgramParams, PubIOTable,
    RAMType, RegTable, StaticMemTable, UINT_LIMBS,
};
pub use tracer::{Change, StepRecord, StepRecordView, SyscallEffects, SyscallEffectsView, Tracer};
pub use vm_state::{
    lemma_replay_run, recs_models, replay_mem, replay_regs, run_from, view_step, RunResult,
    StepView, VMError, VMState, VMView,
};

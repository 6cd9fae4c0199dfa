//! Decoded instructions and trap causes.
//!
//! Decoding raw RV32IM words is the concern of an external loader; the core
//! works on already-decoded instructions. The subset modelled here is what
//! the step driver distinguishes: register arithmetic, word loads and
//! stores, jumps and branches, and the environment call.

use vstd::prelude::*;
use crate::addr::{wadd, wsub, ByteAddr, Word};

verus! {

/// The operation a decoded instruction performs.
#[derive(Clone, Copy, Debug, PartialEq, Eq, Structural)]
pub enum InsnKind {
    /// `rd = rs1 + rs2`, wrapping.
    Add,
    /// `rd = rs1 - rs2`, wrapping.
    Sub,
    /// `rd = rs1 + imm`, wrapping.
    Addi,
    /// `rd = memory[rs1 + imm]`.
    Lw,
    /// `memory[rs1 + imm] = rs2`.
    Sw,
    /// `rd = pc + 4; pc = pc + imm`.
    Jal,
    /// `pc = pc + (rs1 == rs2 ? imm : 4)`.
    Beq,
    /// `pc = pc + (rs1 != rs2 ? imm : 4)`.
    Bne,
    /// Environment call: dispatch on the function code in `reg_ecall`.
    Ecall,
    /// A word the decoder rejected; `imm` carries the raw bits.
    Invalid,
}

/// One decoded instruction. Immediates are held as 32-bit two's-complement
/// words; all address and value arithmetic wraps modulo 2^32.
#[derive(Clone, Copy, Debug, PartialEq, Eq, Structural)]
pub struct Instruction {
    pub kind: InsnKind,
    pub rd: usize,
    pub rs1: usize,
    pub rs2: usize,
    pub imm: u32,
}

/// The register index used as a sink for dark writes to x0.
pub const RD_NULL: usize = 32;

impl Instruction {
    /// A well-formed decoded instruction: register fields name architectural
    /// registers, and control-flow displacements keep the program counter
    /// word-aligned.
    pub open spec fn wf(self) -> bool {
        &&& self.rd < 32
        &&& self.rs1 < 32
        &&& self.rs2 < 32
        &&& (self.kind == InsnKind::Jal || self.kind == InsnKind::Beq || self.kind
            == InsnKind::Bne ==> self.imm % 4 == 0)
    }
}

/// Why a step ended in a fatal trap.
#[derive(Clone, Copy, Debug, PartialEq, Eq, Structural)]
pub enum TrapCause {
    /// The fetched word was rejected by the decoder; carries the raw bits.
    IllegalInstruction(u32),
    /// The program counter left the program's instruction range.
    InstructionAccessFault(ByteAddr),
    /// A data load from an address the platform refuses to read.
    LoadAccessFault(ByteAddr),
    /// A data store to an address the platform refuses to write.
    StoreAccessFault(ByteAddr),
    /// A word load from an address that is not word-aligned.
    LoadAddressMisaligned(ByteAddr),
    /// A word store to an address that is not word-aligned.
    StoreAddressMisaligned(ByteAddr),
    /// The syscall handler failed and permissive mode is off.
    EcallError,
}

/// The value an arithmetic instruction computes from its two operands.
pub open spec fn alu_result(kind: InsnKind, a: Word, b: Word) -> Word {
    match kind {
        InsnKind::Add => wadd(a, b),
        InsnKind::Sub => wsub(a, b),
        InsnKind::Addi => wadd(a, b),
        _ => 0,
    }
}

/// Wrapping addition of two word-aligned values stays word-aligned.
pub proof fn lemma_wadd_aligned(a: u32, b: u32)
    requires
        a % 4 == 0,
        b % 4 == 0,
    ensures
        wadd(a, b) % 4 == 0,
{
    if a + b > u32::MAX {
        assert((a + b - 0x1_0000_0000) % 4 == 0);
    }
}

} // verus!

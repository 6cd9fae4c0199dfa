//! The platform descriptor: address ranges, access permissions, and the
//! syscall convention.

use vstd::prelude::*;
use crate::addr::{RegIdx, Word};

verus! {

broadcast use vstd::std_specs::hash::group_hash_axioms;

/// A half-open range of byte addresses, `[start, end)`.
#[derive(Clone, Copy, Debug, PartialEq, Eq, Structural)]
pub struct AddrRange {
    pub start: u32,
    pub end: u32,
}

impl AddrRange {
    pub open spec fn spec_contains(&self, a: u32) -> bool {
        self.start <= a < self.end
    }

    #[verifier::when_used_as_spec(spec_contains)]
    pub fn contains(&self, a: u32) -> (r: bool)
        ensures
            r == self.spec_contains(a),
    {
        self.start <= a && a < self.end
    }
}

/// Address ranges and syscall conventions of the machine being emulated.
/// Immutable after construction.
pub struct Platform {
    pub text: AddrRange,
    pub stack: AddrRange,
    pub heap: AddrRange,
    pub hints: AddrRange,
    pub public_io: AddrRange,
    /// Byte addresses covered by the program image.
    pub prog_data: std::collections::HashSet<u32>,
    /// When true, an ecall whose handler fails is treated as a permissive
    /// nop instead of a fatal trap. Development only.
    pub unsafe_ecall_nop: bool,
}

impl Platform {
    /// The register holding the syscall function code (x5 / t0).
    pub open spec fn spec_reg_ecall() -> RegIdx {
        5
    }

    #[verifier::when_used_as_spec(spec_reg_ecall)]
    pub fn reg_ecall() -> (r: RegIdx)
        ensures
            r == Self::spec_reg_ecall(),
    {
        5
    }

    /// The register holding the first syscall argument (x10 / a0).
    pub open spec fn spec_reg_arg0() -> RegIdx {
        10
    }

    #[verifier::when_used_as_spec(spec_reg_arg0)]
    pub fn reg_arg0() -> (r: RegIdx)
        ensures
            r == Self::spec_reg_arg0(),
    {
        10
    }

    /// The function code that requests termination.
    pub open spec fn spec_ecall_halt() -> Word {
        0
    }

    #[verifier::when_used_as_spec(spec_ecall_halt)]
    pub fn ecall_halt() -> (r: Word)
        ensures
            r == Self::spec_ecall_halt(),
    {
        0
    }

    /// A data address may be read when it lies in the text, stack, heap,
    /// hints, or public-I/O range, or is covered by the program image.
    pub open spec fn spec_can_read(&self, addr: u32) -> bool {
        ||| self.text.spec_contains(addr)
        ||| self.stack.spec_contains(addr)
        ||| self.heap.spec_contains(addr)
        ||| self.hints.spec_contains(addr)
        ||| self.public_io.spec_contains(addr)
        ||| self.prog_data@.contains(addr)
    }

    #[verifier::when_used_as_spec(spec_can_read)]
    pub fn can_read(&self, addr: u32) -> (r: bool)
        ensures
            r == self.spec_can_read(addr),
    {
        self.text.contains(addr) || self.stack.contains(addr) || self.heap.contains(addr)
            || self.hints.contains(addr) || self.public_io.contains(addr)
            || self.prog_data.contains(&addr)
    }

    /// A data address may be written when it is readable, excluding the text
    /// and public-I/O ranges.
    pub open spec fn spec_can_write(&self, addr: u32) -> bool {
        &&& self.spec_can_read(addr)
        &&& !self.text.spec_contains(addr)
        &&& !self.public_io.spec_contains(addr)
    }

    #[verifier::when_used_as_spec(spec_can_write)]
    pub fn can_write(&self, addr: u32) -> (r: bool)
        ensures
            r == self.spec_can_write(addr),
    {
        self.can_read(addr) && !self.text.contains(addr) && !self.public_io.contains(addr)
    }
}

} // verus!

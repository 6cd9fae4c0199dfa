//! Read-only table descriptors for the downstream proving layer.
//!
//! Each adapter describes one addressed region of the final machine state —
//! the register file, static memory, public I/O, heap, hints — by its
//! range, its writability, and the number of field limbs a value decomposes
//! into. The adapters are pure descriptors: they store no data themselves;
//! the step trace combined with these descriptors lets a downstream builder
//! synthesize the initial and final records of every region.

use vstd::prelude::*;
use crate::addr::Word;
use crate::platform::Platform;
use crate::vm_state::VMState;

verus! {

/// How many field limbs a register value decomposes into downstream.
pub const UINT_LIMBS: usize = 2;

/// The kind of addressed resource a table describes.
#[derive(Clone, Copy, Debug, PartialEq, Eq, Structural)]
pub enum RAMType {
    /// Word-addressed memory.
    Memory,
    /// The register file.
    Register,
}

/// The parameters a table is instantiated with: the platform's address
/// ranges and the fixed region sizes.
pub struct ProgramParams {
    pub platform: Platform,
    pub program_size: usize,
    pub static_memory_len: usize,
    pub pubio_len: usize,
}

/// The smallest power of two that is at least `n` (and at least 1).
pub open spec fn next_pow2(n: nat) -> nat
    decreases n,
{
    if n <= 1 {
        1
    } else {
        2 * next_pow2((n + 1) / 2)
    }
}

/// `next_pow2` dominates its argument and less than doubles it.
pub proof fn lemma_next_pow2_bounds(n: nat)
    ensures
        1 <= next_pow2(n),
        n <= next_pow2(n),
        n >= 2 ==> next_pow2(n) <= 2 * n - 2,
    decreases n,
{
    if n > 1 {
        lemma_next_pow2_bounds((n + 1) / 2);
    }
}

/// Round `n` up to the next power of two.
pub fn next_power_of_two(n: usize) -> (r: usize)
    requires
        n <= 0x4000_0000,
    ensures
        r == next_pow2(n as nat),
    decreases n,
{
    if n <= 1 {
        1
    } else {
        proof {
            lemma_next_pow2_bounds(((n + 1) / 2) as nat);
        }
        let half = next_power_of_two((n + 1) / 2);
        2 * half
    }
}

/// A fixed-size, possibly writable region: the register file, static
/// memory, or the public I/O window.
pub trait NonVolatileTable {
    spec fn spec_ram_type() -> RAMType;

    spec fn spec_v_limbs() -> usize;

    spec fn spec_writable() -> bool;

    spec fn spec_name() -> Seq<char>;

    spec fn spec_len(params: ProgramParams) -> usize;

    /// The kind of resource described.
    fn ram_type() -> (r: RAMType)
        ensures
            r == Self::spec_ram_type(),
    ;

    /// How many field limbs each value decomposes into.
    fn v_limbs() -> (r: usize)
        ensures
            r == Self::spec_v_limbs(),
    ;

    /// Whether the region may be written during execution.
    fn writable() -> (r: bool)
        ensures
            r == Self::spec_writable(),
    ;

    /// The table's label.
    fn name() -> (r: &'static str)
        ensures
            r@ == Self::spec_name(),
    ;

    /// The element count of the region.
    fn len(params: &ProgramParams) -> (r: usize)
        ensures
            r == Self::spec_len(*params),
    ;
}

/// A ranged region whose bounds come from the platform and whose initial
/// contents may or may not be zero: the heap or the hints window.
pub trait DynVolatileRamTable {
    spec fn spec_ram_type() -> RAMType;

    spec fn spec_v_limbs() -> usize;

    spec fn spec_zero_init() -> bool;

    spec fn spec_name() -> Seq<char>;

    spec fn spec_offset_addr(params: ProgramParams) -> Word;

    spec fn spec_end_addr(params: ProgramParams) -> Word;

    /// The kind of resource described.
    fn ram_type() -> (r: RAMType)
        ensures
            r == Self::spec_ram_type(),
    ;

    /// How many field limbs each value decomposes into.
    fn v_limbs() -> (r: usize)
        ensures
            r == Self::spec_v_limbs(),
    ;

    /// Whether the region starts zeroed.
    fn zero_init() -> (r: bool)
        ensures
            r == Self::spec_zero_init(),
    ;

    /// The table's label.
    fn name() -> (r: &'static str)
        ensures
            r@ == Self::spec_name(),
    ;

    /// The first byte address of the region.
    fn offset_addr(params: &ProgramParams) -> (r: Word)
        ensures
            r == Self::spec_offset_addr(*params),
    ;

    /// One past the last byte address of the region.
    fn end_addr(params: &ProgramParams) -> (r: Word)
        ensures
            r == Self::spec_end_addr(*params),
    ;
}

/// The heap: dynamic memory, zero-initialized.
pub struct DynMemTable;

impl DynVolatileRamTable for DynMemTable {
    open spec fn spec_ram_type() -> RAMType {
        RAMType::Memory
    }

    open spec fn spec_v_limbs() -> usize {
        1
    }

    open spec fn spec_zero_init() -> bool {
        true
    }

    open spec fn spec_name() -> Seq<char> {
        "DynMemTable"@
    }

    open spec fn spec_offset_addr(params: ProgramParams) -> Word {
        params.platform.heap.start
    }

    open spec fn spec_end_addr(params: ProgramParams) -> Word {
        params.platform.heap.end
    }

    fn ram_type() -> RAMType {
        RAMType::Memory
    }

    fn v_limbs() -> usize {
        1
    }

    fn zero_init() -> bool {
        true
    }

    fn name() -> &'static str {
        "DynMemTable"
    }

    fn offset_addr(params: &ProgramParams) -> Word {
        params.platform.heap.start
    }

    fn end_addr(params: &ProgramParams) -> Word {
        params.platform.heap.end
    }
}

/// The hints window: dynamic memory whose initial contents are arbitrary.
pub struct HintsTable;

impl DynVolatileRamTable for HintsTable {
    open spec fn spec_ram_type() -> RAMType {
        RAMType::Memory
    }

    open spec fn spec_v_limbs() -> usize {
        1
    }

    open spec fn spec_zero_init() -> bool {
        false
    }

    open spec fn spec_name() -> Seq<char> {
        "HintsTable"@
    }

    open spec fn spec_offset_addr(params: ProgramParams) -> Word {
        params.platform.hints.start
    }

    open spec fn spec_end_addr(params: ProgramParams) -> Word {
        params.platform.hints.end
    }

    fn ram_type() -> RAMType {
        RAMType::Memory
    }

    fn v_limbs() -> usize {
        1
    }

    fn zero_init() -> bool {
        false
    }

    fn name() -> &'static str {
        "HintsTable"
    }

    fn offset_addr(params: &ProgramParams) -> Word {
        params.platform.hints.start
    }

    fn end_addr(params: &ProgramParams) -> Word {
        params.platform.hints.end
    }
}

/// The register file: fixed size, writable, with the element count rounded
/// up to a power of two.
pub struct RegTable;

impl NonVolatileTable for RegTable {
    open spec fn spec_ram_type() -> RAMType {
        RAMType::Register
    }

    open spec fn spec_v_limbs() -> usize {
        UINT_LIMBS as usize
    }

    open spec fn spec_writable() -> bool {
        true
    }

    open spec fn spec_name() -> Seq<char> {
        "RegTable"@
    }

    open spec fn spec_len(params: ProgramParams) -> usize {
        64
    }

    fn ram_type() -> RAMType {
        RAMType::Register
    }

    fn v_limbs() -> usize {
        UINT_LIMBS
    }

    fn writable() -> bool {
        true
    }

    fn name() -> &'static str {
        "RegTable"
    }

    fn len(_params: &ProgramParams) -> usize {
        let r = next_power_of_two(VMState::REG_COUNT);
        proof {
            assert(next_pow2(1) == 1);
            assert(next_pow2(2) == 2);
            assert(next_pow2(3) == 4);
            assert(next_pow2(5) == 8);
            assert(next_pow2(9) == 16);
            assert(next_pow2(17) == 32);
            assert(next_pow2(33) == 64);
        }
        r
    }
}

/// Static memory: fixed size, writable.
pub struct StaticMemTable;

impl NonVolatileTable for StaticMemTable {
    open spec fn spec_ram_type() -> RAMType {
        RAMType::Memory
    }

    open spec fn spec_v_limbs() -> usize {
        1
    }

    open spec fn spec_writable() -> bool {
        true
    }

    open spec fn spec_name() -> Seq<char> {
        "StaticMemTable"@
    }

    open spec fn spec_len(params: ProgramParams) -> usize {
        params.static_memory_len
    }

    fn ram_type() -> RAMType {
        RAMType::Memory
    }

    fn v_limbs() -> usize {
        1
    }

    fn writable() -> bool {
        true
    }

    fn name() -> &'static str {
        "StaticMemTable"
    }

    fn len(params: &ProgramParams) -> usize {
        params.static_memory_len
    }
}

/// The public I/O window: fixed size, read-only.
pub struct PubIOTable;

impl NonVolatileTable for PubIOTable {
    open spec fn spec_ram_type() -> RAMType {
        RAMType::Memory
    }

    open spec fn spec_v_limbs() -> usize {
        1
    }

    open spec fn spec_writable() -> bool {
        false
    }

    open spec fn spec_name() -> Seq<char> {
        "PubIOTable"@
    }

    open spec fn spec_len(params: ProgramParams) -> usize {
        params.pubio_len
    }

    fn ram_type() -> RAMType {
        RAMType::Memory
    }

    fn v_limbs() -> usize {
        1
    }

    fn writable() -> bool {
        false
    }

    fn name() -> &'static str {
        "PubIOTable"
    }

    fn len(params: &ProgramParams) -> usize {
        params.pubio_len
    }
}

} // verus!

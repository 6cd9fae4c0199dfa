//! Lookup-table descriptors for the fixed operation tables the proving
//! layer consumes: each table lists, for one byte-wise operation, every
//! `(a, b, result)` row, with the two operands packed into a single index.

use vstd::prelude::*;

verus! {

/// Which fixed lookup table a descriptor speaks of.
#[derive(Clone, Copy, Debug, PartialEq, Eq, Structural)]
pub enum ROMType {
    U5,
    U8,
    U14,
    U16,
    And,
    Or,
    Xor,
    Ltu,
    Pow,
}

/// A fixed operation table: its kind, its row count, its rows, and the
/// packing of two byte operands into one index.
pub trait OpsTable {
    /// The kind of table described.
    fn rom_type() -> ROMType;

    /// The number of rows.
    fn len() -> usize;

    /// The rows of the table: `[a, b, result]` triples.
    fn content() -> Vec<[u64; 3]>;

    /// Pack two byte operands into one index: `a` in the low eight bits,
    /// `b` in the next eight.
    fn pack(a: u64, b: u64) -> (r: u64)
        ensures
            r == a | (b << 8u64),
    {
        a | (b << 8)
    }

    /// Recover the two byte operands from a packed index.
    fn unpack(i: u64) -> (r: (u64, u64))
        ensures
            r.0 == i & 0xff,
            r.1 == (i >> 8u64) & 0xff,
    {
        (i & 0xff, (i >> 8) & 0xff)
    }
}

/// Packing two byte operands and unpacking the result returns the original
/// pair.
pub proof fn lemma_pack_unpack(a: u64, b: u64)
    requires
        a < 0x100,
        b < 0x100,
    ensures
        ((a | (b << 8u64)) & 0xff) == a,
        (((a | (b << 8u64)) >> 8u64) & 0xff) == b,
{
    assert(((a | (b << 8)) & 0xff) == a && (((a | (b << 8)) >> 8) & 0xff) == b) by (bit_vector)
        requires
            a < 0x100 && b < 0x100,
    ;
}

/// The circuit wrapper a fixed operation table is instantiated under; the
/// arithmetization it drives lives in the proving layer.
#[verifier::reject_recursive_types(E)]
#[verifier::reject_recursive_types(R)]
pub struct OpsTableCircuit<E, R>(core::marker::PhantomData<(E, R)>);

} // verus!

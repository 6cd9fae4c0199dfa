//! Byte and word addresses, register indices, and machine words.
//!
//! The machine traffics in 32-bit words. Memory is addressed internally by
//! word address (a byte address with the low two bits dropped); byte
//! addresses appear at the platform boundary and for the program counter.
//! Arithmetic on addresses wraps modulo 2^32, matching the hardware.

use vstd::prelude::*;

verus! {

/// A machine word: the unit of registers and memory.
pub type Word = u32;

/// Index of a register, in `[0, REG_COUNT)`.
pub type RegIdx = usize;

/// Number of bytes in a machine word.
pub const WORD_SIZE: usize = 4;

/// Number of bytes the program counter advances past a normal instruction.
pub const PC_STEP_SIZE: usize = 4;

/// Addition of 32-bit values, wrapping modulo 2^32.
pub open spec fn wadd(a: u32, b: u32) -> u32 {
    vstd::wrapping::u32_specs::wrapping_add(a, b)
}

/// Subtraction of 32-bit values, wrapping modulo 2^32.
pub open spec fn wsub(a: u32, b: u32) -> u32 {
    vstd::wrapping::u32_specs::wrapping_sub(a, b)
}

/// An address counted in bytes.
#[derive(Clone, Copy, Debug, PartialEq, Eq, Structural)]
pub struct ByteAddr(pub u32);

/// An address counted in words: a byte address divided by `WORD_SIZE`.
#[derive(Clone, Copy, Debug, PartialEq, Eq, Structural)]
pub struct WordAddr(pub u32);

impl ByteAddr {
    /// The word address holding this byte: the low two bits are dropped.
    pub open spec fn spec_waddr(self) -> WordAddr {
        WordAddr(self.0 / 4)
    }

    #[verifier::when_used_as_spec(spec_waddr)]
    pub fn waddr(self) -> (r: WordAddr)
        ensures
            r == self.spec_waddr(),
    {
        WordAddr(self.0 / 4)
    }

    /// Whether this address is word-aligned.
    pub open spec fn spec_is_aligned(self) -> bool {
        self.0 % 4 == 0
    }

    #[verifier::when_used_as_spec(spec_is_aligned)]
    pub fn is_aligned(self) -> (r: bool)
        ensures
            r == self.spec_is_aligned(),
    {
        self.0 % 4 == 0
    }
}

impl WordAddr {
    /// The first byte address of this word: the word address times `WORD_SIZE`,
    /// wrapping modulo 2^32.
    pub open spec fn spec_baddr(self) -> ByteAddr {
        ByteAddr(vstd::wrapping::u32_specs::wrapping_mul(self.0, 4))
    }

    #[verifier::when_used_as_spec(spec_baddr)]
    pub fn baddr(self) -> (r: ByteAddr)
        ensures
            r == self.spec_baddr(),
    {
        ByteAddr(self.0.wrapping_mul(4))
    }
}

/// Round-trip between aligned byte addresses and word addresses: dropping the
/// low two bits and scaling back up returns the original aligned address.
pub proof fn lemma_waddr_baddr(a: ByteAddr)
    requires
        a.is_aligned(),
    ensures
        a.waddr().baddr() == a,
{
    vstd::arithmetic::div_mod::lemma_fundamental_div_mod(a.0 as int, 4);
    assert((a.0 / 4) * 4 == a.0);
    assert(((a.0 / 4) as nat * 4) % 0x1_0000_0000 == a.0) by {
        assert((a.0 / 4) as nat * 4 == a.0 as nat);
    }
}

} // verus!

//! A loaded program: entry point, instruction words, and the initial data
//! image. Immutable after load.

use vstd::prelude::*;
use crate::addr::Word;
use crate::rv32im::Instruction;

verus! {

broadcast use vstd::std_specs::hash::group_hash_axioms;

/// A program as handed over by the loader. The instruction at byte address
/// `base_address + 4*i` is `instructions[i]`; `image` lists the initial
/// contents of memory as `(byte address, word)` pairs, later entries
/// overriding earlier ones.
pub struct Program {
    /// The program counter at which execution starts.
    pub entry: Word,
    /// The byte address of the first instruction.
    pub base_address: Word,
    /// The decoded instructions, in address order.
    pub instructions: Vec<Instruction>,
    /// The initial data image, keyed by byte address.
    pub image: Vec<(Word, Word)>,
}

/// The word the image places at word address `wa`: the last entry whose byte
/// address falls in that word wins, and an uncovered word is zero.
pub open spec fn image_word(entries: Seq<(Word, Word)>, wa: u32) -> Word
    decreases entries.len(),
{
    if entries.len() == 0 {
        0
    } else if entries.last().0 / 4 == wa {
        entries.last().1
    } else {
        image_word(entries.drop_last(), wa)
    }
}

impl Program {
    /// A well-formed program: the entry point and the instruction range are
    /// word-aligned, and every instruction is well formed.
    pub open spec fn wf(self) -> bool {
        &&& self.entry % 4 == 0
        &&& self.base_address % 4 == 0
        &&& forall|i: int| 0 <= i < self.instructions@.len() ==> self.instructions@[i].wf()
    }

    /// The word the initial image places at word address `wa`.
    pub open spec fn spec_image_word(self, wa: u32) -> Word {
        image_word(self.image@, wa)
    }

    /// Whether the initial image covers byte address `a`.
    pub open spec fn image_covers(self, a: Word) -> bool {
        exists|k: int| 0 <= k < self.image@.len() && (#[trigger] self.image@[k]).0 == a
    }

    /// The byte addresses the initial image covers: what a platform's
    /// program-data set defaults to when the machine is built from a loaded
    /// program.
    pub fn image_addresses(&self) -> (r: std::collections::HashSet<Word>)
        ensures
            forall|a: Word| #[trigger] r@.contains(a) <==> self.image_covers(a),
    {
        let mut addresses: std::collections::HashSet<Word> = std::collections::HashSet::new();
        let n = self.image.len();
        let mut k: usize = 0;
        while k < n
            invariant
                k <= n,
                n == self.image@.len(),
                forall|a: Word| #[trigger] addresses@.contains(a) <==> exists|j: int|
                    0 <= j < k && (#[trigger] self.image@[j]).0 == a,
            decreases n - k,
        {
            let (a, _) = self.image[k];
            addresses.insert(a);
            k = k + 1;
        }
        addresses
    }
}

} // verus!

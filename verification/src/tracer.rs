//! The tracer: the per-step observation buffer and the finalized step
//! records.
//!
//! Every load and store of a register or a memory word issued while one
//! instruction is in flight is appended here with its before/after values;
//! `advance` finalizes the buffer into a [`StepRecord`] carrying the next
//! cycle index and clears the buffer for the following instruction.

use vstd::prelude::*;
use crate::addr::{ByteAddr, RegIdx, Word, WordAddr};
use crate::rv32im::Instruction;

verus! {

/// A recorded mutation: the value before and after.
#[derive(Clone, Copy, Debug, PartialEq, Eq, Structural)]
pub struct Change<T> {
    pub before: T,
    pub after: T,
}

/// The batched effects a syscall handler returns: memory and register
/// overwrites, an optional next program counter, and an opaque witness
/// payload carried through to the trace.
#[derive(Clone, Debug, PartialEq, Eq)]
pub struct SyscallEffects {
    /// Words to overwrite, keyed by word address.
    pub mem_values: Vec<(WordAddr, Word)>,
    /// Registers to overwrite, keyed by register index.
    pub reg_values: Vec<(RegIdx, Word)>,
    /// The program counter after the syscall; absent means fall through to
    /// the next instruction.
    pub next_pc: Option<Word>,
    /// Opaque witness data for the downstream proving layer.
    pub witness: Vec<Word>,
}

impl SyscallEffects {
    /// Effects the machine can apply: register overwrites name writable
    /// architectural registers (never x0), and a next program counter is
    /// word-aligned.
    pub open spec fn wf(self) -> bool {
        &&& forall|k: int|
            0 <= k < self.reg_values@.len() ==> 0 < #[trigger] self.reg_values@[k].0 < 33
        &&& (self.next_pc is Some ==> self.next_pc->0 % 4 == 0)
    }
}

/// The mathematical value of a syscall effect bundle.
#[verifier::ext_equal]
pub struct SyscallEffectsView {
    pub mem_values: Seq<(WordAddr, Word)>,
    pub reg_values: Seq<(RegIdx, Word)>,
    pub next_pc: Option<Word>,
    pub witness: Seq<Word>,
}

impl SyscallEffects {
    /// The bundle as a mathematical value.
    pub open spec fn model(self) -> SyscallEffectsView {
        SyscallEffectsView {
            mem_values: self.mem_values@,
            reg_values: self.reg_values@,
            next_pc: self.next_pc,
            witness: self.witness@,
        }
    }
}

/// The mathematical value of a finalized step record.
#[verifier::ext_equal]
pub struct StepRecordView {
    pub cycle: u64,
    pub pc_before: Word,
    pub pc_after: Word,
    pub fetched: Option<Instruction>,
    pub register_reads: Seq<(RegIdx, Word)>,
    pub register_writes: Seq<(RegIdx, Change<Word>)>,
    pub memory_reads: Seq<(WordAddr, Word)>,
    pub memory_writes: Seq<(WordAddr, Change<Word>)>,
    pub syscall: Option<SyscallEffectsView>,
}

impl StepRecordView {
    /// The busy-loop condition, at the level of record values.
    pub open spec fn is_busy(self) -> bool {
        &&& self.pc_before == self.pc_after
        &&& self.register_writes.len() == 0
        &&& self.memory_writes.len() == 0
        &&& self.syscall is None
    }
}

/// The finalized observations of one executed instruction.
#[derive(Clone, Debug, PartialEq)]
pub struct StepRecord {
    /// Position of this step in the trace: `0, 1, 2, …`.
    pub cycle: u64,
    /// The program counter before and after the instruction.
    pub pc_change: Change<ByteAddr>,
    /// The instruction that was fetched, if any.
    pub fetched: Option<Instruction>,
    /// Register reads, in issue order.
    pub register_reads: Vec<(RegIdx, Word)>,
    /// Register writes, in issue order.
    pub register_writes: Vec<(RegIdx, Change<Word>)>,
    /// Memory reads, in issue order.
    pub memory_reads: Vec<(WordAddr, Word)>,
    /// Memory writes, in issue order.
    pub memory_writes: Vec<(WordAddr, Change<Word>)>,
    /// The syscall effect bundle, when this step executed one.
    pub syscall: Option<SyscallEffects>,
}

impl StepRecord {
    /// The record as a mathematical value.
    pub open spec fn model(self) -> StepRecordView {
        StepRecordView {
            cycle: self.cycle,
            pc_before: self.pc_change.before.0,
            pc_after: self.pc_change.after.0,
            fetched: self.fetched,
            register_reads: self.register_reads@,
            register_writes: self.register_writes@,
            memory_reads: self.memory_reads@,
            memory_writes: self.memory_writes@,
            syscall: match self.syscall {
                Some(e) => Some(e.model()),
                None => None,
            },
        }
    }

    /// An empty buffer: nothing observed yet.
    pub open spec fn spec_clear(self) -> bool {
        &&& self.fetched is None
        &&& self.register_reads@.len() == 0
        &&& self.register_writes@.len() == 0
        &&& self.memory_reads@.len() == 0
        &&& self.memory_writes@.len() == 0
        &&& self.syscall is None
    }

    /// A step is a busy loop when the program counter did not move and no
    /// architectural state changed: no register write, no memory write, and
    /// no syscall.
    pub open spec fn spec_is_busy_loop(&self) -> bool {
        &&& self.pc_change.before == self.pc_change.after
        &&& self.register_writes@.len() == 0
        &&& self.memory_writes@.len() == 0
        &&& self.syscall is None
    }

    #[verifier::when_used_as_spec(spec_is_busy_loop)]
    pub fn is_busy_loop(&self) -> (r: bool)
        ensures
            r == self.spec_is_busy_loop(),
    {
        self.pc_change.before == self.pc_change.after && self.register_writes.len() == 0
            && self.memory_writes.len() == 0 && self.syscall.is_none()
    }

    fn new_clear() -> (r: StepRecord)
        ensures
            r.spec_clear(),
            r.cycle == 0,
            r.pc_change == (Change { before: ByteAddr(0), after: ByteAddr(0) }),
    {
        StepRecord {
            cycle: 0,
            pc_change: Change { before: ByteAddr(0), after: ByteAddr(0) },
            fetched: None,
            register_reads: Vec::new(),
            register_writes: Vec::new(),
            memory_reads: Vec::new(),
            memory_writes: Vec::new(),
            syscall: None,
        }
    }

    /// The buffers agree except that one register read was appended.
    pub open spec fn only_reg_read_added(
        pre: StepRecord,
        post: StepRecord,
        idx: RegIdx,
        value: Word,
    ) -> bool {
        &&& post.register_reads@ == pre.register_reads@.push((idx, value))
        &&& post.register_writes@ == pre.register_writes@
        &&& post.memory_reads@ == pre.memory_reads@
        &&& post.memory_writes@ == pre.memory_writes@
        &&& post.pc_change == pre.pc_change
        &&& post.fetched == pre.fetched
        &&& post.syscall == pre.syscall
        &&& post.cycle == pre.cycle
    }

    /// The buffers agree except that one register write was appended.
    pub open spec fn only_reg_write_added(
        pre: StepRecord,
        post: StepRecord,
        idx: RegIdx,
        change: Change<Word>,
    ) -> bool {
        &&& post.register_reads@ == pre.register_reads@
        &&& post.register_writes@ == pre.register_writes@.push((idx, change))
        &&& post.memory_reads@ == pre.memory_reads@
        &&& post.memory_writes@ == pre.memory_writes@
        &&& post.pc_change == pre.pc_change
        &&& post.fetched == pre.fetched
        &&& post.syscall == pre.syscall
        &&& post.cycle == pre.cycle
    }

    /// The buffers agree except that one memory read was appended.
    pub open spec fn only_mem_read_added(
        pre: StepRecord,
        post: StepRecord,
        addr: WordAddr,
        value: Word,
    ) -> bool {
        &&& post.register_reads@ == pre.register_reads@
        &&& post.register_writes@ == pre.register_writes@
        &&& post.memory_reads@ == pre.memory_reads@.push((addr, value))
        &&& post.memory_writes@ == pre.memory_writes@
        &&& post.pc_change == pre.pc_change
        &&& post.fetched == pre.fetched
        &&& post.syscall == pre.syscall
        &&& post.cycle == pre.cycle
    }

    /// The buffers agree except that one memory write was appended.
    pub open spec fn only_mem_write_added(
        pre: StepRecord,
        post: StepRecord,
        addr: WordAddr,
        change: Change<Word>,
    ) -> bool {
        &&& post.register_reads@ == pre.register_reads@
        &&& post.register_writes@ == pre.register_writes@
        &&& post.memory_reads@ == pre.memory_reads@
        &&& post.memory_writes@ == pre.memory_writes@.push((addr, change))
        &&& post.pc_change == pre.pc_change
        &&& post.fetched == pre.fetched
        &&& post.syscall == pre.syscall
        &&& post.cycle == pre.cycle
    }

    /// The buffers agree except that the fetch was recorded: the fetched
    /// instruction, and the program counter snapshot for both ends of the
    /// step.
    pub open spec fn only_fetch_added(
        pre: StepRecord,
        post: StepRecord,
        pc: WordAddr,
        insn: Instruction,
    ) -> bool {
        &&& post.register_reads@ == pre.register_reads@
        &&& post.register_writes@ == pre.register_writes@
        &&& post.memory_reads@ == pre.memory_reads@
        &&& post.memory_writes@ == pre.memory_writes@
        &&& post.pc_change == (Change { before: pc.spec_baddr(), after: pc.spec_baddr() })
        &&& post.fetched == Some(insn)
        &&& post.syscall == pre.syscall
        &&& post.cycle == pre.cycle
    }

    /// The buffers agree except that the post-instruction program counter
    /// was recorded.
    pub open spec fn only_pc_stored(pre: StepRecord, post: StepRecord, pc: ByteAddr) -> bool {
        &&& post.register_reads@ == pre.register_reads@
        &&& post.register_writes@ == pre.register_writes@
        &&& post.memory_reads@ == pre.memory_reads@
        &&& post.memory_writes@ == pre.memory_writes@
        &&& post.pc_change == (Change { before: pre.pc_change.before, after: pc })
        &&& post.fetched == pre.fetched
        &&& post.syscall == pre.syscall
        &&& post.cycle == pre.cycle
    }

    /// The buffers agree except that the syscall effect bundle was attached;
    /// in particular no individual register or memory write was added for
    /// the effects it contains.
    pub open spec fn only_syscall_added(
        pre: StepRecord,
        post: StepRecord,
        effects: SyscallEffects,
    ) -> bool {
        &&& post.register_reads@ == pre.register_reads@
        &&& post.register_writes@ == pre.register_writes@
        &&& post.memory_reads@ == pre.memory_reads@
        &&& post.memory_writes@ == pre.memory_writes@
        &&& post.pc_change == pre.pc_change
        &&& post.fetched == pre.fetched
        &&& post.syscall == Some(effects)
        &&& post.cycle == pre.cycle
    }
}

/// The per-step observation collector. It owns the working buffer for the
/// instruction currently in flight and the number of steps finalized so far.
pub struct Tracer {
    cycle: u64,
    record: StepRecord,
}

impl Tracer {
    /// The cycle index the next finalized record will carry.
    pub closed spec fn spec_cycle(self) -> u64 {
        self.cycle
    }

    /// The working buffer for the instruction in flight.
    pub closed spec fn cur(self) -> StepRecord {
        self.record
    }

    pub fn new() -> (r: Tracer)
        ensures
            r.spec_cycle() == 0,
            r.cur().spec_clear(),
    {
        Tracer { cycle: 0, record: StepRecord::new_clear() }
    }

    /// The cycle index the next finalized record will carry: the number of
    /// steps finalized so far.
    pub fn cycle(&self) -> (r: u64)
        ensures
            r == self.spec_cycle(),
    {
        self.cycle
    }

    /// Record the fetched instruction and the program counter it was fetched
    /// from. At most one fetch per in-flight step.
    pub fn fetch(&mut self, pc: WordAddr, insn: Instruction)
        requires
            old(self).cur().fetched is None,
        ensures
            final(self).spec_cycle() == old(self).spec_cycle(),
            StepRecord::only_fetch_added(old(self).cur(), final(self).cur(), pc, insn),
    {
        self.record.pc_change = Change { before: pc.baddr(), after: pc.baddr() };
        self.record.fetched = Some(insn);
    }

    /// Record a register read.
    pub fn load_register(&mut self, idx: RegIdx, value: Word)
        ensures
            final(self).spec_cycle() == old(self).spec_cycle(),
            StepRecord::only_reg_read_added(old(self).cur(), final(self).cur(), idx, value),
    {
        self.record.register_reads.push((idx, value));
    }

    /// Record a register write with its before/after values.
    pub fn store_register(&mut self, idx: RegIdx, change: Change<Word>)
        ensures
            final(self).spec_cycle() == old(self).spec_cycle(),
            StepRecord::only_reg_write_added(old(self).cur(), final(self).cur(), idx, change),
    {
        self.record.register_writes.push((idx, change));
    }

    /// Record a memory read.
    pub fn load_memory(&mut self, addr: WordAddr, value: Word)
        ensures
            final(self).spec_cycle() == old(self).spec_cycle(),
            StepRecord::only_mem_read_added(old(self).cur(), final(self).cur(), addr, value),
    {
        self.record.memory_reads.push((addr, value));
    }

    /// Record a memory write with its before/after values.
    pub fn store_memory(&mut self, addr: WordAddr, change: Change<Word>)
        ensures
            final(self).spec_cycle() == old(self).spec_cycle(),
            StepRecord::only_mem_write_added(old(self).cur(), final(self).cur(), addr, change),
    {
        self.record.memory_writes.push((addr, change));
    }

    /// Record the program counter after the instruction.
    pub fn store_pc(&mut self, pc: ByteAddr)
        ensures
            final(self).spec_cycle() == old(self).spec_cycle(),
            StepRecord::only_pc_stored(old(self).cur(), final(self).cur(), pc),
    {
        self.record.pc_change.after = pc;
    }

    /// Attach a syscall effect bundle to the in-flight record.
    pub fn track_syscall(&mut self, effects: SyscallEffects)
        ensures
            final(self).spec_cycle() == old(self).spec_cycle(),
            StepRecord::only_syscall_added(old(self).cur(), final(self).cur(), effects),
    {
        self.record.syscall = Some(effects);
    }

    /// Finalize the buffer: return it as the record of the next cycle, and
    /// clear the buffer for the following instruction.
    pub fn advance(&mut self) -> (r: StepRecord)
        requires
            old(self).spec_cycle() < u64::MAX,
        ensures
            r.cycle == old(self).spec_cycle(),
            r.pc_change == old(self).cur().pc_change,
            r.fetched == old(self).cur().fetched,
            r.register_reads@ == old(self).cur().register_reads@,
            r.register_writes@ == old(self).cur().register_writes@,
            r.memory_reads@ == old(self).cur().memory_reads@,
            r.memory_writes@ == old(self).cur().memory_writes@,
            r.syscall == old(self).cur().syscall,
            final(self).spec_cycle() == old(self).spec_cycle() + 1,
            final(self).cur().spec_clear(),
    {
        let mut rec = StepRecord::new_clear();
        core::mem::swap(&mut rec, &mut self.record);
        rec.cycle = self.cycle;
        self.cycle = self.cycle + 1;
        rec
    }
}

} // verus!

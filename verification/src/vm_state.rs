//! The architectural machine state and the side effects of its operations.
//!
//! A `VMState` holds the registers, the sparse word-addressed memory, the
//! program counter, the halted flag, and the tracer that observes every
//! access. Loads and stores always record themselves in the tracer; peeks
//! never do.

use vstd::prelude::*;
use std::collections::HashMap;
use crate::addr::{wadd, wsub, ByteAddr, RegIdx, Word, WordAddr};
use crate::platform::Platform;
use crate::program::{image_word, Program};
use crate::rv32im::{alu_result, InsnKind, Instruction, TrapCause};
use crate::tracer::{Change, StepRecord, StepRecordView, SyscallEffects, Tracer};

verus! {

broadcast use vstd::std_specs::hash::group_hash_axioms;

/// A fatal error that terminates the step sequence.
#[derive(Clone, Copy, Debug, PartialEq, Eq, Structural)]
pub enum VMError {
    /// The instruction trapped; the cause says why.
    Trap(TrapCause),
    /// A finished step changed nothing while the machine was not halted.
    BusyLoop,
}

/// The memory contents after a batch of syscall overwrites, applied in
/// order: a later entry for the same word address wins.
pub open spec fn mem_after_writes(base: Map<u32, Word>, es: Seq<(WordAddr, Word)>) -> Map<
    u32,
    Word,
>
    decreases es.len(),
{
    if es.len() == 0 {
        base
    } else {
        mem_after_writes(base, es.drop_last()).insert(es.last().0.0, es.last().1)
    }
}

/// The register file after a batch of syscall overwrites, applied in order.
pub open spec fn regs_after_writes(base: Seq<Word>, es: Seq<(RegIdx, Word)>) -> Seq<Word>
    decreases es.len(),
{
    if es.len() == 0 {
        base
    } else {
        regs_after_writes(base, es.drop_last()).update(es.last().0 as int, es.last().1)
    }
}

/// Syscall register overwrites never name x0, so they keep the register
/// file's size and leave x0 at its architectural zero.
pub proof fn lemma_regs_after_writes_zero(base: Seq<Word>, es: Seq<(RegIdx, Word)>)
    requires
        forall|k: int| 0 <= k < es.len() ==> 0 < (#[trigger] es[k]).0 < 33,
        base.len() == 33,
    ensures
        regs_after_writes(base, es).len() == base.len(),
        regs_after_writes(base, es)[0] == base[0],
    decreases es.len(),
{
    if es.len() > 0 {
        assert(forall|k: int|
            0 <= k < es.drop_last().len() ==> 0 < (#[trigger] es.drop_last()[k]).0 < 33);
        lemma_regs_after_writes_zero(base, es.drop_last());
    }
}

/// The architectural state as a mathematical value: what one step of the
/// machine is a function of.
#[verifier::ext_equal]
pub struct VMView {
    pub pc: Word,
    pub regs: Seq<Word>,
    pub mem: Map<u32, Word>,
    pub halted: bool,
}

impl VMView {
    /// The word at word address `wa`: zero when absent.
    pub open spec fn mem_word(self, wa: u32) -> Word {
        if self.mem.contains_key(wa) {
            self.mem[wa]
        } else {
            0
        }
    }
}

/// The outcome of one spec-level step: the successor state and the emitted
/// record, or the trap that ended the run.
#[verifier::ext_equal]
pub enum StepView {
    Next { s2: VMView, rec: StepRecordView },
    Fail { e: VMError },
}

/// The offset of the program counter into the instruction range.
pub open spec fn view_fetch_idx(prog: Program, s: VMView) -> int {
    wsub(s.pc, prog.base_address) as int / 4
}

/// Whether the program counter lies in the program's instruction range.
pub open spec fn view_fetch_ok(prog: Program, s: VMView) -> bool {
    view_fetch_idx(prog, s) < prog.instructions@.len()
}

/// The instruction under the program counter.
pub open spec fn view_cur_insn(prog: Program, s: VMView) -> Instruction {
    prog.instructions@[view_fetch_idx(prog, s)]
}

/// Whether this instruction executes without a trap in this state.
pub open spec fn view_insn_ok(plat: Platform, s: VMView, i: Instruction) -> bool {
    match i.kind {
        InsnKind::Lw => {
            let a = wadd(s.regs[i.rs1 as int], i.imm);
            a % 4 == 0 && plat.spec_can_read(a)
        },
        InsnKind::Sw => {
            let a = wadd(s.regs[i.rs1 as int], i.imm);
            a % 4 == 0 && plat.spec_can_write(a)
        },
        InsnKind::Ecall => s.regs[5] == 0 || plat.unsafe_ecall_nop,
        InsnKind::Invalid => false,
        _ => true,
    }
}

/// The error a trapping instruction produces in this state. Only
/// meaningful when `view_insn_ok` is false; kinds that never trap fall to
/// an arbitrary placeholder.
pub open spec fn view_step_err(s: VMView, i: Instruction) -> VMError {
    match i.kind {
        InsnKind::Lw => {
            let a = wadd(s.regs[i.rs1 as int], i.imm);
            if a % 4 != 0 {
                VMError::Trap(TrapCause::LoadAddressMisaligned(ByteAddr(a)))
            } else {
                VMError::Trap(TrapCause::LoadAccessFault(ByteAddr(a)))
            }
        },
        InsnKind::Sw => {
            let a = wadd(s.regs[i.rs1 as int], i.imm);
            if a % 4 != 0 {
                VMError::Trap(TrapCause::StoreAddressMisaligned(ByteAddr(a)))
            } else {
                VMError::Trap(TrapCause::StoreAccessFault(ByteAddr(a)))
            }
        },
        InsnKind::Ecall => VMError::Trap(TrapCause::EcallError),
        InsnKind::Invalid => VMError::Trap(TrapCause::IllegalInstruction(i.imm)),
        _ => VMError::BusyLoop,
    }
}

/// A record value with no syscall attached.
pub open spec fn view_rec(
    cycle: u64,
    pc_before: Word,
    pc_after: Word,
    i: Instruction,
    register_reads: Seq<(RegIdx, Word)>,
    register_writes: Seq<(RegIdx, Change<Word>)>,
    memory_reads: Seq<(WordAddr, Word)>,
    memory_writes: Seq<(WordAddr, Change<Word>)>,
) -> StepRecordView {
    StepRecordView {
        cycle,
        pc_before,
        pc_after,
        fetched: Some(i),
        register_reads,
        register_writes,
        memory_reads,
        memory_writes,
        syscall: None,
    }
}

/// One spec-level step of the machine without a syscall handler: the
/// transition function the step driver implements. `cycle` is the index
/// the emitted record carries.
pub open spec fn view_step(prog: Program, plat: Platform, s: VMView, cycle: u64) -> StepView {
    if !view_fetch_ok(prog, s) {
        StepView::Fail { e: VMError::Trap(TrapCause::InstructionAccessFault(ByteAddr(s.pc))) }
    } else {
        let i = view_cur_insn(prog, s);
        if !view_insn_ok(plat, s, i) {
            StepView::Fail { e: view_step_err(s, i) }
        } else {
            let pc4 = wadd(s.pc, 4);
            match i.kind {
                InsnKind::Add | InsnKind::Sub => {
                    let a = s.regs[i.rs1 as int];
                    let b = s.regs[i.rs2 as int];
                    let v = alu_result(i.kind, a, b);
                    StepView::Next {
                        s2: VMView {
                            pc: pc4,
                            regs: VMState::regs_write_rd(s.regs, i.rd, v),
                            mem: s.mem,
                            halted: false,
                        },
                        rec: view_rec(
                            cycle,
                            s.pc,
                            pc4,
                            i,
                            seq![(i.rs1, a), (i.rs2, b)],
                            VMState::rd_writes(s.regs, i.rd, v),
                            Seq::empty(),
                            Seq::empty(),
                        ),
                    }
                },
                InsnKind::Addi => {
                    let a = s.regs[i.rs1 as int];
                    let v = alu_result(i.kind, a, i.imm);
                    StepView::Next {
                        s2: VMView {
                            pc: pc4,
                            regs: VMState::regs_write_rd(s.regs, i.rd, v),
                            mem: s.mem,
                            halted: false,
                        },
                        rec: view_rec(
                            cycle,
                            s.pc,
                            pc4,
                            i,
                            seq![(i.rs1, a)],
                            VMState::rd_writes(s.regs, i.rd, v),
                            Seq::empty(),
                            Seq::empty(),
                        ),
                    }
                },
                InsnKind::Lw => {
                    let a = s.regs[i.rs1 as int];
                    let wa = wadd(a, i.imm) / 4;
                    let v = s.mem_word(wa);
                    StepView::Next {
                        s2: VMView {
                            pc: pc4,
                            regs: VMState::regs_write_rd(s.regs, i.rd, v),
                            mem: s.mem,
                            halted: false,
                        },
                        rec: view_rec(
                            cycle,
                            s.pc,
                            pc4,
                            i,
                            seq![(i.rs1, a)],
                            VMState::rd_writes(s.regs, i.rd, v),
                            seq![(WordAddr(wa), v)],
                            Seq::empty(),
                        ),
                    }
                },
                InsnKind::Sw => {
                    let a = s.regs[i.rs1 as int];
                    let b = s.regs[i.rs2 as int];
                    let wa = wadd(a, i.imm) / 4;
                    StepView::Next {
                        s2: VMView {
                            pc: pc4,
                            regs: s.regs,
                            mem: s.mem.insert(wa, b),
                            halted: false,
                        },
                        rec: view_rec(
                            cycle,
                            s.pc,
                            pc4,
                            i,
                            seq![(i.rs1, a), (i.rs2, b)],
                            Seq::empty(),
                            Seq::empty(),
                            seq![(WordAddr(wa), Change { before: s.mem_word(wa), after: b })],
                        ),
                    }
                },
                InsnKind::Jal => {
                    let target = wadd(s.pc, i.imm);
                    StepView::Next {
                        s2: VMView {
                            pc: target,
                            regs: VMState::regs_write_rd(s.regs, i.rd, pc4),
                            mem: s.mem,
                            halted: false,
                        },
                        rec: view_rec(
                            cycle,
                            s.pc,
                            target,
                            i,
                            Seq::empty(),
                            VMState::rd_writes(s.regs, i.rd, pc4),
                            Seq::empty(),
                            Seq::empty(),
                        ),
                    }
                },
                InsnKind::Beq | InsnKind::Bne => {
                    let a = s.regs[i.rs1 as int];
                    let b = s.regs[i.rs2 as int];
                    let taken = if i.kind == InsnKind::Beq {
                        a == b
                    } else {
                        a != b
                    };
                    let target = if taken {
                        wadd(s.pc, i.imm)
                    } else {
                        pc4
                    };
                    StepView::Next {
                        s2: VMView { pc: target, regs: s.regs, mem: s.mem, halted: false },
                        rec: view_rec(
                            cycle,
                            s.pc,
                            target,
                            i,
                            seq![(i.rs1, a), (i.rs2, b)],
                            Seq::empty(),
                            Seq::empty(),
                            Seq::empty(),
                        ),
                    }
                },
                InsnKind::Ecall => {
                    let f = s.regs[5];
                    let arg0 = s.regs[10];
                    if f == 0 {
                        StepView::Next {
                            s2: VMView { pc: 0, regs: s.regs, mem: s.mem, halted: true },
                            rec: view_rec(
                                cycle,
                                s.pc,
                                0,
                                i,
                                seq![(5usize, f), (10usize, arg0)],
                                Seq::empty(),
                                Seq::empty(),
                                Seq::empty(),
                            ),
                        }
                    } else {
                        let sink = wsub(plat.stack.end, 4) / 4;
                        let v = s.mem_word(sink);
                        StepView::Next {
                            s2: VMView {
                                pc: pc4,
                                regs: s.regs.update(32, 0u32),
                                mem: s.mem.insert(sink, v),
                                halted: false,
                            },
                            rec: view_rec(
                                cycle,
                                s.pc,
                                pc4,
                                i,
                                seq![(5usize, f), (10usize, arg0)],
                                seq![(32usize, Change { before: s.regs[32], after: 0u32 })],
                                Seq::empty(),
                                seq![(WordAddr(sink), Change { before: v, after: v })],
                            ),
                        }
                    }
                },
                InsnKind::Invalid => StepView::Fail { e: view_step_err(s, i) },
            }
        }
    }
}

/// The full run of the machine from a state: the records of every
/// completed step and the halted end state, or the first error — a trap,
/// the busy-loop detector, or the cycle index running out.
#[verifier::ext_equal]
pub enum RunResult {
    Halted { recs: Seq<StepRecordView>, end: VMView },
    Failed { e: VMError },
}

/// Run the machine from state `s` with the next cycle index `cycle`,
/// stepping until it halts or fails, exactly as the step driver does: a
/// finished step that moved nothing while the machine is not halted is the
/// busy-loop error, and an exhausted cycle index fails the same way.
pub open spec fn run_from(prog: Program, plat: Platform, s: VMView, cycle: u64) -> RunResult
    decreases u64::MAX - cycle,
{
    if s.halted {
        RunResult::Halted { recs: Seq::empty(), end: s }
    } else if cycle == u64::MAX {
        RunResult::Failed { e: VMError::BusyLoop }
    } else {
        match view_step(prog, plat, s, cycle) {
            StepView::Fail { e } => RunResult::Failed { e },
            StepView::Next { s2, rec } => {
                if rec.is_busy() && !s2.halted {
                    RunResult::Failed { e: VMError::BusyLoop }
                } else {
                    match run_from(prog, plat, s2, (cycle + 1) as u64) {
                        RunResult::Halted { recs, end } => RunResult::Halted {
                            recs: seq![rec] + recs,
                            end,
                        },
                        RunResult::Failed { e } => RunResult::Failed { e },
                    }
                }
            },
        }
    }
}

/// The records of a run, as mathematical values.
pub open spec fn recs_models(rs: Seq<StepRecord>) -> Seq<StepRecordView> {
    rs.map(|k: int, r: StepRecord| r.model())
}

/// A register file after one record's register writes are replayed onto
/// it, in issue order.
pub open spec fn replay_reg_writes(
    base: Seq<Word>,
    ws: Seq<(RegIdx, Change<Word>)>,
) -> Seq<Word>
    decreases ws.len(),
{
    if ws.len() == 0 {
        base
    } else {
        replay_reg_writes(base, ws.drop_last()).update(ws.last().0 as int, ws.last().1.after)
    }
}

/// A memory after one record's memory writes are replayed onto it, in
/// issue order.
pub open spec fn replay_mem_writes(
    base: Map<u32, Word>,
    ws: Seq<(WordAddr, Change<Word>)>,
) -> Map<u32, Word>
    decreases ws.len(),
{
    if ws.len() == 0 {
        base
    } else {
        replay_mem_writes(base, ws.drop_last()).insert(ws.last().0.0, ws.last().1.after)
    }
}

/// A register file after a sequence of records is replayed onto it, in
/// cycle order.
pub open spec fn replay_regs(base: Seq<Word>, recs: Seq<StepRecordView>) -> Seq<Word>
    decreases recs.len(),
{
    if recs.len() == 0 {
        base
    } else {
        replay_reg_writes(replay_regs(base, recs.drop_last()), recs.last().register_writes)
    }
}

/// A memory after a sequence of records is replayed onto it, in cycle
/// order.
pub open spec fn replay_mem(base: Map<u32, Word>, recs: Seq<StepRecordView>) -> Map<u32, Word>
    decreases recs.len(),
{
    if recs.len() == 0 {
        base
    } else {
        replay_mem_writes(replay_mem(base, recs.drop_last()), recs.last().memory_writes)
    }
}

/// Replaying a single register write is one update.
proof fn lemma_replay_one_reg(base: Seq<Word>, w: (RegIdx, Change<Word>))
    ensures
        replay_reg_writes(base, seq![w]) == base.update(w.0 as int, w.1.after),
{
    assert(seq![w].drop_last() =~= Seq::<(RegIdx, Change<Word>)>::empty());
    assert(replay_reg_writes(base, Seq::empty()) == base);
}

/// Replaying a single memory write is one insert.
proof fn lemma_replay_one_mem(base: Map<u32, Word>, w: (WordAddr, Change<Word>))
    ensures
        replay_mem_writes(base, seq![w]) == base.insert(w.0.0, w.1.after),
{
    assert(seq![w].drop_last() =~= Seq::<(WordAddr, Change<Word>)>::empty());
    assert(replay_mem_writes(base, Seq::empty()) == base);
}

/// Replaying a prefixed record sequence is replaying the first record and
/// then the rest.
proof fn lemma_replay_cons(
    base_regs: Seq<Word>,
    base_mem: Map<u32, Word>,
    rec: StepRecordView,
    rest: Seq<StepRecordView>,
)
    ensures
        replay_regs(base_regs, seq![rec] + rest) == replay_regs(
            replay_reg_writes(base_regs, rec.register_writes),
            rest,
        ),
        replay_mem(base_mem, seq![rec] + rest) == replay_mem(
            replay_mem_writes(base_mem, rec.memory_writes),
            rest,
        ),
    decreases rest.len(),
{
    if rest.len() == 0 {
        assert((seq![rec] + rest).drop_last() =~= Seq::<StepRecordView>::empty());
        assert((seq![rec] + rest).last() == rec);
        assert(replay_regs(base_regs, Seq::empty()) == base_regs);
        assert(replay_mem(base_mem, Seq::empty()) == base_mem);
        assert(replay_regs(replay_reg_writes(base_regs, rec.register_writes), rest)
            == replay_reg_writes(base_regs, rec.register_writes));
        assert(replay_mem(replay_mem_writes(base_mem, rec.memory_writes), rest)
            == replay_mem_writes(base_mem, rec.memory_writes));
    } else {
        assert((seq![rec] + rest).last() == rest.last());
        assert((seq![rec] + rest).drop_last() =~= seq![rec] + rest.drop_last());
        lemma_replay_cons(base_regs, base_mem, rec, rest.drop_last());
        assert(replay_regs(replay_reg_writes(base_regs, rec.register_writes), rest)
            == replay_reg_writes(
            replay_regs(replay_reg_writes(base_regs, rec.register_writes), rest.drop_last()),
            rest.last().register_writes,
        ));
        assert(replay_mem(replay_mem_writes(base_mem, rec.memory_writes), rest)
            == replay_mem_writes(
            replay_mem(replay_mem_writes(base_mem, rec.memory_writes), rest.drop_last()),
            rest.last().memory_writes,
        ));
    }
}

/// Replay round-trip: replaying a successful run's records — applying
/// each record's register writes and memory writes in cycle order — onto
/// the starting state reproduces exactly the run's final register file and
/// memory.
pub proof fn lemma_replay_run(prog: Program, plat: Platform, s: VMView, cycle: u64)
    ensures
        run_from(prog, plat, s, cycle) matches RunResult::Halted { recs, end } ==> end.regs
            == replay_regs(s.regs, recs) && end.mem == replay_mem(s.mem, recs),
    decreases u64::MAX - cycle,
{
    if s.halted {
        assert(replay_regs(s.regs, Seq::empty()) == s.regs);
        assert(replay_mem(s.mem, Seq::empty()) == s.mem);
    } else if cycle == u64::MAX {
    } else {
        match view_step(prog, plat, s, cycle) {
            StepView::Fail { e } => {},
            StepView::Next { s2, rec } => {
                if rec.is_busy() && !s2.halted {
                } else {
                    lemma_replay_run(prog, plat, s2, (cycle + 1) as u64);
                    assert(replay_reg_writes(s.regs, rec.register_writes) == s2.regs
                        && replay_mem_writes(s.mem, rec.memory_writes) == s2.mem) by {
                        if rec.register_writes.len() == 1 {
                            assert(rec.register_writes =~= seq![rec.register_writes[0]]);
                            lemma_replay_one_reg(s.regs, rec.register_writes[0]);
                        }
                        if rec.memory_writes.len() == 1 {
                            assert(rec.memory_writes =~= seq![rec.memory_writes[0]]);
                            lemma_replay_one_mem(s.mem, rec.memory_writes[0]);
                        }
                    }
                    match run_from(prog, plat, s2, (cycle + 1) as u64) {
                        RunResult::Failed { e } => {},
                        RunResult::Halted { recs: recs2, end: end2 } => {
                            lemma_replay_cons(s.regs, s.mem, rec, recs2);
                        },
                    }
                }
            },
        }
    }
}

/// The trace-level invariants every successful step obeys, derived from the
/// transition relation: no record writes x0; a plain instruction advances
/// the program counter by four; every recorded write carries the value at
/// entry and at exit of the step; words the record does not write keep
/// their value; and the machine halts exactly on the halt ecall.
proof fn lemma_step_effects_props(pre: VMState, post: VMState, rec: StepRecord, i: Instruction)
    requires
        pre.wf(),
        i.wf(),
        VMState::step_effects(pre, post, rec, i),
    ensures
        forall|k: int|
            0 <= k < rec.register_writes@.len() ==> (#[trigger] rec.register_writes@[k]).0 != 0,
        forall|k: int|
            0 <= k < rec.register_writes@.len() ==> (#[trigger] rec.register_writes@[k]).1.before
                == pre.reg(rec.register_writes@[k].0 as int) && rec.register_writes@[k].1.after
                == post.reg(rec.register_writes@[k].0 as int),
        forall|k: int|
            0 <= k < rec.memory_writes@.len() ==> (#[trigger] rec.memory_writes@[k]).1.before
                == pre.mem_word(rec.memory_writes@[k].0.0) && rec.memory_writes@[k].1.after
                == post.mem_word(rec.memory_writes@[k].0.0),
        VMState::advances_pc_by_step(i.kind) ==> rec.pc_change.after.0 == wadd(
            rec.pc_change.before.0,
            4,
        ),
        post.spec_halted() <==> (i.kind == InsnKind::Ecall && pre.reg(5) == 0),
        forall|wa: u32|
            !VMState::rec_writes_mem(rec, wa) ==> post.mem_word(wa) == pre.mem_word(wa),
        post.regs().len() == 33,
        post.reg(0) == 0,
        !post.spec_halted() ==> (rec.spec_is_busy_loop() <==> pre.step_busy(i)),
{
    match i.kind {
        InsnKind::Sw => {
            let wa0 = wadd(pre.reg(i.rs1 as int), i.imm) / 4;
            assert forall|wa: u32| !VMState::rec_writes_mem(rec, wa) implies post.mem_word(wa)
                == pre.mem_word(wa) by {
                if wa == wa0 {
                    assert(rec.memory_writes@[0].0.0 == wa);
                    assert(VMState::rec_writes_mem(rec, wa));
                }
            }
        },
        InsnKind::Ecall => {
            if pre.reg(5) != 0 {
                let sink = wsub(pre.spec_platform().stack.end, 4) / 4;
                assert(post.mem_word(sink) == pre.mem_word(sink));
            }
        },
        _ => {},
    }
}

/// A successful step agrees with the spec-level transition function: the
/// successor state and the record the driver produced are exactly what
/// `view_step` yields for the starting state.
proof fn lemma_step_matches_view(pre: VMState, post: VMState, rec: StepRecord, i: Instruction)
    requires
        pre.wf(),
        i.wf(),
        pre.fetch_ok(),
        i == pre.cur_insn(),
        pre.insn_ok(i),
        VMState::step_effects(pre, post, rec, i),
    ensures
        view_step(pre.spec_program(), pre.spec_platform(), pre.model(), rec.cycle)
            == (StepView::Next { s2: post.model(), rec: rec.model() }),
{
    let expected = StepView::Next { s2: post.model(), rec: rec.model() };
    match i.kind {
        InsnKind::Add => {
            assert(view_step(pre.spec_program(), pre.spec_platform(), pre.model(), rec.cycle)
                =~~= expected);
        },
        InsnKind::Sub => {
            assert(view_step(pre.spec_program(), pre.spec_platform(), pre.model(), rec.cycle)
                =~~= expected);
        },
        InsnKind::Addi => {
            assert(view_step(pre.spec_program(), pre.spec_platform(), pre.model(), rec.cycle)
                =~~= expected);
        },
        InsnKind::Lw => {
            assert(view_step(pre.spec_program(), pre.spec_platform(), pre.model(), rec.cycle)
                =~~= expected);
        },
        InsnKind::Sw => {
            assert(view_step(pre.spec_program(), pre.spec_platform(), pre.model(), rec.cycle)
                =~~= expected);
        },
        InsnKind::Jal => {
            assert(view_step(pre.spec_program(), pre.spec_platform(), pre.model(), rec.cycle)
                =~~= expected);
        },
        InsnKind::Beq => {
            assert(view_step(pre.spec_program(), pre.spec_platform(), pre.model(), rec.cycle)
                =~~= expected);
        },
        InsnKind::Bne => {
            assert(view_step(pre.spec_program(), pre.spec_platform(), pre.model(), rec.cycle)
                =~~= expected);
        },
        InsnKind::Ecall => {
            assert(view_step(pre.spec_program(), pre.spec_platform(), pre.model(), rec.cycle)
                =~~= expected);
        },
        InsnKind::Invalid => {
            assert(false);
        },
    }
}

/// The machine state and the side effects of operations on it.
pub struct VMState {
    program: Program,
    platform: Platform,
    pc: Word,
    /// Maps a word address (a byte address divided by four) to a word.
    /// An absent address reads as zero.
    memory: HashMap<u32, Word>,
    registers: Vec<Word>,
    halted: bool,
    tracer: Tracer,
}

impl VMState {
    /// The number of registers the machine uses: 32 architectural registers
    /// plus one sink register for dark writes to x0.
    pub const REG_COUNT: usize = 33;

    pub closed spec fn spec_pc(self) -> Word {
        self.pc
    }

    pub closed spec fn spec_halted(&self) -> bool {
        self.halted
    }

    pub closed spec fn spec_program(self) -> Program {
        self.program
    }

    pub closed spec fn spec_platform(self) -> Platform {
        self.platform
    }

    pub closed spec fn spec_tracer(self) -> Tracer {
        self.tracer
    }

    /// The register file as a sequence of 33 words.
    pub closed spec fn regs(self) -> Seq<Word> {
        self.registers@
    }

    /// The value of register `i`.
    pub open spec fn reg(self, i: int) -> Word {
        self.regs()[i]
    }

    /// The sparse memory contents.
    pub closed spec fn mem(self) -> Map<u32, Word> {
        self.memory@
    }

    /// The word at word address `wa`: zero when the address is absent from
    /// the sparse memory.
    pub open spec fn mem_word(self, wa: u32) -> Word {
        if self.mem().contains_key(wa) {
            self.mem()[wa]
        } else {
            0
        }
    }

    /// The register file has its fixed size.
    pub open spec fn regs_sized(self) -> bool {
        self.regs().len() == 33
    }

    /// A well-formed machine: the register file has its fixed size,
    /// register x0 holds zero, the program counter is word-aligned, and the
    /// loaded program is well formed.
    pub open spec fn wf(self) -> bool {
        &&& self.regs_sized()
        &&& self.reg(0) == 0
        &&& self.spec_pc() % 4 == 0
        &&& self.spec_program().wf()
    }

    /// The program and platform never change after construction.
    pub open spec fn same_config(pre: VMState, post: VMState) -> bool {
        &&& post.spec_program() == pre.spec_program()
        &&& post.spec_platform() == pre.spec_platform()
    }

    /// Construct a machine at the program's entry point, with zeroed
    /// registers and the program image copied into the sparse memory.
    pub fn new(platform: Platform, program: Program) -> (r: VMState)
        requires
            program.wf(),
        ensures
            r.wf(),
            r.spec_pc() == program.entry,
            !r.spec_halted(),
            r.spec_program() == program,
            r.spec_platform() == platform,
            forall|i: int| 0 <= i < 33 ==> r.reg(i) == 0,
            forall|wa: u32| r.mem_word(wa) == program.spec_image_word(wa),
            r.spec_tracer().spec_cycle() == 0,
            r.spec_tracer().cur().spec_clear(),
    {
        let pc = program.entry;
        let mut registers: Vec<Word> = Vec::new();
        let mut i: usize = 0;
        while i < 33
            invariant
                i <= 33,
                registers@.len() == i,
                forall|j: int| 0 <= j < i ==> registers@[j] == 0,
            decreases 33 - i,
        {
            registers.push(0);
            i = i + 1;
        }
        let mut vm = VMState {
            pc,
            platform,
            program,
            memory: HashMap::new(),
            registers,
            halted: false,
            tracer: Tracer::new(),
        };
        let ghost img = vm.program.image@;
        let n = vm.program.image.len();
        let mut k: usize = 0;
        while k < n
            invariant
                k <= n,
                n == img.len(),
                vm.program.image@ == img,
                forall|wa: u32| vm.mem_word(wa) == image_word(img.take(k as int), wa),
                vm.regs() == Seq::new(33, |j: int| 0u32),
                vm.spec_pc() == pc,
                !vm.spec_halted(),
                vm.spec_platform() == platform,
                vm.spec_program() == program,
                vm.spec_tracer().spec_cycle() == 0,
                vm.spec_tracer().cur().spec_clear(),
            decreases n - k,
        {
            let (a, v) = vm.program.image[k];
            let ghost prev = vm;
            vm.init_memory(ByteAddr(a).waddr(), v);
            proof {
                assert(img.take(k + 1).drop_last() =~= img.take(k as int));
                assert forall|wa: u32| vm.mem_word(wa) == image_word(
                    img.take(k + 1),
                    wa,
                ) by {
                    if wa == img[k as int].0 / 4 {
                        assert(vm.mem().contains_key(wa));
                    } else {
                        assert(prev.mem_word(wa) == image_word(img.take(k as int), wa));
                        assert(vm.mem_word(wa) == prev.mem_word(wa));
                    }
                }
            }
            k = k + 1;
        }
        proof {
            assert(img.take(n as int) =~= img);
        }
        vm
    }

    #[verifier::when_used_as_spec(spec_halted)]
    pub fn halted(&self) -> (r: bool)
        ensures
            r == self.spec_halted(),
    {
        self.halted
    }

    pub fn tracer(&self) -> (r: &Tracer)
        ensures
            *r == self.spec_tracer(),
    {
        &self.tracer
    }

    pub fn platform(&self) -> (r: &Platform)
        ensures
            *r == self.spec_platform(),
    {
        &self.platform
    }

    pub fn program(&self) -> (r: &Program)
        ensures
            *r == self.spec_program(),
    {
        &self.program
    }

    /// Set a word in memory without side effects: nothing is recorded.
    pub fn init_memory(&mut self, addr: WordAddr, value: Word)
        ensures
            final(self).mem() == old(self).mem().insert(addr.0, value),
            final(self).regs() == old(self).regs(),
            final(self).spec_pc() == old(self).spec_pc(),
            final(self).spec_halted() == old(self).spec_halted(),
            final(self).spec_tracer() == old(self).spec_tracer(),
            VMState::same_config(*old(self), *final(self)),
    {
        self.memory.insert(addr.0, value);
    }

    /// Pre-seed a register before execution, without recording anything.
    /// Writing a nonzero word to x0 leaves the machine malformed; test
    /// harnesses only.
    pub fn init_register_unsafe(&mut self, idx: RegIdx, value: Word)
        requires
            old(self).regs_sized(),
            idx < 33,
        ensures
            final(self).regs() == old(self).regs().update(idx as int, value),
            final(self).mem() == old(self).mem(),
            final(self).spec_pc() == old(self).spec_pc(),
            final(self).spec_halted() == old(self).spec_halted(),
            final(self).spec_tracer() == old(self).spec_tracer(),
            VMState::same_config(*old(self), *final(self)),
    {
        self.registers.set(idx, value);
    }

    /// The value of a register, without side effects: the tracer is not
    /// touched.
    pub fn peek_register(&self, idx: RegIdx) -> (r: Word)
        requires
            self.regs_sized(),
            idx < 33,
        ensures
            r == self.reg(idx as int),
    {
        self.registers[idx]
    }

    /// The value of a memory word, without side effects: the tracer is not
    /// touched. An address never stored reads as zero.
    pub fn peek_memory(&self, addr: WordAddr) -> (r: Word)
        ensures
            r == self.mem_word(addr.0),
    {
        match self.memory.get(&addr.0) {
            Some(v) => *v,
            None => 0,
        }
    }

    /// Load a register and record the read. Only the 32 architectural
    /// registers are exposed; the dark-write sink is not. Register x0 is
    /// observed as its architectural value.
    pub fn load_register(&mut self, idx: RegIdx) -> (r: Word)
        requires
            old(self).regs_sized(),
            idx < 32,
        ensures
            r == old(self).reg(idx as int),
            final(self).spec_tracer().spec_cycle() == old(self).spec_tracer().spec_cycle(),
            StepRecord::only_reg_read_added(
                old(self).spec_tracer().cur(),
                final(self).spec_tracer().cur(),
                idx,
                r,
            ),
            final(self).regs() == old(self).regs(),
            final(self).mem() == old(self).mem(),
            final(self).spec_pc() == old(self).spec_pc(),
            final(self).spec_halted() == old(self).spec_halted(),
            VMState::same_config(*old(self), *final(self)),
    {
        let value = self.registers[idx];
        self.tracer.load_register(idx, value);
        value
    }

    /// Store a register and record the write. A write to x0 is dropped
    /// entirely: nothing is recorded and nothing changes.
    pub fn store_register(&mut self, idx: RegIdx, after: Word)
        requires
            old(self).regs_sized(),
            idx < 33,
        ensures
            idx == 0 ==> *final(self) == *old(self),
            idx != 0 ==> {
                &&& final(self).regs() == old(self).regs().update(idx as int, after)
                &&& final(self).spec_tracer().spec_cycle() == old(
                    self,
                ).spec_tracer().spec_cycle()
                &&& StepRecord::only_reg_write_added(
                    old(self).spec_tracer().cur(),
                    final(self).spec_tracer().cur(),
                    idx,
                    Change { before: old(self).reg(idx as int), after },
                )
            },
            final(self).mem() == old(self).mem(),
            final(self).spec_pc() == old(self).spec_pc(),
            final(self).spec_halted() == old(self).spec_halted(),
            VMState::same_config(*old(self), *final(self)),
    {
        if idx != 0 {
            let before = self.registers[idx];
            self.tracer.store_register(idx, Change { before, after });
            self.registers.set(idx, after);
        }
    }

    /// Load a memory word and record the read. An address never stored
    /// reads as zero, and that zero is what the record shows.
    pub fn load_memory(&mut self, addr: WordAddr) -> (r: Word)
        ensures
            r == old(self).mem_word(addr.0),
            final(self).spec_tracer().spec_cycle() == old(self).spec_tracer().spec_cycle(),
            StepRecord::only_mem_read_added(
                old(self).spec_tracer().cur(),
                final(self).spec_tracer().cur(),
                addr,
                r,
            ),
            final(self).regs() == old(self).regs(),
            final(self).mem() == old(self).mem(),
            final(self).spec_pc() == old(self).spec_pc(),
            final(self).spec_halted() == old(self).spec_halted(),
            VMState::same_config(*old(self), *final(self)),
    {
        let value = self.peek_memory(addr);
        self.tracer.load_memory(addr, value);
        value
    }

    /// Store a memory word and record the write with its before/after
    /// values.
    pub fn store_memory(&mut self, addr: WordAddr, after: Word)
        ensures
            final(self).mem() == old(self).mem().insert(addr.0, after),
            final(self).spec_tracer().spec_cycle() == old(self).spec_tracer().spec_cycle(),
            StepRecord::only_mem_write_added(
                old(self).spec_tracer().cur(),
                final(self).spec_tracer().cur(),
                addr,
                Change { before: old(self).mem_word(addr.0), after },
            ),
            final(self).regs() == old(self).regs(),
            final(self).spec_pc() == old(self).spec_pc(),
            final(self).spec_halted() == old(self).spec_halted(),
            VMState::same_config(*old(self), *final(self)),
    {
        let before = self.peek_memory(addr);
        self.tracer.store_memory(addr, Change { before, after });
        self.memory.insert(addr.0, after);
    }

    /// The current program counter. Never touches the tracer.
    pub fn get_pc(&self) -> (r: ByteAddr)
        ensures
            r == ByteAddr(self.spec_pc()),
    {
        ByteAddr(self.pc)
    }

    /// Overwrite the program counter. Never touches the tracer. The
    /// program counter stays word-aligned.
    pub fn set_pc(&mut self, after: ByteAddr)
        requires
            after.0 % 4 == 0,
        ensures
            final(self).spec_pc() == after.0,
            final(self).regs() == old(self).regs(),
            final(self).mem() == old(self).mem(),
            final(self).spec_halted() == old(self).spec_halted(),
            final(self).spec_tracer() == old(self).spec_tracer(),
            VMState::same_config(*old(self), *final(self)),
    {
        self.pc = after.0;
    }

    /// Fetch the instruction under the given word address, and record the
    /// fetch on a hit. A miss means the program counter left the program's
    /// instruction range; nothing is recorded then.
    pub fn fetch(&mut self, pc: WordAddr) -> (r: Option<Instruction>)
        requires
            old(self).spec_tracer().cur().fetched is None,
        ensures
            ({
                let rel = wsub(pc.spec_baddr().0, old(self).spec_program().base_address);
                let idx = rel as int / 4;
                &&& (r is Some <==> idx < old(self).spec_program().instructions@.len())
                &&& (r is Some ==> {
                    &&& r->0 == old(self).spec_program().instructions@[idx]
                    &&& final(self).spec_tracer().spec_cycle() == old(
                        self,
                    ).spec_tracer().spec_cycle()
                    &&& StepRecord::only_fetch_added(
                        old(self).spec_tracer().cur(),
                        final(self).spec_tracer().cur(),
                        pc,
                        r->0,
                    )
                })
                &&& (r is None ==> *final(self) == *old(self))
            }),
            final(self).regs() == old(self).regs(),
            final(self).mem() == old(self).mem(),
            final(self).spec_pc() == old(self).spec_pc(),
            final(self).spec_halted() == old(self).spec_halted(),
            VMState::same_config(*old(self), *final(self)),
    {
        let byte_pc = pc.baddr();
        let relative_pc = byte_pc.0.wrapping_sub(self.program.base_address);
        let idx = (relative_pc / 4) as usize;
        if idx < self.program.instructions.len() {
            let insn = self.program.instructions[idx];
            self.tracer.fetch(pc, insn);
            Some(insn)
        } else {
            None
        }
    }

    /// Record the post-instruction program counter, forming the step's
    /// `pc_change` together with the snapshot taken at fetch.
    pub fn on_normal_end(&mut self, _decoded: &Instruction)
        ensures
            final(self).spec_tracer().spec_cycle() == old(self).spec_tracer().spec_cycle(),
            StepRecord::only_pc_stored(
                old(self).spec_tracer().cur(),
                final(self).spec_tracer().cur(),
                ByteAddr(old(self).spec_pc()),
            ),
            final(self).regs() == old(self).regs(),
            final(self).mem() == old(self).mem(),
            final(self).spec_pc() == old(self).spec_pc(),
            final(self).spec_halted() == old(self).spec_halted(),
            VMState::same_config(*old(self), *final(self)),
    {
        let pc = self.pc;
        self.tracer.store_pc(ByteAddr(pc));
    }

    /// Whether the platform allows a data load from this byte address.
    pub fn check_data_load(&self, addr: ByteAddr) -> (r: bool)
        ensures
            r == self.spec_platform().spec_can_read(addr.0),
    {
        self.platform.can_read(addr.0)
    }

    /// Whether the platform allows a data store to this byte address.
    pub fn check_data_store(&self, addr: ByteAddr) -> (r: bool)
        ensures
            r == self.spec_platform().spec_can_write(addr.0),
    {
        self.platform.can_write(addr.0)
    }

    /// A fatal trap: the step sequence terminates with this cause. The
    /// state is not updated.
    pub fn trap(&self, cause: TrapCause) -> (r: Result<bool, VMError>)
        ensures
            r == Result::<bool, VMError>::Err(VMError::Trap(cause)),
    {
        Err(VMError::Trap(cause))
    }

    /// The architectural state as a mathematical value.
    pub open spec fn model(self) -> VMView {
        VMView {
            pc: self.spec_pc(),
            regs: self.regs(),
            mem: self.mem(),
            halted: self.spec_halted(),
        }
    }

    /// The index of the instruction under the program counter.
    pub open spec fn fetch_idx(self) -> int {
        view_fetch_idx(self.spec_program(), self.model())
    }

    /// Whether the program counter lies in the program's instruction range.
    pub open spec fn fetch_ok(self) -> bool {
        view_fetch_ok(self.spec_program(), self.model())
    }

    /// The instruction under the program counter.
    pub open spec fn cur_insn(self) -> Instruction {
        view_cur_insn(self.spec_program(), self.model())
    }

    /// Whether this instruction executes without a trap in this state: data
    /// accesses must be word-aligned and allowed by the platform, and an
    /// ecall must carry the halt code unless permissive mode is on.
    pub open spec fn insn_ok(self, i: Instruction) -> bool {
        view_insn_ok(self.spec_platform(), self.model(), i)
    }

    /// The error a trapping instruction produces in this state. Only
    /// meaningful when `insn_ok` is false.
    pub open spec fn step_err(self, i: Instruction) -> VMError {
        view_step_err(self.model(), i)
    }

    /// The register file after a write of `v` to `rd`: a write to x0 is
    /// dropped.
    pub open spec fn regs_write_rd(pre: Seq<Word>, rd: RegIdx, v: Word) -> Seq<Word> {
        if rd == 0 {
            pre
        } else {
            pre.update(rd as int, v)
        }
    }

    /// The register-write entries a write of `v` to `rd` leaves in the
    /// record: none for x0.
    pub open spec fn rd_writes(regs: Seq<Word>, rd: RegIdx, v: Word) -> Seq<
        (RegIdx, Change<Word>),
    > {
        if rd == 0 {
            Seq::empty()
        } else {
            seq![(rd, Change { before: regs[rd as int], after: v })]
        }
    }

    /// What a register-arithmetic instruction does: read both source
    /// registers, write `v` to the destination, and fall through.
    pub open spec fn rtype_effects(
        pre: VMState,
        post: VMState,
        rec: StepRecord,
        i: Instruction,
        v: Word,
    ) -> bool {
        &&& post.spec_pc() == wadd(pre.spec_pc(), 4)
        &&& !post.spec_halted()
        &&& post.mem() == pre.mem()
        &&& post.regs() == VMState::regs_write_rd(pre.regs(), i.rd, v)
        &&& rec.register_reads@ =~= seq![
            (i.rs1, pre.reg(i.rs1 as int)),
            (i.rs2, pre.reg(i.rs2 as int)),
        ]
        &&& rec.register_writes@ =~= VMState::rd_writes(pre.regs(), i.rd, v)
        &&& rec.memory_reads@.len() == 0
        &&& rec.memory_writes@.len() == 0
    }

    /// The full effect of executing instruction `i` in state `pre`: the
    /// successor state `post` and the emitted record `rec` (its cycle index
    /// aside). This is the transition relation of the machine.
    pub open spec fn step_effects(
        pre: VMState,
        post: VMState,
        rec: StepRecord,
        i: Instruction,
    ) -> bool {
        let pc4 = wadd(pre.spec_pc(), 4);
        &&& VMState::same_config(pre, post)
        &&& rec.fetched == Some(i)
        &&& rec.pc_change.before == ByteAddr(pre.spec_pc())
        &&& rec.pc_change.after == ByteAddr(post.spec_pc())
        &&& rec.syscall is None
        &&& match i.kind {
            InsnKind::Add => VMState::rtype_effects(
                pre,
                post,
                rec,
                i,
                alu_result(i.kind, pre.reg(i.rs1 as int), pre.reg(i.rs2 as int)),
            ),
            InsnKind::Sub => VMState::rtype_effects(
                pre,
                post,
                rec,
                i,
                alu_result(i.kind, pre.reg(i.rs1 as int), pre.reg(i.rs2 as int)),
            ),
            InsnKind::Addi => {
                let a = pre.reg(i.rs1 as int);
                let v = alu_result(i.kind, a, i.imm);
                &&& post.spec_pc() == pc4
                &&& !post.spec_halted()
                &&& post.mem() == pre.mem()
                &&& post.regs() == VMState::regs_write_rd(pre.regs(), i.rd, v)
                &&& rec.register_reads@ =~= seq![(i.rs1, a)]
                &&& rec.register_writes@ =~= VMState::rd_writes(pre.regs(), i.rd, v)
                &&& rec.memory_reads@.len() == 0
                &&& rec.memory_writes@.len() == 0
            },
            InsnKind::Lw => {
                let a = pre.reg(i.rs1 as int);
                let addr = wadd(a, i.imm);
                let wa = addr / 4;
                let v = pre.mem_word(wa);
                &&& post.spec_pc() == pc4
                &&& !post.spec_halted()
                &&& post.mem() == pre.mem()
                &&& post.regs() == VMState::regs_write_rd(pre.regs(), i.rd, v)
                &&& rec.register_reads@ =~= seq![(i.rs1, a)]
                &&& rec.register_writes@ =~= VMState::rd_writes(pre.regs(), i.rd, v)
                &&& rec.memory_reads@ =~= seq![(WordAddr(wa), v)]
                &&& rec.memory_writes@.len() == 0
            },
            InsnKind::Sw => {
                let a = pre.reg(i.rs1 as int);
                let b = pre.reg(i.rs2 as int);
                let addr = wadd(a, i.imm);
                let wa = addr / 4;
                &&& post.spec_pc() == pc4
                &&& !post.spec_halted()
                &&& post.mem() == pre.mem().insert(wa, b)
                &&& post.regs() == pre.regs()
                &&& rec.register_reads@ =~= seq![(i.rs1, a), (i.rs2, b)]
                &&& rec.register_writes@.len() == 0
                &&& rec.memory_reads@.len() == 0
                &&& rec.memory_writes@ =~= seq![
                    (WordAddr(wa), Change { before: pre.mem_word(wa), after: b }),
                ]
            },
            InsnKind::Jal => {
                let target = wadd(pre.spec_pc(), i.imm);
                &&& post.spec_pc() == target
                &&& !post.spec_halted()
                &&& post.mem() == pre.mem()
                &&& post.regs() == VMState::regs_write_rd(pre.regs(), i.rd, pc4)
                &&& rec.register_reads@.len() == 0
                &&& rec.register_writes@ =~= VMState::rd_writes(pre.regs(), i.rd, pc4)
                &&& rec.memory_reads@.len() == 0
                &&& rec.memory_writes@.len() == 0
            },
            InsnKind::Beq => {
                let a = pre.reg(i.rs1 as int);
                let b = pre.reg(i.rs2 as int);
                &&& post.spec_pc() == (if a == b {
                    wadd(pre.spec_pc(), i.imm)
                } else {
                    pc4
                })
                &&& !post.spec_halted()
                &&& post.mem() == pre.mem()
                &&& post.regs() == pre.regs()
                &&& rec.register_reads@ =~= seq![(i.rs1, a), (i.rs2, b)]
                &&& rec.register_writes@.len() == 0
                &&& rec.memory_reads@.len() == 0
                &&& rec.memory_writes@.len() == 0
            },
            InsnKind::Bne => {
                let a = pre.reg(i.rs1 as int);
                let b = pre.reg(i.rs2 as int);
                &&& post.spec_pc() == (if a != b {
                    wadd(pre.spec_pc(), i.imm)
                } else {
                    pc4
                })
                &&& !post.spec_halted()
                &&& post.mem() == pre.mem()
                &&& post.regs() == pre.regs()
                &&& rec.register_reads@ =~= seq![(i.rs1, a), (i.rs2, b)]
                &&& rec.register_writes@.len() == 0
                &&& rec.memory_reads@.len() == 0
                &&& rec.memory_writes@.len() == 0
            },
            InsnKind::Ecall => {
                let f = pre.reg(5);
                let arg0 = pre.reg(10);
                &&& rec.register_reads@ =~= seq![(5usize, f), (10usize, arg0)]
                &&& rec.memory_reads@.len() == 0
                &&& if f == 0 {
                    &&& post.spec_pc() == 0
                    &&& post.spec_halted()
                    &&& post.mem() == pre.mem()
                    &&& post.regs() == pre.regs()
                    &&& rec.register_writes@.len() == 0
                    &&& rec.memory_writes@.len() == 0
                } else {
                    let sink = wsub(pre.spec_platform().stack.end, 4) / 4;
                    let v = pre.mem_word(sink);
                    &&& pre.spec_platform().unsafe_ecall_nop
                    &&& post.spec_pc() == pc4
                    &&& !post.spec_halted()
                    &&& post.mem() == pre.mem().insert(sink, v)
                    &&& post.regs() == pre.regs().update(32, 0u32)
                    &&& rec.register_writes@ =~= seq![
                        (32usize, Change { before: pre.reg(32), after: 0u32 }),
                    ]
                    &&& rec.memory_writes@ =~= seq![(WordAddr(sink), Change { before: v, after: v })]
                }
            },
            InsnKind::Invalid => false,
        }
    }

    /// Whether executing `i` in this state makes no progress: the program
    /// counter stays put and nothing is written. Only a self-jump or a
    /// self-branch with no other effect qualifies.
    pub open spec fn step_busy(self, i: Instruction) -> bool {
        match i.kind {
            InsnKind::Jal => i.rd == 0 && i.imm == 0,
            InsnKind::Beq => self.reg(i.rs1 as int) == self.reg(i.rs2 as int) && i.imm == 0,
            InsnKind::Bne => self.reg(i.rs1 as int) != self.reg(i.rs2 as int) && i.imm == 0,
            _ => false,
        }
    }

    /// Whether the record holds a write to word address `wa`.
    pub open spec fn rec_writes_mem(rec: StepRecord, wa: u32) -> bool {
        exists|k: int| 0 <= k < rec.memory_writes@.len() && (#[trigger] rec.memory_writes@[k]).0.0
            == wa
    }

    /// Fetch, execute, and commit one instruction, recording everything in
    /// the tracer's working buffer; the buffer is not finalized here.
    fn exec_step(&mut self) -> (r: Result<(), VMError>)
        requires
            old(self).wf(),
            !old(self).spec_halted(),
            old(self).spec_tracer().cur().spec_clear(),
        ensures
            final(self).spec_tracer().spec_cycle() == old(self).spec_tracer().spec_cycle(),
            VMState::same_config(*old(self), *final(self)),
            r is Ok <==> (old(self).fetch_ok() && old(self).insn_ok(old(self).cur_insn())),
            r is Ok ==> VMState::step_effects(
                *old(self),
                *final(self),
                final(self).spec_tracer().cur(),
                old(self).cur_insn(),
            ),
            r is Ok ==> final(self).wf(),
            r is Err ==> final(self).spec_halted() == old(self).spec_halted(),
            !old(self).fetch_ok() ==> r == Err::<(), VMError>(
                VMError::Trap(TrapCause::InstructionAccessFault(ByteAddr(old(self).spec_pc()))),
            ),
            old(self).fetch_ok() && !old(self).insn_ok(old(self).cur_insn()) ==> r == Err::<
                (),
                VMError,
            >(old(self).step_err(old(self).cur_insn())),
    {
        let pc = self.pc;
        proof {
            crate::addr::lemma_waddr_baddr(ByteAddr(pc));
        }
        let insn_opt = self.fetch(ByteAddr(pc).waddr());
        let insn = match insn_opt {
            Some(i) => i,
            None => {
                return Err(VMError::Trap(TrapCause::InstructionAccessFault(ByteAddr(pc))));
            },
        };
        proof {
            assert(insn == old(self).cur_insn());
            assert(insn.wf());
            crate::rv32im::lemma_wadd_aligned(pc, 4);
        }
        match insn.kind {
            InsnKind::Add => {
                let a = self.load_register(insn.rs1);
                let b = self.load_register(insn.rs2);
                self.store_register(insn.rd, a.wrapping_add(b));
                self.set_pc(ByteAddr(pc.wrapping_add(4)));
                self.on_normal_end(&insn);
                Ok(())
            },
            InsnKind::Sub => {
                let a = self.load_register(insn.rs1);
                let b = self.load_register(insn.rs2);
                self.store_register(insn.rd, a.wrapping_sub(b));
                self.set_pc(ByteAddr(pc.wrapping_add(4)));
                self.on_normal_end(&insn);
                Ok(())
            },
            InsnKind::Addi => {
                let a = self.load_register(insn.rs1);
                self.store_register(insn.rd, a.wrapping_add(insn.imm));
                self.set_pc(ByteAddr(pc.wrapping_add(4)));
                self.on_normal_end(&insn);
                Ok(())
            },
            InsnKind::Lw => {
                let a = self.load_register(insn.rs1);
                let addr = a.wrapping_add(insn.imm);
                if addr % 4 != 0 {
                    return Err(VMError::Trap(TrapCause::LoadAddressMisaligned(ByteAddr(addr))));
                }
                if !self.check_data_load(ByteAddr(addr)) {
                    return Err(VMError::Trap(TrapCause::LoadAccessFault(ByteAddr(addr))));
                }
                let v = self.load_memory(ByteAddr(addr).waddr());
                self.store_register(insn.rd, v);
                self.set_pc(ByteAddr(pc.wrapping_add(4)));
                self.on_normal_end(&insn);
                Ok(())
            },
            InsnKind::Sw => {
                let a = self.load_register(insn.rs1);
                let b = self.load_register(insn.rs2);
                let addr = a.wrapping_add(insn.imm);
                if addr % 4 != 0 {
                    return Err(VMError::Trap(TrapCause::StoreAddressMisaligned(ByteAddr(addr))));
                }
                if !self.check_data_store(ByteAddr(addr)) {
                    return Err(VMError::Trap(TrapCause::StoreAccessFault(ByteAddr(addr))));
                }
                self.store_memory(ByteAddr(addr).waddr(), b);
                self.set_pc(ByteAddr(pc.wrapping_add(4)));
                self.on_normal_end(&insn);
                Ok(())
            },
            InsnKind::Jal => {
                self.store_register(insn.rd, pc.wrapping_add(4));
                proof {
                    crate::rv32im::lemma_wadd_aligned(pc, insn.imm);
                }
                self.set_pc(ByteAddr(pc.wrapping_add(insn.imm)));
                self.on_normal_end(&insn);
                Ok(())
            },
            InsnKind::Beq => {
                let a = self.load_register(insn.rs1);
                let b = self.load_register(insn.rs2);
                proof {
                    crate::rv32im::lemma_wadd_aligned(pc, insn.imm);
                }
                if a == b {
                    self.set_pc(ByteAddr(pc.wrapping_add(insn.imm)));
                } else {
                    self.set_pc(ByteAddr(pc.wrapping_add(4)));
                }
                self.on_normal_end(&insn);
                Ok(())
            },
            InsnKind::Bne => {
                let a = self.load_register(insn.rs1);
                let b = self.load_register(insn.rs2);
                proof {
                    crate::rv32im::lemma_wadd_aligned(pc, insn.imm);
                }
                if a != b {
                    self.set_pc(ByteAddr(pc.wrapping_add(insn.imm)));
                } else {
                    self.set_pc(ByteAddr(pc.wrapping_add(4)));
                }
                self.on_normal_end(&insn);
                Ok(())
            },
            InsnKind::Ecall => {
                match self.ecall() {
                    Ok(_) => {
                        self.on_normal_end(&insn);
                        Ok(())
                    },
                    Err(e) => Err(e),
                }
            },
            InsnKind::Invalid => {
                Err(VMError::Trap(TrapCause::IllegalInstruction(insn.imm)))
            },
        }
    }

    /// The kinds that fall through to the next instruction: not a jump, not
    /// a branch, not an ecall.
    pub open spec fn advances_pc_by_step(kind: InsnKind) -> bool {
        ||| kind == InsnKind::Add
        ||| kind == InsnKind::Sub
        ||| kind == InsnKind::Addi
        ||| kind == InsnKind::Lw
        ||| kind == InsnKind::Sw
    }

    /// Everything `step` promises: the contract of one driver step taken
    /// without a syscall handler, over the state before (`pre`) and after
    /// (`post`) and the result.
    pub open spec fn step_contract(
        pre: VMState,
        post: VMState,
        r: Result<StepRecord, VMError>,
    ) -> bool {
        &&& VMState::same_config(pre, post)
        &&& (r is Ok ==> ({
            let rec = r->Ok_0;
            let i = pre.cur_insn();
            &&& pre.fetch_ok() && pre.insn_ok(i)
            &&& VMState::step_effects(pre, post, rec, i)
            &&& post.wf()
            &&& post.spec_tracer().cur().spec_clear()
            &&& post.spec_tracer().spec_cycle() == pre.spec_tracer().spec_cycle() + 1
            &&& rec.cycle == pre.spec_tracer().spec_cycle()
            &&& (forall|k: int|
                0 <= k < rec.register_writes@.len() ==> (#[trigger] rec.register_writes@[k]).0
                    != 0)
            &&& (forall|k: int|
                0 <= k < rec.register_writes@.len() ==> (
                #[trigger] rec.register_writes@[k]).1.before == pre.reg(
                    rec.register_writes@[k].0 as int,
                ) && rec.register_writes@[k].1.after == post.reg(
                    rec.register_writes@[k].0 as int,
                ))
            &&& (forall|k: int|
                0 <= k < rec.memory_writes@.len() ==> (#[trigger] rec.memory_writes@[k]).1.before
                    == pre.mem_word(rec.memory_writes@[k].0.0) && rec.memory_writes@[k].1.after
                    == post.mem_word(rec.memory_writes@[k].0.0))
            &&& (VMState::advances_pc_by_step(i.kind) ==> rec.pc_change.after.0 == wadd(
                rec.pc_change.before.0,
                4,
            ))
            &&& (rec.syscall is Some ==> rec.register_writes@.len() == 0
                && rec.memory_writes@.len() == 0)
            &&& (post.spec_halted() <==> (i.kind == InsnKind::Ecall && pre.reg(5) == 0))
            &&& (forall|wa: u32|
                !VMState::rec_writes_mem(rec, wa) ==> post.mem_word(wa) == pre.mem_word(wa))
        }))
        &&& (!pre.fetch_ok() ==> r == Err::<StepRecord, VMError>(
            VMError::Trap(TrapCause::InstructionAccessFault(ByteAddr(pre.spec_pc()))),
        ))
        &&& (pre.fetch_ok() && !pre.insn_ok(pre.cur_insn()) ==> r == Err::<StepRecord, VMError>(
            pre.step_err(pre.cur_insn()),
        ))
        &&& (pre.fetch_ok() && pre.insn_ok(pre.cur_insn()) ==> (r is Ok <==> !pre.step_busy(
            pre.cur_insn(),
        )))
        &&& (pre.fetch_ok() && pre.insn_ok(pre.cur_insn()) && pre.step_busy(pre.cur_insn()) ==> r
            == Err::<StepRecord, VMError>(VMError::BusyLoop))
        &&& (r is Err ==> !post.spec_halted())
    }

    /// Execute one instruction and finalize its record.
    ///
    /// The record's cycle index is the number of steps finalized before it,
    /// counted from zero. When the finished step moved nothing — the
    /// program counter stayed put, nothing was written, no syscall — and
    /// the machine has not halted, the step fails as a busy loop instead of
    /// returning the record.
    pub fn step(&mut self) -> (r: Result<StepRecord, VMError>)
        requires
            old(self).wf(),
            !old(self).spec_halted(),
            old(self).spec_tracer().cur().spec_clear(),
            old(self).spec_tracer().spec_cycle() < u64::MAX,
        ensures
            VMState::step_contract(*old(self), *final(self), r),
    {
        match self.exec_step() {
            Err(e) => Err(e),
            Ok(()) => {
                let rec = self.tracer.advance();
                proof {
                    assert(old(self).cur_insn().wf());
                    lemma_step_effects_props(*old(self), *self, rec, old(self).cur_insn());
                }
                if rec.is_busy_loop() && !self.halted() {
                    Err(VMError::BusyLoop)
                } else {
                    Ok(rec)
                }
            },
        }
    }

    /// Execute one instruction with an external syscall handler's outcome
    /// at hand, and finalize its record.
    ///
    /// When the instruction under the program counter is an ecall whose
    /// function code is not the halt code and the handler succeeded, the
    /// returned effect bundle is applied atomically — all memory
    /// overwrites, then all register overwrites, then the program counter —
    /// and the record carries the bundle itself instead of individual
    /// change pairs. In every other case — any other instruction, the halt
    /// code, or a failed handler — the step proceeds exactly as `step`
    /// does.
    pub fn step_with_syscall(&mut self, outcome: Result<SyscallEffects, ()>) -> (r: Result<
        StepRecord,
        VMError,
    >)
        requires
            old(self).wf(),
            !old(self).spec_halted(),
            old(self).spec_tracer().cur().spec_clear(),
            old(self).spec_tracer().spec_cycle() < u64::MAX,
            outcome matches Ok(eff) ==> eff.wf(),
        ensures
            VMState::same_config(*old(self), *final(self)),
            ({
                let handled = old(self).fetch_ok() && old(self).cur_insn().kind == InsnKind::Ecall
                    && old(self).reg(5) != 0 && outcome is Ok;
                &&& (!handled ==> VMState::step_contract(*old(self), *final(self), r))
                &&& (handled ==> ({
                    let eff = outcome->Ok_0;
                    let i = old(self).cur_insn();
                    &&& r is Ok
                    &&& ({
                        let rec = r->Ok_0;
                        &&& rec.cycle == old(self).spec_tracer().spec_cycle()
                        &&& rec.fetched == Some(i)
                        &&& rec.pc_change.before == ByteAddr(old(self).spec_pc())
                        &&& rec.pc_change.after == ByteAddr(final(self).spec_pc())
                        &&& rec.syscall == Some(eff)
                        &&& rec.register_reads@ =~= seq![(5usize, old(self).reg(5))]
                        &&& rec.register_writes@.len() == 0
                        &&& rec.memory_reads@.len() == 0
                        &&& rec.memory_writes@.len() == 0
                    })
                    &&& final(self).mem() == mem_after_writes(old(self).mem(), eff.mem_values@)
                    &&& final(self).regs() == regs_after_writes(
                        old(self).regs(),
                        eff.reg_values@,
                    )
                    &&& final(self).spec_pc() == (match eff.next_pc {
                        Some(p) => p,
                        None => wadd(old(self).spec_pc(), 4),
                    })
                    &&& !final(self).spec_halted()
                    &&& final(self).wf()
                    &&& final(self).spec_tracer().cur().spec_clear()
                    &&& final(self).spec_tracer().spec_cycle() == old(
                        self,
                    ).spec_tracer().spec_cycle() + 1
                }))
            }),
    {
        let pc = self.pc;
        let relative_pc = pc.wrapping_sub(self.program.base_address);
        let idx = (relative_pc / 4) as usize;
        let handler_ecall = idx < self.program.instructions.len()
            && self.program.instructions[idx].kind == InsnKind::Ecall && self.peek_register(
            Platform::reg_ecall(),
        ) != Platform::ecall_halt();
        if handler_ecall {
            match outcome {
                Ok(effects) => {
                    proof {
                        crate::addr::lemma_waddr_baddr(ByteAddr(pc));
                    }
                    let insn_opt = self.fetch(ByteAddr(pc).waddr());
                    let insn = match insn_opt {
                        Some(x) => x,
                        None => {
                            proof {
                                assert(false);
                            }
                            return Err(VMError::Trap(TrapCause::EcallError));
                        },
                    };
                    let _function = self.load_register(Platform::reg_ecall());
                    let applied = self.apply_syscall(effects);
                    match applied {
                        Ok(()) => {},
                        Err(_) => {
                            proof {
                                assert(false);
                            }
                            return Err(VMError::Trap(TrapCause::EcallError));
                        },
                    }
                    self.on_normal_end(&insn);
                    let rec = self.tracer.advance();
                    // A record carrying a syscall bundle is never a busy
                    // loop, so the step always completes.
                    Ok(rec)
                },
                Err(()) => self.step(),
            }
        } else {
            self.step()
        }
    }

    /// Drive the machine until it halts, collecting one record per executed
    /// instruction: the eager form of `run_from`, the spec-level run. On
    /// success the records and the final state are exactly the run's; on a
    /// trap or a busy loop the run's first error is returned instead and
    /// the records of the failed run are discarded (they are obtainable by
    /// calling `step` directly).
    pub fn iter_until_halt(&mut self) -> (r: Result<Vec<StepRecord>, VMError>)
        requires
            old(self).wf(),
            old(self).spec_tracer().cur().spec_clear(),
        ensures
            VMState::same_config(*old(self), *final(self)),
            ({
                let run = run_from(
                    old(self).spec_program(),
                    old(self).spec_platform(),
                    old(self).model(),
                    old(self).spec_tracer().spec_cycle(),
                );
                match r {
                    Ok(recs) => run matches RunResult::Halted { recs: rs, end } && recs_models(
                        recs@,
                    ) == rs && final(self).model() == end,
                    Err(e) => run == (RunResult::Failed { e }),
                }
            }),
            r is Ok ==> ({
                let recs = r->Ok_0;
                &&& final(self).spec_halted()
                &&& final(self).wf()
                &&& final(self).spec_tracer().spec_cycle() == old(self).spec_tracer().spec_cycle()
                    + recs@.len()
                &&& forall|j: int|
                    0 <= j < recs@.len() ==> (#[trigger] recs@[j]).cycle == old(
                        self,
                    ).spec_tracer().spec_cycle() + j
            }),
            old(self).spec_halted() ==> r is Ok && r->Ok_0@.len() == 0,
            r is Err ==> !final(self).spec_halted(),
    {
        let mut records: Vec<StepRecord> = Vec::new();
        let ghost prog = old(self).spec_program();
        let ghost plat = old(self).spec_platform();
        let ghost m0 = old(self).model();
        let ghost c0 = old(self).spec_tracer().spec_cycle();
        let ghost run0 = run_from(prog, plat, m0, c0);
        proof {
            match run0 {
                RunResult::Halted { recs: rs, end } => {
                    assert(recs_models(records@) =~= rs.take(records@.len() as int));
                    assert(rs.skip(0) =~= rs);
                },
                RunResult::Failed { e } => {},
            }
        }
        while !self.halted()
            invariant
                self.wf(),
                self.spec_tracer().cur().spec_clear(),
                VMState::same_config(*old(self), *self),
                prog == old(self).spec_program(),
                plat == old(self).spec_platform(),
                m0 == old(self).model(),
                c0 == old(self).spec_tracer().spec_cycle(),
                run0 == run_from(prog, plat, m0, c0),
                self.spec_tracer().spec_cycle() == c0 + records@.len(),
                forall|j: int|
                    0 <= j < records@.len() ==> (#[trigger] records@[j]).cycle == c0 + j,
                old(self).spec_halted() ==> self.spec_halted() && records@.len() == 0,
                (match run0 {
                    RunResult::Halted { recs: rs, end } => {
                        &&& records@.len() <= rs.len()
                        &&& recs_models(records@) == rs.take(records@.len() as int)
                        &&& run_from(prog, plat, self.model(), self.spec_tracer().spec_cycle())
                            == (RunResult::Halted { recs: rs.skip(records@.len() as int), end })
                    },
                    RunResult::Failed { e } => run_from(
                        prog,
                        plat,
                        self.model(),
                        self.spec_tracer().spec_cycle(),
                    ) == (RunResult::Failed { e }),
                }),
            decreases u64::MAX - self.spec_tracer().spec_cycle(),
        {
            if self.tracer.cycle() == u64::MAX {
                // The cycle index is exhausted without a halt; the run
                // fails as a liveness failure rather than let the index
                // wrap.
                proof {
                    match run0 {
                        RunResult::Halted { recs: rs, end } => {
                            assert(false);
                        },
                        RunResult::Failed { e } => {},
                    }
                }
                return Err(VMError::BusyLoop);
            }
            let ghost prev = *self;
            let ghost k = records@.len() as int;
            let ghost recs_before = records@;
            match self.step() {
                Ok(rec) => {
                    records.push(rec);
                    proof {
                        let i = prev.cur_insn();
                        assert(i.wf());
                        lemma_step_effects_props(prev, *self, rec, i);
                        lemma_step_matches_view(prev, *self, rec, i);
                        assert(!(rec.model().is_busy() && !self.model().halted));
                        assert(recs_models(records@) =~= recs_before.map(
                            |j: int, x: StepRecord| x.model(),
                        ).push(rec.model()));
                        match run0 {
                            RunResult::Halted { recs: rs, end } => {
                                let tail = run_from(prog, plat, self.model(), (prev.spec_tracer().spec_cycle() + 1) as u64);
                                match tail {
                                    RunResult::Failed { e } => {
                                        assert(false);
                                    },
                                    RunResult::Halted { recs: recs2, end: end2 } => {
                                        assert(seq![rec.model()] + recs2 == rs.skip(k));
                                        assert(rs.skip(k)[0] == rs[k]);
                                        assert(rec.model() == rs[k]);
                                        assert(recs2 =~= rs.skip(k + 1)) by {
                                            assert forall|j: int| 0 <= j < recs2.len() implies recs2[j]
                                                == rs.skip(k + 1)[j] by {
                                                assert((seq![rec.model()] + recs2)[j + 1] == recs2[j]);
                                                assert(rs.skip(k)[j + 1] == rs[k + 1 + j]);
                                            }
                                        }
                                        assert(rs.take(k + 1) =~= rs.take(k).push(rs[k]));
                                        assert(recs_models(records@) =~= rs.take(k + 1));
                                    },
                                }
                            },
                            RunResult::Failed { e } => {},
                        }
                    }
                },
                Err(e) => {
                    proof {
                        let i = prev.cur_insn();
                        let c = prev.spec_tracer().spec_cycle();
                        if !prev.fetch_ok() {
                            assert(run_from(prog, plat, prev.model(), c) == (RunResult::Failed {
                                e,
                            }));
                        } else if !prev.insn_ok(i) {
                            assert(run_from(prog, plat, prev.model(), c) == (RunResult::Failed {
                                e,
                            }));
                        } else {
                            assert(prev.step_busy(i));
                            match i.kind {
                                InsnKind::Jal => {
                                    assert(wadd(prev.spec_pc(), 0) == prev.spec_pc());
                                },
                                InsnKind::Beq => {
                                    assert(wadd(prev.spec_pc(), 0) == prev.spec_pc());
                                },
                                InsnKind::Bne => {
                                    assert(wadd(prev.spec_pc(), 0) == prev.spec_pc());
                                },
                                _ => {
                                    assert(false);
                                },
                            }
                            assert(run_from(prog, plat, prev.model(), c) == (RunResult::Failed {
                                e,
                            }));
                        }
                        match run0 {
                            RunResult::Halted { recs: rs, end } => {
                                assert(false);
                            },
                            RunResult::Failed { e: e0 } => {
                                assert(e0 == e);
                            },
                        }
                    }
                    return Err(e);
                },
            }
        }
        proof {
            assert(run_from(prog, plat, self.model(), self.spec_tracer().spec_cycle())
                == (RunResult::Halted { recs: Seq::empty(), end: self.model() }));
            match run0 {
                RunResult::Failed { e } => {
                    assert(false);
                },
                RunResult::Halted { recs: rs, end } => {
                    assert(rs.skip(records@.len() as int).len() == 0);
                    assert(records@.len() == rs.len());
                    assert(rs.take(rs.len() as int) =~= rs);
                },
            }
        }
        Ok(records)
    }

    /// Handle the `ecall` instruction.
    ///
    /// The function code is loaded from `reg_ecall`. The halt code loads
    /// the exit code from `reg_arg0`, parks the program counter at zero and
    /// raises the halted flag. Any other code would dispatch to a syscall
    /// handler; the handler set is outside this core, so an unrecognized
    /// code either traps fatally or, when the platform allows permissive
    /// mode, degrades to a nop that still touches state: a dark write to
    /// the sink register and a self-referential rewrite of the top stack
    /// word, so the emitted record is non-empty.
    pub fn ecall(&mut self) -> (r: Result<bool, VMError>)
        requires
            old(self).wf(),
            !old(self).spec_halted(),
        ensures
            final(self).spec_tracer().spec_cycle() == old(self).spec_tracer().spec_cycle(),
            VMState::same_config(*old(self), *final(self)),
            ({
                let pre = old(self).spec_tracer().cur();
                let post = final(self).spec_tracer().cur();
                let f = old(self).reg(5);
                let arg0 = old(self).reg(10);
                &&& post.memory_reads@ == pre.memory_reads@
                &&& post.fetched == pre.fetched
                &&& post.syscall == pre.syscall
                &&& post.pc_change == pre.pc_change
                &&& (f == 0 ==> {
                    &&& r == Ok::<bool, VMError>(true)
                    &&& final(self).spec_halted()
                    &&& final(self).spec_pc() == 0
                    &&& final(self).regs() == old(self).regs()
                    &&& final(self).mem() == old(self).mem()
                    &&& post.register_reads@ =~= pre.register_reads@ + seq![
                        (5usize, f),
                        (10usize, arg0),
                    ]
                    &&& post.register_writes@ == pre.register_writes@
                    &&& post.memory_writes@ == pre.memory_writes@
                })
                &&& (f != 0 && old(self).spec_platform().unsafe_ecall_nop ==> {
                    let sink = wsub(old(self).spec_platform().stack.end, 4) / 4;
                    let v = old(self).mem_word(sink);
                    &&& r == Ok::<bool, VMError>(true)
                    &&& !final(self).spec_halted()
                    &&& final(self).spec_pc() == wadd(old(self).spec_pc(), 4)
                    &&& final(self).regs() == old(self).regs().update(32, 0u32)
                    &&& final(self).mem() == old(self).mem().insert(sink, v)
                    &&& post.register_reads@ =~= pre.register_reads@ + seq![
                        (5usize, f),
                        (10usize, arg0),
                    ]
                    &&& post.register_writes@ =~= pre.register_writes@ + seq![
                        (32usize, Change { before: old(self).reg(32), after: 0u32 }),
                    ]
                    &&& post.memory_writes@ =~= pre.memory_writes@ + seq![
                        (WordAddr(sink), Change { before: v, after: v }),
                    ]
                })
                &&& (f != 0 && !old(self).spec_platform().unsafe_ecall_nop ==> {
                    &&& r == Err::<bool, VMError>(VMError::Trap(TrapCause::EcallError))
                    &&& final(self).spec_halted() == old(self).spec_halted()
                    &&& final(self).spec_pc() == old(self).spec_pc()
                    &&& final(self).regs() == old(self).regs()
                    &&& final(self).mem() == old(self).mem()
                    &&& post.register_reads@ =~= pre.register_reads@ + seq![(5usize, f)]
                    &&& post.register_writes@ == pre.register_writes@
                    &&& post.memory_writes@ == pre.memory_writes@
                })
            }),
    {
        let function = self.load_register(Platform::reg_ecall());
        if function == Platform::ecall_halt() {
            let _exit_code = self.load_register(Platform::reg_arg0());
            self.halt();
            Ok(true)
        } else if self.platform.unsafe_ecall_nop {
            let _arg0 = self.load_register(Platform::reg_arg0());
            self.store_register(crate::rv32im::RD_NULL, 0);
            let addr = ByteAddr(self.platform.stack.end.wrapping_sub(4)).waddr();
            let value = self.peek_memory(addr);
            self.store_memory(addr, value);
            let pc = self.pc;
            proof {
                crate::rv32im::lemma_wadd_aligned(pc, 4);
            }
            self.set_pc(ByteAddr(pc.wrapping_add(4)));
            Ok(true)
        } else {
            self.trap(TrapCause::EcallError)
        }
    }

    /// Apply a syscall effect bundle atomically: all memory overwrites,
    /// then all register overwrites, then the program counter (the bundle's
    /// next counter, or fall-through), and only then attach the bundle to
    /// the tracer. The individual overwrites are not recorded as change
    /// pairs; the bundle itself is the trace artifact.
    pub fn apply_syscall(&mut self, effects: SyscallEffects) -> (r: Result<(), VMError>)
        requires
            old(self).regs_sized(),
            old(self).spec_pc() % 4 == 0,
            effects.wf(),
        ensures
            r is Ok,
            final(self).mem() == mem_after_writes(old(self).mem(), effects.mem_values@),
            final(self).regs() == regs_after_writes(old(self).regs(), effects.reg_values@),
            final(self).regs().len() == old(self).regs().len(),
            final(self).reg(0) == old(self).reg(0),
            final(self).spec_pc() == (match effects.next_pc {
                Some(p) => p,
                None => wadd(old(self).spec_pc(), 4),
            }),
            final(self).spec_pc() % 4 == 0,
            final(self).spec_halted() == old(self).spec_halted(),
            final(self).spec_tracer().spec_cycle() == old(self).spec_tracer().spec_cycle(),
            StepRecord::only_syscall_added(
                old(self).spec_tracer().cur(),
                final(self).spec_tracer().cur(),
                effects,
            ),
            VMState::same_config(*old(self), *final(self)),
    {
        let ghost all_mem = effects.mem_values@;
        let n = effects.mem_values.len();
        let mut k: usize = 0;
        while k < n
            invariant
                k <= n,
                n == all_mem.len(),
                effects.mem_values@ == all_mem,
                self.mem() == mem_after_writes(old(self).mem(), all_mem.take(k as int)),
                self.regs() == old(self).regs(),
                self.spec_pc() == old(self).spec_pc(),
                self.spec_halted() == old(self).spec_halted(),
                self.spec_tracer() == old(self).spec_tracer(),
                VMState::same_config(*old(self), *self),
            decreases n - k,
        {
            let (wa, v) = effects.mem_values[k];
            self.init_memory(wa, v);
            proof {
                assert(all_mem.take(k + 1).drop_last() =~= all_mem.take(k as int));
            }
            k = k + 1;
        }
        proof {
            assert(all_mem.take(n as int) =~= all_mem);
        }
        let ghost all_regs = effects.reg_values@;
        let m = effects.reg_values.len();
        let mut j: usize = 0;
        while j < m
            invariant
                j <= m,
                m == all_regs.len(),
                effects.reg_values@ == all_regs,
                effects.wf(),
                self.mem() == mem_after_writes(old(self).mem(), all_mem),
                self.regs() == regs_after_writes(old(self).regs(), all_regs.take(j as int)),
                self.regs().len() == old(self).regs().len(),
                old(self).regs_sized(),
                self.spec_pc() == old(self).spec_pc(),
                self.spec_halted() == old(self).spec_halted(),
                self.spec_tracer() == old(self).spec_tracer(),
                VMState::same_config(*old(self), *self),
            decreases m - j,
        {
            let (idx, v) = effects.reg_values[j];
            assert(0 < idx < 33);
            self.registers.set(idx, v);
            proof {
                assert(all_regs.take(j + 1).drop_last() =~= all_regs.take(j as int));
            }
            j = j + 1;
        }
        proof {
            assert(all_regs.take(m as int) =~= all_regs);
            lemma_regs_after_writes_zero(old(self).regs(), all_regs);
        }
        let next_pc = match effects.next_pc {
            Some(p) => p,
            None => {
                let pc = self.pc;
                proof {
                    crate::rv32im::lemma_wadd_aligned(pc, 4);
                }
                pc.wrapping_add(4)
            },
        };
        self.set_pc(ByteAddr(next_pc));
        self.tracer.track_syscall(effects);
        Ok(())
    }

    /// Terminate: the program counter is parked at zero and the halted flag
    /// is raised, so that no further step may be produced.
    fn halt(&mut self)
        ensures
            final(self).spec_pc() == 0,
            final(self).spec_halted(),
            final(self).regs() == old(self).regs(),
            final(self).mem() == old(self).mem(),
            final(self).spec_tracer() == old(self).spec_tracer(),
            VMState::same_config(*old(self), *final(self)),
    {
        self.set_pc(ByteAddr(0));
        self.halted = true;
    }
}

} // verus!

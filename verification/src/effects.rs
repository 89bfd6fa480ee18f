//! What one executed instruction does to the machine, and a builder that
//! records register and memory changes together with their undo log.
use vstd::prelude::*;
use crate::plugin::{StepResult, TraceEvent, UndoEntry, PipelineCycleInfo, CpuState, stage_names, all_carry, output_view, failed, waits};
use crate::memory::{in_bounds, oob_message, oob_error, read16, read32};
use crate::undo::{
    reg_fwd, pc_fwd, mem_fwd, fwd_regs, fwd_pc, fwd_mem, faithful_regs, faithful_pc, faithful_mem, faithful, replays, spares_reg0,
};

verus! {

/// The byte at `a`, or 0 outside memory (a read that cannot fail).
pub open spec fn peek(m: Seq<u8>, a: int) -> u8 {
    if 0 <= a < m.len() {
        m[a]
    } else {
        0
    }
}

/// `m` with `v` written at `a`; unchanged outside memory.
pub open spec fn poke(m: Seq<u8>, a: int, v: u8) -> Seq<u8> {
    if 0 <= a < m.len() {
        m.update(a, v)
    } else {
        m
    }
}

/// Reads the byte at `a`, 0 outside memory.
pub fn peek_at(m: &[u8], a: u32) -> (b: u8)
    ensures
        b == peek(m@, a as int),
{
    if (a as usize) < m.len() {
        m[a as usize]
    } else {
        0
    }
}

/// Reads the byte at `a`.
pub fn load8(m: &[u8], a: u32) -> (r: Result<u8, String>)
    ensures
        match r {
            Ok(v) => in_bounds(a, 1, m@.len()) && v == m@[a as int],
            Err(e) => !in_bounds(a, 1, m@.len()) && e@ == oob_message(a, 1, m@.len()),
        },
{
    if (a as usize) < m.len() {
        Ok(m[a as usize])
    } else {
        Err(oob_error(a, 1, m.len()))
    }
}

/// Reads the little-endian 16-bit value at `a`.
pub fn load16(m: &[u8], a: u32) -> (r: Result<u16, String>)
    ensures
        match r {
            Ok(v) => in_bounds(a, 2, m@.len()) && v == read16(m@, a as int),
            Err(e) => !in_bounds(a, 2, m@.len()) && e@ == oob_message(a, 2, m@.len()),
        },
{
    if (a as usize) < m.len() && m.len() - (a as usize) >= 2 {
        let b0 = m[a as usize];
        let b1 = m[a as usize + 1];
        Ok((b0 as u16) + (b1 as u16) * 256)
    } else {
        Err(oob_error(a, 2, m.len()))
    }
}

/// Reads the little-endian 32-bit value at `a`.
pub fn load32(m: &[u8], a: u32) -> (r: Result<u32, String>)
    ensures
        match r {
            Ok(v) => in_bounds(a, 4, m@.len()) && v == read32(m@, a as int),
            Err(e) => !in_bounds(a, 4, m@.len()) && e@ == oob_message(a, 4, m@.len()),
        },
{
    if (a as usize) < m.len() && m.len() - (a as usize) >= 4 {
        let i = a as usize;
        let b0 = m[i] as u32;
        let b1 = m[i + 1] as u32;
        let b2 = m[i + 2] as u32;
        let b3 = m[i + 3] as u32;
        Ok(b0 + b1 * 0x100 + b2 * 0x1_0000 + b3 * 0x100_0000)
    } else {
        Err(oob_error(a, 4, m.len()))
    }
}

/// What a step comes to: an error, a pause for input, or an executed instruction.
pub enum Outcome {
    Fail(Seq<char>),
    Wait(Seq<char>, Seq<char>, Option<u32>),
    Run(Effect, Seq<Seq<char>>),
}

/// The result reports outcome `o` of the instruction `instr` fetched in state `s`.
pub open spec fn reports(s: CpuState, m: Seq<u8>, r: StepResult, o: Outcome, instr: u32) -> bool {
    match o {
        Outcome::Fail(msg) => failed(s, r, Some(instr)) && (r.error matches Some(e) && e@ == msg),
        Outcome::Wait(kind, prompt, max) => waits(s, r, instr, kind, prompt, max),
        Outcome::Run(e, stages) => produced(r, m, e, instr, stages),
    }
}

/// The architectural outcome of one executed instruction.
pub struct Effect {
    pub regs: Seq<u32>,
    pub pc: u32,
    pub halted: bool,
    pub mem: Seq<u8>,
    pub events: Seq<TraceEvent>,
    pub cycles: u64,
    pub out: Option<Seq<char>>,
}

/// The result reports the outcome `e` of executing `instr`: the new state,
/// a log whose forward application to memory gives `e.mem`, the trace and
/// cycles.
pub open spec fn produced(r: StepResult, m: Seq<u8>, e: Effect, instr: u32, stages: Seq<Seq<char>>) -> bool {
    &&& r.new_state.regs@ == e.regs
    &&& r.new_state.pc == e.pc
    &&& r.new_state.halted == e.halted
    &&& r.halted == e.halted
    &&& fwd_mem(m, r.undo_log@) == e.mem
    &&& r.events@ == e.events
    &&& r.cycles_added == e.cycles
    &&& r.error is None
    &&& r.instruction_bits == Some(instr)
    &&& stage_names(r.pipeline_stages@) == stages
    &&& all_carry(r.pipeline_stages@, Some(instr))
    &&& output_view(r.io_output) == e.out
    &&& r.io_input_requested is None
}

// ---------------------------------------------------------------------------
// Appending to a log
// ---------------------------------------------------------------------------

pub open spec fn reg_entry_ok(regs: Seq<u32>, e: UndoEntry) -> bool {
    match e {
        UndoEntry::RegWrite { reg, old_value, .. } => reg < regs.len() ==> regs[reg as int] == old_value,
        _ => true,
    }
}

pub open spec fn mem_entry_ok(mem: Seq<u8>, e: UndoEntry) -> bool {
    match e {
        UndoEntry::MemWrite { addr, old_value, .. } => addr < mem.len() ==> mem[addr as int] == old_value,
        _ => true,
    }
}

pub open spec fn pc_entry_ok(pc: u32, e: UndoEntry) -> bool {
    match e {
        UndoEntry::Pc { old_value, .. } => pc == old_value,
        _ => true,
    }
}

/// Applying a log with one more entry at its end applies that entry last,
/// and the longer log is faithful when the shorter one is and the entry
/// matches the state the shorter one leads to.
pub proof fn lemma_log_push(regs: Seq<u32>, pc: u32, mem: Seq<u8>, log: Seq<UndoEntry>, e: UndoEntry)
    ensures
        fwd_regs(regs, log.push(e)) == reg_fwd(fwd_regs(regs, log), e),
        fwd_pc(pc, log.push(e)) == pc_fwd(fwd_pc(pc, log), e),
        fwd_mem(mem, log.push(e)) == mem_fwd(fwd_mem(mem, log), e),
        faithful_regs(regs, log.push(e)) == (faithful_regs(regs, log) && reg_entry_ok(fwd_regs(regs, log), e)),
        faithful_pc(pc, log.push(e)) == (faithful_pc(pc, log) && pc_entry_ok(fwd_pc(pc, log), e)),
        faithful_mem(mem, log.push(e)) == (faithful_mem(mem, log) && mem_entry_ok(fwd_mem(mem, log), e)),
    decreases log.len(),
{
    let l2 = log.push(e);
    if log.len() == 0 {
        let rest = l2.drop_first();
        assert(rest =~= Seq::<UndoEntry>::empty());
        assert(l2[0] == e);
        assert(fwd_regs(reg_fwd(regs, e), rest) == reg_fwd(regs, e));
        assert(fwd_pc(pc_fwd(pc, e), rest) == pc_fwd(pc, e));
        assert(fwd_mem(mem_fwd(mem, e), rest) == mem_fwd(mem, e));
        assert(faithful_regs(reg_fwd(regs, e), rest));
        assert(faithful_pc(pc_fwd(pc, e), rest));
        assert(faithful_mem(mem_fwd(mem, e), rest));
    } else {
        assert(l2.drop_first() =~= log.drop_first().push(e));
        assert(l2[0] == log[0]);
        lemma_log_push(reg_fwd(regs, log[0]), pc_fwd(pc, log[0]), mem_fwd(mem, log[0]), log.drop_first(), e);
    }
}

/// Appending an entry that does not write register 0 keeps a log free of
/// such writes.
pub proof fn lemma_spares_push(log: Seq<UndoEntry>, e: UndoEntry)
    ensures
        spares_reg0(log) && (match e {
            UndoEntry::RegWrite { reg, .. } => reg != 0,
            _ => true,
        }) ==> spares_reg0(log.push(e)),
{
    if spares_reg0(log) {
        let l2 = log.push(e);
        assert forall|k: int| 0 <= k < log.len() implies #[trigger] l2[k] == log[k] by {}
        assert(l2[log.len() as int] == e);
    }
}

pub proof fn lemma_fwd_len(regs: Seq<u32>, mem: Seq<u8>, log: Seq<UndoEntry>)
    ensures
        fwd_regs(regs, log).len() == regs.len(),
        fwd_mem(mem, log).len() == mem.len(),
    decreases log.len(),
{
    if log.len() > 0 {
        lemma_fwd_len(reg_fwd(regs, log[0]), mem_fwd(mem, log[0]), log.drop_first());
    }
}

// ---------------------------------------------------------------------------
// The builder
// ---------------------------------------------------------------------------

/// Registers being changed by an instruction, with the log of the changes
/// made so far against the state the instruction started from.
pub struct Changes {
    pub regs: Vec<u32>,
    pub log: Vec<UndoEntry>,
    pub base_regs: Ghost<Seq<u32>>,
    pub base_pc: Ghost<u32>,
    pub base_mem: Ghost<Seq<u8>>,
}

impl Changes {
    /// Memory as the log leaves it.
    pub open spec fn mem(&self) -> Seq<u8> {
        fwd_mem(self.base_mem@, self.log@)
    }

    /// The program counter as the log leaves it.
    pub open spec fn pc(&self) -> u32 {
        fwd_pc(self.base_pc@, self.log@)
    }

    /// Registers and memory keep their sizes.
    pub open spec fn inv(&self) -> bool {
        &&& self.regs@.len() == self.base_regs@.len()
        &&& self.mem().len() == self.base_mem@.len()
    }

    /// The memory entries record what they overwrite.
    pub open spec fn mem_kept(&self) -> bool {
        faithful_mem(self.base_mem@, self.log@)
    }

    /// The register entries record what they overwrite and lead to `regs`.
    pub open spec fn regs_kept(&self) -> bool {
        &&& self.regs@ == fwd_regs(self.base_regs@, self.log@)
        &&& faithful_regs(self.base_regs@, self.log@)
    }

    /// The program counter entries record what they overwrite.
    pub open spec fn pc_kept(&self) -> bool {
        faithful_pc(self.base_pc@, self.log@)
    }

    pub fn start(regs: &Vec<u32>, pc: u32, mem: &[u8]) -> (c: Self)
        ensures
            c.regs@ == regs@,
            c.log@ == Seq::<UndoEntry>::empty(),
            c.base_regs@ == regs@,
            c.base_pc@ == pc,
            c.base_mem@ == mem@,
            c.mem() == mem@,
            c.pc() == pc,
            c.inv(),
            c.regs_kept(),
            c.pc_kept(),
            c.mem_kept(),
            spares_reg0(c.log@),
    {
        Changes {
            regs: regs.clone(),
            log: Vec::new(),
            base_regs: Ghost(regs@),
            base_pc: Ghost(pc),
            base_mem: Ghost(mem@),
        }
    }

    /// Sets register `i` to `v`, logging the old value.
    pub fn set(&mut self, i: usize, v: u32)
        requires
            old(self).inv(),
            i < old(self).regs@.len(),
        ensures
            final(self).regs@ == old(self).regs@.update(i as int, v),
            final(self).log@ == old(self).log@.push(UndoEntry::RegWrite { reg: i, old_value: old(self).regs@[i as int], new_value: v }),
            final(self).base_regs == old(self).base_regs,
            final(self).base_pc == old(self).base_pc,
            final(self).base_mem == old(self).base_mem,
            final(self).inv(),
            final(self).mem() == old(self).mem(),
            final(self).pc() == old(self).pc(),
            old(self).regs_kept() ==> final(self).regs_kept(),
            old(self).pc_kept() ==> final(self).pc_kept(),
            old(self).mem_kept() ==> final(self).mem_kept(),
            fwd_regs(final(self).base_regs@, final(self).log@) == reg_fwd(fwd_regs(old(self).base_regs@, old(self).log@),
                UndoEntry::RegWrite { reg: i, old_value: old(self).regs@[i as int], new_value: v }),
            faithful_regs(final(self).base_regs@, final(self).log@) == (faithful_regs(old(self).base_regs@, old(self).log@)
                && reg_entry_ok(fwd_regs(old(self).base_regs@, old(self).log@),
                UndoEntry::RegWrite { reg: i, old_value: old(self).regs@[i as int], new_value: v })),
            i != 0 && spares_reg0(old(self).log@) ==> spares_reg0(final(self).log@),
    {
        let e = UndoEntry::RegWrite { reg: i, old_value: self.regs[i], new_value: v };
        proof {
            lemma_spares_push(self.log@, e);
        }
        proof {
            lemma_log_push(self.base_regs@, self.base_pc@, self.base_mem@, self.log@, e);
            lemma_fwd_len(self.base_regs@, self.base_mem@, self.log@);
        }
        self.log.push(e);
        self.regs.set(i, v);
    }

    /// Logs a register entry without changing the registers.
    pub fn note(&mut self, e: UndoEntry)
        requires
            old(self).inv(),
            e is RegWrite,
        ensures
            final(self).regs@ == old(self).regs@,
            final(self).log@ == old(self).log@.push(e),
            final(self).base_regs == old(self).base_regs,
            final(self).base_pc == old(self).base_pc,
            final(self).base_mem == old(self).base_mem,
            final(self).inv(),
            final(self).mem() == old(self).mem(),
            final(self).pc() == old(self).pc(),
            old(self).pc_kept() ==> final(self).pc_kept(),
            old(self).mem_kept() ==> final(self).mem_kept(),
            fwd_regs(final(self).base_regs@, final(self).log@) == reg_fwd(fwd_regs(old(self).base_regs@, old(self).log@), e),
            faithful_regs(final(self).base_regs@, final(self).log@)
                == (faithful_regs(old(self).base_regs@, old(self).log@) && reg_entry_ok(fwd_regs(old(self).base_regs@, old(self).log@), e)),
    {
        proof {
            lemma_log_push(self.base_regs@, self.base_pc@, self.base_mem@, self.log@, e);
        }
        self.log.push(e);
    }

    /// Sets a register without logging it.
    pub fn put(&mut self, i: usize, v: u32)
        requires
            old(self).inv(),
            i < old(self).regs@.len(),
        ensures
            final(self).regs@ == old(self).regs@.update(i as int, v),
            final(self).log == old(self).log,
            final(self).base_regs == old(self).base_regs,
            final(self).base_pc == old(self).base_pc,
            final(self).base_mem == old(self).base_mem,
            final(self).inv(),
            final(self).mem() == old(self).mem(),
            final(self).pc() == old(self).pc(),
            old(self).mem_kept() ==> final(self).mem_kept(),
            old(self).pc_kept() ==> final(self).pc_kept(),
    {
        self.regs.set(i, v);
    }

    /// Writes `v` at `addr`, logging `old_byte` as the byte it overwrites.
    pub fn write(&mut self, addr: u32, v: u8, old_byte: u8)
        requires
            old(self).inv(),
        ensures
            (addr < old(self).mem().len() ==> old_byte == old(self).mem()[addr as int]) && old(self).mem_kept() ==> final(self).mem_kept(),
            final(self).regs@ == old(self).regs@,
            final(self).log@ == old(self).log@.push(UndoEntry::MemWrite { addr, old_value: old_byte, new_value: v }),
            final(self).base_regs == old(self).base_regs,
            final(self).base_pc == old(self).base_pc,
            final(self).base_mem == old(self).base_mem,
            final(self).inv(),
            final(self).mem() == poke(old(self).mem(), addr as int, v),
            final(self).pc() == old(self).pc(),
            old(self).regs_kept() ==> final(self).regs_kept(),
            old(self).pc_kept() ==> final(self).pc_kept(),
            spares_reg0(old(self).log@) ==> spares_reg0(final(self).log@),
    {
        let e = UndoEntry::MemWrite { addr, old_value: old_byte, new_value: v };
        proof {
            lemma_spares_push(self.log@, e);
            lemma_log_push(self.base_regs@, self.base_pc@, self.base_mem@, self.log@, e);
            lemma_fwd_len(self.base_regs@, self.base_mem@, self.log@);
        }
        self.log.push(e);
    }

    /// Logs a jump from `from` to `to`.
    pub fn jump(&mut self, from: u32, to: u32)
        requires
            old(self).inv(),
        ensures
            final(self).regs@ == old(self).regs@,
            final(self).log@ == old(self).log@.push(UndoEntry::Pc { old_value: from, new_value: to }),
            final(self).base_regs == old(self).base_regs,
            final(self).base_pc == old(self).base_pc,
            final(self).base_mem == old(self).base_mem,
            final(self).inv(),
            final(self).mem() == old(self).mem(),
            final(self).pc() == to,
            old(self).regs_kept() ==> final(self).regs_kept(),
            old(self).pc_kept() && from == old(self).pc() ==> final(self).pc_kept(),
            old(self).mem_kept() ==> final(self).mem_kept(),
            spares_reg0(old(self).log@) ==> spares_reg0(final(self).log@),
    {
        let e = UndoEntry::Pc { old_value: from, new_value: to };
        proof {
            lemma_spares_push(self.log@, e);
            lemma_log_push(self.base_regs@, self.base_pc@, self.base_mem@, self.log@, e);
        }
        self.log.push(e);
    }

    /// The result of the executed instruction.
    pub fn finish(
        self,
        pc: u32,
        halted: bool,
        events: Vec<TraceEvent>,
        cycles: u64,
        instr: u32,
        out: Option<String>,
        stages: Vec<PipelineCycleInfo>,
    ) -> (r: StepResult)
        requires
            self.inv(),
            all_carry(stages@, Some(instr)),
        ensures
            produced(r, self.base_mem@, Effect {
                regs: self.regs@, pc, halted, mem: self.mem(), events: events@, cycles, out: output_view(out),
            }, instr, stage_names(stages@)),
            r.undo_log@ == self.log@,
            r.pipeline_stages@ == stages@,
            self.mem_kept() ==> faithful_mem(self.base_mem@, r.undo_log@),
            self.regs_kept() && self.pc_kept() && self.mem_kept() ==> faithful(self.base_regs@, self.base_pc@, self.base_mem@, r.undo_log@),
            faithful_regs(self.base_regs@, self.log@) && self.pc_kept() && self.mem_kept() ==> faithful(self.base_regs@, self.base_pc@, self.base_mem@, r.undo_log@),
            self.regs_kept() && self.pc() == pc ==> replays(self.base_regs@, self.base_pc@, r.undo_log@, r.new_state),
    {
        StepResult {
            new_state: CpuState { pc, regs: self.regs, halted },
            events,
            undo_log: self.log,
            cycles_added: cycles,
            halted,
            error: None,
            instruction_bits: Some(instr),
            pipeline_stages: stages,
            io_output: out,
            io_input_requested: None,
        }
    }
}

} // verus!

//! The simulator state machine: CPU state, memory, and an undo stack for
//! stepping back.
use vstd::prelude::*;
use vstd::string::StringExecFns;
use crate::memory::{Memory, in_bounds, write_bytes};
use crate::plugin::{PipelineCycleInfo, CpuState, ResetConfig, StepResult, TraceEvent, UndoEntry, InputRequest, ProgramImage, AssemblerError, same_image, input_view};
use crate::scan::{image_view, errs_view};
use crate::arch::{ArchKind, arch_of, arch_kind, arch_image, min_regs, arch_step_post, lemma_step_log_faithful, step_arch, reset_arch, arch_reset_pc, arch_reset_regs, assemble_arch, required_regs};
use crate::undo::{fwd_mem, rev_mem, rev_regs, rev_pc, faithful, reg_rev, mem_rev, pc_rev, fwd_regs, fwd_pc, lemma_undo_roundtrip};
use crate::text::{chars_of, string_of, slice_vec, lit_string};
use crate::fmt::lit;

verus! {

/// One executed pipeline cycle, numbered from the start of the run.
#[derive(Clone, Debug)]
pub struct CycleDetail {
    pub cycle: u64,
    pub stage: String,
    pub instruction_bits: Option<u32>,
    pub action: String,
}

#[derive(Debug, Clone, PartialEq, Eq)]
pub enum RunState {
    Idle,
    Running,
    Paused,
    Halted,
    Error(String),
}

/// What stepping back one instruction restores.
#[derive(Clone, Debug)]
pub struct UndoSnapshot {
    pub state: CpuState,
    pub undo_log: Vec<UndoEntry>,
    pub cycles_added: u64,
    /// Number of characters this step appended to the I/O output.
    pub io_output_len: usize,
    /// Number of cycle-detail rows this step appended.
    pub detail_count: usize,
}

pub struct Simulator {
    pub arch: String,
    pub state: CpuState,
    pub memory: Memory,
    pub program_image: Option<ProgramImage>,
    pub undo_stack: Vec<UndoSnapshot>,
    pub trace_events: Vec<TraceEvent>,
    pub total_cycles: u64,
    pub run_state: RunState,
    pub last_instruction: Option<u32>,
    pub cycle_details: Vec<CycleDetail>,
    pub io_output: String,
    /// Set when a step asked for input without applying anything.
    pub pending_input_request: Option<InputRequest>,
    /// PC values at which running pauses.
    pub breakpoints: Vec<u32>,
}

/// The characters a step printed.
pub open spec fn printed(r: StepResult) -> Seq<char> {
    match r.io_output {
        Some(s) => s@,
        None => Seq::empty(),
    }
}

pub open spec fn sat_sub(a: int, b: int) -> int {
    if a >= b {
        a - b
    } else {
        0
    }
}

impl Simulator {
    /// The architecture this simulator runs.
    pub open spec fn kind(self) -> ArchKind {
        arch_of(self.arch@)
    }

    /// The cycle details a step appends: one per pipeline stage, numbered on
    /// from the cycles before the step.
    pub open spec fn appended_details(before: u64, r: StepResult, details: Seq<CycleDetail>) -> bool {
        &&& details.len() == r.pipeline_stages@.len()
        &&& forall|i: int| 0 <= i < details.len() ==> {
            &&& (#[trigger] details[i]).cycle == before + 1 + i
            &&& details[i].stage@ == r.pipeline_stages@[i].stage@
            &&& details[i].instruction_bits == r.pipeline_stages@[i].instruction_bits
            &&& details[i].action@ == r.pipeline_stages@[i].action@
        }
    }

    /// The snapshot pushed for a step applied to `s` with result `r`.
    pub open spec fn snapshot_of(snap: UndoSnapshot, s: CpuState, r: StepResult) -> bool {
        &&& snap.state.pc == s.pc
        &&& snap.state.regs@ == s.regs@
        &&& snap.state.halted == s.halted
        &&& snap.undo_log@ == r.undo_log@
        &&& snap.cycles_added == r.cycles_added
        &&& snap.io_output_len == printed(r).len()
        &&& snap.detail_count == r.pipeline_stages@.len()
    }

    /// `new` is `old` after applying the step result `r`, which ran without error.
    pub open spec fn stepped(old: Simulator, new: Simulator, r: StepResult) -> bool {
        &&& Self::applied(old, new, r)
        &&& r.error is None
        &&& r.cycles_added <= 64
    }

    /// `new` is `old` after applying the step result `r`.
    pub open spec fn applied(old: Simulator, new: Simulator, r: StepResult) -> bool {
        &&& new.undo_stack@.len() == old.undo_stack@.len() + 1
        &&& new.undo_stack@.drop_last() == old.undo_stack@
        &&& Self::snapshot_of(new.undo_stack@.last(), old.state, r)
        &&& new.memory@ == fwd_mem(old.memory@, r.undo_log@)
        &&& new.state.pc == r.new_state.pc
        &&& new.state.regs@ == r.new_state.regs@
        &&& new.state.halted == r.new_state.halted
        &&& new.total_cycles == old.total_cycles + r.cycles_added
        &&& new.io_output@ == old.io_output@ + printed(r)
        &&& new.cycle_details@.len() >= old.cycle_details@.len()
        &&& new.cycle_details@.subrange(0, old.cycle_details@.len() as int) == old.cycle_details@
        &&& Self::appended_details(old.total_cycles, r,
            new.cycle_details@.subrange(old.cycle_details@.len() as int, new.cycle_details@.len() as int))
        &&& new.trace_events@ == r.events@
        &&& new.last_instruction == r.instruction_bits
        &&& new.pending_input_request is None
        &&& new.run_state == (if r.halted { RunState::Halted } else { old.run_state })
        &&& new.arch == old.arch
        &&& new.breakpoints == old.breakpoints
        &&& new.program_image == old.program_image
    }

    /// `new` is `old` after popping and reverting the last step.
    pub open spec fn stepped_back(old: Simulator, new: Simulator) -> bool {
        let snap = old.undo_stack@.last();
        let log = snap.undo_log@;
        let n = old.io_output@.len();
        let k = snap.io_output_len;
        &&& old.undo_stack@.len() > 0
        &&& new.undo_stack@ == old.undo_stack@.drop_last()
        &&& new.state.regs@ == rev_regs(snap.state.regs@, log)
        &&& new.state.pc == rev_pc(snap.state.pc, log)
        &&& new.state.halted == snap.state.halted
        &&& new.memory@ == rev_mem(old.memory@, log)
        &&& new.total_cycles == sat_sub(old.total_cycles as int, snap.cycles_added as int)
        &&& new.cycle_details@ == old.cycle_details@.subrange(0,
            sat_sub(old.cycle_details@.len() as int, snap.detail_count as int))
        &&& new.io_output@ == (if k > 0 && n >= k { old.io_output@.subrange(0, n - k) } else { old.io_output@ })
        &&& new.run_state == (if snap.state.halted { RunState::Halted } else { RunState::Paused })
        &&& new.pending_input_request is None
        &&& new.arch == old.arch
        &&& new.breakpoints == old.breakpoints
        &&& new.program_image == old.program_image
        &&& new.trace_events == old.trace_events
        &&& new.last_instruction == old.last_instruction
    }

    /// A fresh simulator for RV32I with 32 cleared registers and 64 KiB of memory.
    pub fn new() -> (s: Self)
        ensures
            s.arch@ == "RV32I"@,
            s.state.pc == 0,
            s.state.regs@ == Seq::new(32, |i: int| 0u32),
            !s.state.halted,
            s.memory@ == Seq::new(64 * 1024, |i: int| 0u8),
            s.program_image is None,
            s.undo_stack@.len() == 0,
            s.trace_events@.len() == 0,
            s.total_cycles == 0,
            s.run_state == RunState::Idle,
            s.last_instruction is None,
            s.cycle_details@.len() == 0,
            s.io_output@.len() == 0,
            s.pending_input_request is None,
            s.breakpoints@.len() == 0,
    {
        let regs = vec![0u32; 32];
        assert(regs@ =~= Seq::new(32, |i: int| 0u32));
        Simulator {
            arch: lit("RV32I"),
            state: CpuState { pc: 0, regs, halted: false },
            memory: Memory::new(64 * 1024),
            program_image: None,
            undo_stack: Vec::new(),
            trace_events: Vec::new(),
            total_cycles: 0,
            run_state: RunState::Idle,
            last_instruction: None,
            cycle_details: Vec::new(),
            io_output: String::new(),
            pending_input_request: None,
            breakpoints: Vec::new(),
        }
    }

    /// Selects the architecture `arch` and assembles `source` for it. An image
    /// without errors becomes the program image and is returned; otherwise
    /// its errors are returned and the program image is kept.
    pub fn assemble(&mut self, source: &str, arch: &str) -> (res: Result<ProgramImage, Vec<AssemblerError>>)
        ensures
            final(self).arch@ == arch@,
            res is Ok <==> arch_image(arch_of(arch@), source@).2.len() == 0,
            match res {
                Ok(img) => image_view(img) == arch_image(arch_of(arch@), source@)
                    && (final(self).program_image matches Some(p) && same_image(p, img)),
                Err(es) => errs_view(es@) == arch_image(arch_of(arch@), source@).2
                    && final(self).program_image == old(self).program_image,
            },
            final(self).state == old(self).state,
            final(self).memory == old(self).memory,
            final(self).undo_stack == old(self).undo_stack,
            final(self).trace_events == old(self).trace_events,
            final(self).total_cycles == old(self).total_cycles,
            final(self).run_state == old(self).run_state,
            final(self).last_instruction == old(self).last_instruction,
            final(self).cycle_details == old(self).cycle_details,
            final(self).io_output == old(self).io_output,
            final(self).pending_input_request == old(self).pending_input_request,
            final(self).breakpoints == old(self).breakpoints,
    {
        self.arch = lit_string(arch);
        let image = assemble_arch(arch_kind(arch), source);
        if image.errors.len() > 0 {
            return Err(image.errors);
        }
        self.program_image = Some(image.duplicate());
        Ok(image)
    }

    /// Whether a step may be taken: the register file is as long as the
    /// architecture reads, memory is addressable with 32 bits and the cycle
    /// count cannot overflow.
    pub fn can_step(&self) -> (b: bool)
        ensures
            b == self.step_ready(),
    {
        let k = self.arch_kind();
        self.state.regs.len() >= required_regs(k) && self.memory.size() <= 0xFFFF_FFFF
            && self.total_cycles <= u64::MAX - 128
    }

    /// The architecture selected by the simulator's `arch` name.
    pub fn arch_kind(&self) -> (k: ArchKind)
        ensures
            k == self.kind(),
    {
        arch_kind(self.arch.as_str())
    }

    /// What taking a step needs: the registers the architecture reads, a
    /// memory addressable by 32 bits, and room in the cycle count.
    pub open spec fn step_ready(self) -> bool {
        &&& self.state.regs@.len() >= min_regs(self.kind())
        &&& self.memory@.len() <= 0xFFFF_FFFF
        &&& self.total_cycles <= u64::MAX - 128
    }

    /// Executes one instruction.
    pub fn step_forward(&mut self) -> (res: Result<StepResult, String>)
        requires
            !old(self).state.halted ==> old(self).step_ready(),
        ensures
            Self::step_outcome(*old(self), *final(self), None, res),
    {
        self.step_forward_with_input(None)
    }

    /// What a step did: refused on a halted CPU; failed with the plugin's
    /// error; paused to ask for input; or applied.
    pub open spec fn step_outcome(old: Simulator, new: Simulator, input: Option<Seq<char>>, res: Result<StepResult, String>) -> bool {
        match res {
            Err(e) => if old.state.halted {
                e@ == "CPU halted"@ && new == old
            } else {
                exists|r: StepResult| #![trigger arch_step_post(old.kind(), old.state, old.memory@, input, r)]
                    arch_step_post(old.kind(), old.state, old.memory@, input, r) && r.error == Some(e)
                    && new == Simulator { run_state: RunState::Error(e), ..old }
            },
            Ok(r) => {
                &&& !old.state.halted
                &&& arch_step_post(old.kind(), old.state, old.memory@, input, r)
                &&& r.error is None
                &&& if r.io_input_requested is Some && input is None {
                    new == Simulator { pending_input_request: r.io_input_requested, run_state: RunState::Paused, ..old }
                } else {
                    Self::stepped(old, new, r)
                }
            },
        }
    }

    /// Executes one instruction, completing a pending read with `input`.
    pub fn step_forward_with_input(&mut self, input: Option<&str>) -> (res: Result<StepResult, String>)
        requires
            !old(self).state.halted ==> old(self).step_ready(),
        ensures
            Self::step_outcome(*old(self), *final(self), input_view(input), res),
    {
        if self.state.halted {
            return Err(lit("CPU halted"));
        }
        let kind = self.arch_kind();
        let result = step_arch(kind, &self.state, self.memory.data(), input);
        match &result.error {
            Some(e) => {
                let e2 = e.clone();
                self.run_state = RunState::Error(e.clone());
                return Err(e2);
            },
            None => {},
        }
        if result.io_input_requested.is_some() && input.is_none() {
            self.pending_input_request = match &result.io_input_requested {
                Some(q) => Some(q.duplicate()),
                None => None,
            };
            self.run_state = RunState::Paused;
            return Ok(result);
        }
        self.record(&result);
        Ok(result)
    }

    /// Applies an executed step: snapshot, memory writes, new state, cycles,
    /// trace, cycle details and output.
    fn record(&mut self, result: &StepResult)
        requires
            old(self).total_cycles <= u64::MAX - 128,
            result.cycles_added <= 64,
            result.pipeline_stages@.len() <= 64,
        ensures
            Self::applied(*old(self), *final(self), *result),
    {
        let ghost old_self = *self;
        self.pending_input_request = None;
        let io_output_len: usize = match &result.io_output {
            Some(o) => chars_of(o.as_str()).len(),
            None => 0,
        };
        self.undo_stack.push(UndoSnapshot {
            state: self.state.duplicate(),
            undo_log: result.undo_log.clone(),
            cycles_added: result.cycles_added,
            io_output_len,
            detail_count: result.pipeline_stages.len(),
        });
        assert(self.undo_stack@.drop_last() =~= old_self.undo_stack@);
        self.apply_undo_forward(&result.undo_log);
        self.state = result.new_state.duplicate();
        self.total_cycles = self.total_cycles + result.cycles_added;
        self.trace_events = result.events.clone();
        self.last_instruction = result.instruction_bits;
        let base = self.total_cycles - result.cycles_added;
        push_cycle_details(&mut self.cycle_details, base, &result.pipeline_stages);
        proof {
            let n0 = old_self.cycle_details@.len();
            let nd = self.cycle_details@.subrange(n0 as int, self.cycle_details@.len() as int);
            assert forall|j: int| 0 <= j < nd.len() implies {
                &&& (#[trigger] nd[j]).cycle == old_self.total_cycles + 1 + j
                &&& nd[j].stage@ == result.pipeline_stages@[j].stage@
                &&& nd[j].instruction_bits == result.pipeline_stages@[j].instruction_bits
                &&& nd[j].action@ == result.pipeline_stages@[j].action@
            } by {
                assert(nd[j] == self.cycle_details@[n0 + j]);
            }
        }
        if result.halted {
            self.run_state = RunState::Halted;
        }
        match &result.io_output {
            Some(o) => {
                self.io_output.append(o.as_str());
            },
            None => {
                assert(self.io_output@ =~= old_self.io_output@ + printed(*result));
            },
        }
    }

    /// Reverts the last executed step.
    pub fn step_back(&mut self) -> (res: Result<(), String>)
        ensures
            match res {
                Ok(()) => Self::stepped_back(*old(self), *final(self)),
                Err(e) => old(self).undo_stack@.len() == 0 && e@ == "No step to undo"@ && *final(self) == *old(self),
            },
    {
        if self.undo_stack.len() == 0 {
            return Err(lit("No step to undo"));
        }
        let ghost old_self = *self;
        let snapshot = match self.undo_stack.pop() {
            Some(s) => s,
            None => {
                return Err(lit("No step to undo"));
            },
        };
        self.state = snapshot.state.duplicate();
        self.apply_undo_reverse(&snapshot.undo_log);
        self.total_cycles = self.total_cycles.saturating_sub(snapshot.cycles_added);
        let trunc = self.cycle_details.len().saturating_sub(snapshot.detail_count);
        self.cycle_details.truncate(trunc);
        let n = chars_of(self.io_output.as_str());
        if snapshot.io_output_len > 0 && n.len() >= snapshot.io_output_len {
            let kept = slice_vec(n.as_slice(), 0, n.len() - snapshot.io_output_len);
            self.io_output = string_of(kept.as_slice());
        }
        self.run_state = RunState::Paused;
        self.pending_input_request = None;
        if self.state.halted {
            self.run_state = RunState::Halted;
        }
        proof {
            assert(self.cycle_details@ =~= old_self.cycle_details@.subrange(0,
                sat_sub(old_self.cycle_details@.len() as int, snapshot.detail_count as int)));
        }
        Ok(())
    }

    /// Memory of `size` zero bytes with the program image loaded, when there
    /// is one and it fits.
    pub open spec fn loaded_memory(size: nat, image: Option<ProgramImage>) -> Seq<u8> {
        let zeros = Seq::new(size, |i: int| 0u8);
        match image {
            Some(img) => if in_bounds(img.entry_pc, img.bytes@.len(), size) {
                write_bytes(zeros, img.entry_pc as int, img.bytes@)
            } else {
                zeros
            },
            None => zeros,
        }
    }

    /// Resets the CPU of the current architecture, reloads the program image
    /// into fresh memory and clears the history.
    pub fn reset(&mut self, config: &ResetConfig) -> (s: CpuState)
        ensures
            final(self).state.pc == (match old(self).program_image {
                Some(img) => img.entry_pc,
                None => arch_reset_pc(old(self).kind()),
            }),
            final(self).state.regs@ == arch_reset_regs(old(self).kind()),
            !final(self).state.halted,
            final(self).memory@ == Self::loaded_memory(config.memory_size as nat, old(self).program_image),
            final(self).undo_stack@.len() == 0,
            final(self).trace_events@.len() == 0,
            final(self).total_cycles == 0,
            final(self).last_instruction is None,
            final(self).cycle_details@.len() == 0,
            final(self).run_state == RunState::Idle,
            final(self).io_output@.len() == 0,
            final(self).pending_input_request is None,
            final(self).arch == old(self).arch,
            final(self).program_image == old(self).program_image,
            final(self).breakpoints == old(self).breakpoints,
            s.pc == final(self).state.pc,
            s.regs@ == final(self).state.regs@,
            s.halted == final(self).state.halted,
    {
        let kind = self.arch_kind();
        self.state = reset_arch(kind, config);
        self.memory = Memory::new(config.memory_size);
        match &self.program_image {
            Some(img) => {
                let _ = self.memory.load_program(img.entry_pc, img.bytes.as_slice());
                self.state.pc = img.entry_pc;
            },
            None => {},
        }
        self.undo_stack.clear();
        self.trace_events.clear();
        self.total_cycles = 0;
        self.last_instruction = None;
        self.cycle_details.clear();
        self.run_state = RunState::Idle;
        self.io_output = String::new();
        self.pending_input_request = None;
        self.state.duplicate()
    }

    /// What one tick of running did (see `run_tick`).
    pub open spec fn tick_outcome(old: Simulator, new: Simulator, res: Result<Option<StepResult>, String>) -> bool {
        if old.run_state != RunState::Running {
            res == Ok::<Option<StepResult>, String>(None) && new == old
        } else if old.state.halted {
            res == Ok::<Option<StepResult>, String>(None) && new == Simulator { run_state: RunState::Halted, ..old }
        } else if old.breakpoints@.contains(old.state.pc) {
            res == Ok::<Option<StepResult>, String>(None) && new == Simulator { run_state: RunState::Paused, ..old }
        } else {
            match res {
                Ok(Some(r)) => exists|mid: Simulator| #[trigger] Self::step_outcome(old, mid, None, Ok(r))
                    && new == Simulator {
                        run_state: if r.io_input_requested is Some || mid.breakpoints@.contains(r.new_state.pc) {
                            RunState::Paused
                        } else {
                            mid.run_state
                        },
                        ..mid
                    },
                Err(e) => exists|mid: Simulator| #[trigger] Self::step_outcome(old, mid, None, Err(e))
                    && new == Simulator { run_state: RunState::Error(e), ..mid },
                Ok(None) => false,
            }
        }
    }

    /// One tick of continuous running: a step unless the simulator is not
    /// running, the CPU has halted, or the PC sits on a breakpoint; pauses
    /// after a step that waits for input or lands on a breakpoint.
    pub fn run_tick(&mut self) -> (res: Result<Option<StepResult>, String>)
        requires
            old(self).run_state == RunState::Running && !old(self).state.halted
                && !old(self).breakpoints@.contains(old(self).state.pc) ==> old(self).step_ready(),
        ensures
            Self::tick_outcome(*old(self), *final(self), res),
    {
        match self.run_state {
            RunState::Running => {
                if self.state.halted {
                    self.run_state = RunState::Halted;
                    return Ok(None);
                }
                if contains_u32(&self.breakpoints, self.state.pc) {
                    self.run_state = RunState::Paused;
                    return Ok(None);
                }
                let res = self.step_forward();
                let ghost mid = *self;
                match res {
                    Ok(r) => {
                        if r.io_input_requested.is_some() {
                            self.run_state = RunState::Paused;
                        } else if contains_u32(&self.breakpoints, r.new_state.pc) {
                            self.run_state = RunState::Paused;
                        }
                        Ok(Some(r))
                    },
                    Err(e) => {
                        self.run_state = RunState::Error(e.clone());
                        Err(e)
                    },
                }
            },
            _ => Ok(None),
        }
    }

    pub fn set_breakpoints(&mut self, addrs: Vec<u32>)
        ensures
            *final(self) == (Simulator { breakpoints: addrs, ..*old(self) }),
    {
        self.breakpoints = addrs;
    }

    pub fn set_run_state(&mut self, s: RunState)
        ensures
            *final(self) == (Simulator { run_state: s, ..*old(self) }),
    {
        self.run_state = s;
    }

    /// Replaces memory by `size` zero bytes and reloads the program image.
    pub fn set_memory_size(&mut self, size: usize)
        ensures
            final(self).memory@ == Self::loaded_memory(size as nat, old(self).program_image),
            *final(self) == (Simulator { memory: final(self).memory, ..*old(self) }),
    {
        self.memory = Memory::new(size);
        match &self.program_image {
            Some(img) => {
                let _ = self.memory.load_program(img.entry_pc, img.bytes.as_slice());
            },
            None => {},
        }
    }

    fn apply_undo_forward(&mut self, log: &Vec<UndoEntry>)
        ensures
            final(self).state.regs@ == fwd_regs(old(self).state.regs@, log@),
            final(self).state.pc == fwd_pc(old(self).state.pc, log@),
            final(self).memory@ == fwd_mem(old(self).memory@, log@),
            final(self).state.halted == old(self).state.halted,
            final(self).arch == old(self).arch,
            final(self).program_image == old(self).program_image,
            final(self).undo_stack == old(self).undo_stack,
            final(self).trace_events == old(self).trace_events,
            final(self).total_cycles == old(self).total_cycles,
            final(self).run_state == old(self).run_state,
            final(self).last_instruction == old(self).last_instruction,
            final(self).cycle_details == old(self).cycle_details,
            final(self).io_output == old(self).io_output,
            final(self).pending_input_request == old(self).pending_input_request,
            final(self).breakpoints == old(self).breakpoints,
    {
        let mut i: usize = 0;
        assert(log@.subrange(0, log@.len() as int) =~= log@);
        while i < log.len()
            invariant
                0 <= i <= log.len(),
                fwd_regs(self.state.regs@, log@.subrange(i as int, log@.len() as int)) == fwd_regs(old(self).state.regs@, log@),
                fwd_pc(self.state.pc, log@.subrange(i as int, log@.len() as int)) == fwd_pc(old(self).state.pc, log@),
                fwd_mem(self.memory@, log@.subrange(i as int, log@.len() as int)) == fwd_mem(old(self).memory@, log@),
                self.state.halted == old(self).state.halted,
                self.arch == old(self).arch,
                self.program_image == old(self).program_image,
                self.undo_stack == old(self).undo_stack,
                self.trace_events == old(self).trace_events,
                self.total_cycles == old(self).total_cycles,
                self.run_state == old(self).run_state,
                self.last_instruction == old(self).last_instruction,
                self.cycle_details == old(self).cycle_details,
                self.io_output == old(self).io_output,
                self.pending_input_request == old(self).pending_input_request,
                self.breakpoints == old(self).breakpoints,
            decreases log.len() - i,
        {
            let ghost rest = log@.subrange(i as int, log@.len() as int);
            assert(rest[0] == log@[i as int]);
            assert(rest.drop_first() =~= log@.subrange(i + 1, log@.len() as int));
            let e = log[i];
            match e {
                UndoEntry::RegWrite { reg, new_value, .. } => {
                    if reg < self.state.regs.len() {
                        self.state.regs.set(reg, new_value);
                    }
                },
                UndoEntry::MemWrite { addr, new_value, .. } => {
                    if (addr as usize) < self.memory.size() {
                        let _ = self.memory.write_u8(addr, new_value);
                    }
                },
                UndoEntry::Pc { new_value, .. } => {
                    self.state.pc = new_value;
                },
            }
            i = i + 1;
        }
        assert(log@.subrange(i as int, log@.len() as int) =~= Seq::<UndoEntry>::empty());
    }

    fn apply_undo_reverse(&mut self, log: &Vec<UndoEntry>)
        ensures
            final(self).state.regs@ == rev_regs(old(self).state.regs@, log@),
            final(self).state.pc == rev_pc(old(self).state.pc, log@),
            final(self).memory@ == rev_mem(old(self).memory@, log@),
            final(self).state.halted == old(self).state.halted,
            final(self).arch == old(self).arch,
            final(self).program_image == old(self).program_image,
            final(self).undo_stack == old(self).undo_stack,
            final(self).trace_events == old(self).trace_events,
            final(self).total_cycles == old(self).total_cycles,
            final(self).run_state == old(self).run_state,
            final(self).last_instruction == old(self).last_instruction,
            final(self).cycle_details == old(self).cycle_details,
            final(self).io_output == old(self).io_output,
            final(self).pending_input_request == old(self).pending_input_request,
            final(self).breakpoints == old(self).breakpoints,
    {
        let mut i: usize = log.len();
        assert(log@.subrange(0, log@.len() as int) =~= log@);
        while i > 0
            invariant
                0 <= i <= log.len(),
                rev_regs(old(self).state.regs@, log@) == rev_regs(self.state.regs@, log@.subrange(0, i as int)),
                rev_pc(old(self).state.pc, log@) == rev_pc(self.state.pc, log@.subrange(0, i as int)),
                rev_mem(old(self).memory@, log@) == rev_mem(self.memory@, log@.subrange(0, i as int)),
                self.state.halted == old(self).state.halted,
                self.arch == old(self).arch,
                self.program_image == old(self).program_image,
                self.undo_stack == old(self).undo_stack,
                self.trace_events == old(self).trace_events,
                self.total_cycles == old(self).total_cycles,
                self.run_state == old(self).run_state,
                self.last_instruction == old(self).last_instruction,
                self.cycle_details == old(self).cycle_details,
                self.io_output == old(self).io_output,
                self.pending_input_request == old(self).pending_input_request,
                self.breakpoints == old(self).breakpoints,
            decreases i,
        {
            let ghost pre = log@.subrange(0, i as int);
            proof {
                lemma_rev_last(self.state.regs@, self.state.pc, self.memory@, pre);
            }
            assert(pre.drop_last() =~= log@.subrange(0, i - 1));
            let e = log[i - 1];
            match e {
                UndoEntry::RegWrite { reg, old_value, .. } => {
                    if reg < self.state.regs.len() {
                        self.state.regs.set(reg, old_value);
                    }
                },
                UndoEntry::MemWrite { addr, old_value, .. } => {
                    if (addr as usize) < self.memory.size() {
                        let _ = self.memory.write_u8(addr, old_value);
                    }
                },
                UndoEntry::Pc { old_value, .. } => {
                    self.state.pc = old_value;
                },
            }
            i = i - 1;
        }
    }
}

/// Whether `x` occurs in `v`.
pub fn contains_u32(v: &Vec<u32>, x: u32) -> (b: bool)
    ensures
        b == v@.contains(x),
{
    let mut i: usize = 0;
    while i < v.len()
        invariant
            0 <= i <= v.len(),
            forall|k: int| 0 <= k < i ==> v@[k] != x,
        decreases v.len() - i,
    {
        if v[i] == x {
            return true;
        }
        i = i + 1;
    }
    false
}

/// Appends one cycle detail per pipeline stage, numbered from `base + 1`.
fn push_cycle_details(details: &mut Vec<CycleDetail>, base: u64, stages: &Vec<PipelineCycleInfo>)
    requires
        base <= u64::MAX - 128,
        stages@.len() <= 64,
    ensures
        final(details)@.len() == old(details)@.len() + stages@.len(),
        final(details)@.subrange(0, old(details)@.len() as int) == old(details)@,
        forall|j: int| 0 <= j < stages@.len() ==> {
            &&& (#[trigger] final(details)@[old(details)@.len() + j]).cycle == base + 1 + j
            &&& final(details)@[old(details)@.len() + j].stage@ == stages@[j].stage@
            &&& final(details)@[old(details)@.len() + j].instruction_bits == stages@[j].instruction_bits
            &&& final(details)@[old(details)@.len() + j].action@ == stages@[j].action@
        },
{
    let n0 = details.len();
    let mut i: usize = 0;
    while i < stages.len()
        invariant
            0 <= i <= stages@.len(),
            stages@.len() <= 64,
            base <= u64::MAX - 128,
            n0 == old(details)@.len(),
            details@.len() == n0 + i,
            details@.subrange(0, n0 as int) == old(details)@,
            forall|j: int| 0 <= j < i ==> {
                &&& (#[trigger] details@[n0 + j]).cycle == base + 1 + j
                &&& details@[n0 + j].stage@ == stages@[j].stage@
                &&& details@[n0 + j].instruction_bits == stages@[j].instruction_bits
                &&& details@[n0 + j].action@ == stages@[j].action@
            },
        decreases stages@.len() - i,
    {
        let pi = &stages[i];
        details.push(CycleDetail {
            cycle: base + 1 + i as u64,
            stage: pi.stage.clone(),
            instruction_bits: pi.instruction_bits,
            action: pi.action.clone(),
        });
        assert(details@.subrange(0, n0 as int) =~= old(details)@);
        i = i + 1;
    }
}

/// Stepping back right after a step whose undo log faithfully records what
/// it overwrote restores the CPU state, memory, cycle count, cycle details,
/// I/O output and undo stack from before the step.
pub proof fn lemma_step_back_undoes_step(s0: Simulator, s1: Simulator, r: StepResult, s2: Simulator)
    requires
        Simulator::stepped(s0, s1, r),
        Simulator::stepped_back(s1, s2),
        faithful(s0.state.regs@, s0.state.pc, s0.memory@, r.undo_log@),
    ensures
        s2.state.pc == s0.state.pc,
        s2.state.regs@ == s0.state.regs@,
        s2.state.halted == s0.state.halted,
        s2.memory@ == s0.memory@,
        s2.total_cycles == s0.total_cycles,
        s2.io_output@ == s0.io_output@,
        s2.undo_stack@ == s0.undo_stack@,
        s2.cycle_details@ == s0.cycle_details@,
{
    let log = r.undo_log@;
    lemma_undo_roundtrip(s0.state.regs@, s0.state.pc, s0.memory@, log);
    let k = printed(r).len();
    if k > 0 {
        assert(s1.io_output@.subrange(0, s1.io_output@.len() - k) =~= s0.io_output@);
    }
    let n0 = s0.cycle_details@.len();
    assert(s1.cycle_details@.subrange(0, n0 as int) == s0.cycle_details@);
    assert(s2.cycle_details@ =~= s0.cycle_details@);
}

/// Stepping back right after `step_forward_with_input` applied a step (one
/// that did not stop to ask for input) restores the CPU state, memory, cycle
/// count, cycle details, I/O output and undo stack from before the step.
pub proof fn lemma_step_back_after_step(s0: Simulator, s1: Simulator, input: Option<Seq<char>>, r: StepResult, s2: Simulator)
    requires
        Simulator::step_outcome(s0, s1, input, Ok(r)),
        !(r.io_input_requested is Some && input is None),
        Simulator::stepped_back(s1, s2),
    ensures
        s2.state.pc == s0.state.pc,
        s2.state.regs@ == s0.state.regs@,
        s2.state.halted == s0.state.halted,
        s2.memory@ == s0.memory@,
        s2.total_cycles == s0.total_cycles,
        s2.cycle_details@ == s0.cycle_details@,
        s2.io_output@ == s0.io_output@,
        s2.undo_stack@ == s0.undo_stack@,
        s2.pending_input_request is None,
{
    lemma_step_log_faithful(s0.kind(), s0.state, s0.memory@, input, r);
    lemma_step_back_undoes_step(s0, s1, r, s2);
}

/// Reversing a log applies its last entry first.
pub proof fn lemma_rev_last(regs: Seq<u32>, pc: u32, mem: Seq<u8>, log: Seq<UndoEntry>)
    requires
        log.len() > 0,
    ensures
        rev_regs(regs, log) == rev_regs(reg_rev(regs, log.last()), log.drop_last()),
        rev_pc(pc, log) == rev_pc(pc_rev(pc, log.last()), log.drop_last()),
        rev_mem(mem, log) == rev_mem(mem_rev(mem, log.last()), log.drop_last()),
    decreases log.len(),
{
    if log.len() > 1 {
        let r = log.drop_first();
        let l2 = log.drop_last();
        lemma_rev_last(regs, pc, mem, r);
        assert(r.drop_last() =~= l2.drop_first());
        assert(r.last() == log.last());
        assert(l2[0] == log[0]);
        assert(rev_regs(regs, log) == reg_rev(rev_regs(regs, r), log[0]));
        assert(rev_mem(mem, log) == mem_rev(rev_mem(mem, r), log[0]));
        let x = reg_rev(regs, log.last());
        assert(rev_regs(x, l2) == reg_rev(rev_regs(x, l2.drop_first()), l2[0]));
        let y = mem_rev(mem, log.last());
        assert(rev_mem(y, l2) == mem_rev(rev_mem(y, l2.drop_first()), l2[0]));
        let z = pc_rev(pc, log.last());
        assert(rev_pc(z, l2) == pc_rev(rev_pc(z, l2.drop_first()), l2[0]));
    } else {
        assert(log.drop_first() =~= Seq::<UndoEntry>::empty());
        assert(log.drop_last() =~= Seq::<UndoEntry>::empty());
        assert(rev_regs(regs, log) == reg_rev(rev_regs(regs, log.drop_first()), log[0]));
        assert(rev_mem(mem, log) == mem_rev(rev_mem(mem, log.drop_first()), log[0]));
        assert(log.last() == log[0]);
    }
}

impl Default for Simulator {
    /// The same as `Simulator::new`.
    fn default() -> (s: Self)
        ensures
            s.arch@ == "RV32I"@,
            s.state.pc == 0,
            s.state.regs@ == Seq::new(32, |i: int| 0u32),
            !s.state.halted,
            s.memory@ == Seq::new(64 * 1024, |i: int| 0u8),
            s.program_image is None,
            s.undo_stack@.len() == 0,
            s.total_cycles == 0,
            s.run_state == RunState::Idle,
    {
        Simulator::new()
    }
}

} // verus!

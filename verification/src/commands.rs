//! What the front end asks of the simulator: assembling, loading and
//! resetting with a program, and a snapshot of the whole state.
use vstd::prelude::*;
use crate::simulator::{Simulator, RunState, CycleDetail};
use crate::plugin::{
    AssemblerError, SourceMapEntry, ProgramImage, CpuState, ResetConfig, TraceEvent, InputRequest,
};
use crate::arch::{arch_of, arch_kind, assemble_arch, arch_image, arch_reset_pc, arch_reset_regs};
use crate::scan::{image_view, errs_view};
use crate::text::lit_string;
use crate::fmt::lit;

verus! {

/// The image of a successful assembly, as the front end receives it.
pub struct AssembleResponse {
    pub bytes: Vec<u8>,
    pub entry_pc: u32,
    pub source_map: Vec<SourceMapEntry>,
    pub errors: Vec<AssemblerError>,
}

/// The errors of a trial assembly.
pub struct AssembleCheckResponse {
    pub errors: Vec<AssemblerError>,
    pub ok: bool,
}

/// Everything the front end shows.
pub struct SimulatorStateSnapshot {
    pub state: CpuState,
    pub memory: Vec<u8>,
    pub memory_size: usize,
    pub total_cycles: u64,
    pub run_state: String,
    pub trace_events: Vec<TraceEvent>,
    pub can_step_back: bool,
    pub halted: bool,
    pub last_instruction: Option<u32>,
    pub run_error: Option<String>,
    pub cycle_details: Vec<CycleDetail>,
    pub source_map: Vec<SourceMapEntry>,
    pub io_output: String,
    pub io_input_requested: Option<InputRequest>,
}

/// Where a loaded program starts and how long it is.
pub struct LoadProgramResponse {
    pub entry_pc: u32,
    pub bytes_len: usize,
}

/// The name of a run state.
pub open spec fn run_state_name(rs: RunState) -> Seq<char> {
    match rs {
        RunState::Idle => "IDLE"@,
        RunState::Running => "RUNNING"@,
        RunState::Paused => "PAUSED"@,
        RunState::Halted => "HALTED"@,
        RunState::Error(_) => "ERROR"@,
    }
}

pub fn format_run_state(rs: &RunState) -> (s: String)
    ensures
        s@ == run_state_name(*rs),
{
    match rs {
        RunState::Idle => lit("IDLE"),
        RunState::Running => lit("RUNNING"),
        RunState::Paused => lit("PAUSED"),
        RunState::Halted => lit("HALTED"),
        RunState::Error(_) => lit("ERROR"),
    }
}

/// The message of an error state.
pub fn get_run_error(rs: &RunState) -> (r: Option<String>)
    ensures
        match *rs {
            RunState::Error(e) => r matches Some(m) && m@ == e@,
            _ => r is None,
        },
{
    match rs {
        RunState::Error(s) => Some(s.clone()),
        _ => None,
    }
}

impl AssembleResponse {
    /// The response for an image that assembled without errors.
    pub fn of_image(image: ProgramImage) -> (r: AssembleResponse)
        ensures
            r.bytes@ == image.bytes@,
            r.entry_pc == image.entry_pc,
            r.source_map@ == image.source_map@,
            r.errors@.len() == 0,
    {
        AssembleResponse { bytes: image.bytes, entry_pc: image.entry_pc, source_map: image.source_map, errors: Vec::new() }
    }
}

/// Two lists of cycle details with equal fields.
pub open spec fn same_details(a: Seq<CycleDetail>, b: Seq<CycleDetail>) -> bool {
    &&& a.len() == b.len()
    &&& forall|i: int| 0 <= i < a.len() ==> {
        &&& (#[trigger] a[i]).cycle == b[i].cycle
        &&& a[i].stage@ == b[i].stage@
        &&& a[i].instruction_bits == b[i].instruction_bits
        &&& a[i].action@ == b[i].action@
    }
}

fn copy_details(v: &Vec<CycleDetail>) -> (r: Vec<CycleDetail>)
    ensures
        same_details(r@, v@),
{
    let mut r: Vec<CycleDetail> = Vec::new();
    let mut i: usize = 0;
    while i < v.len()
        invariant
            i <= v@.len(),
            same_details(r@, v@.subrange(0, i as int)),
        decreases v@.len() - i,
    {
        let d = &v[i];
        r.push(CycleDetail { cycle: d.cycle, stage: d.stage.clone(), instruction_bits: d.instruction_bits, action: d.action.clone() });
        i = i + 1;
    }
    assert(v@.subrange(0, v@.len() as int) =~= v@);
    r
}

fn copy_seq<T: Copy>(v: &[T]) -> (r: Vec<T>)
    ensures
        r@ == v@,
{
    let mut r: Vec<T> = Vec::new();
    let mut i: usize = 0;
    while i < v.len()
        invariant
            i <= v@.len(),
            r@ == v@.subrange(0, i as int),
        decreases v@.len() - i,
    {
        r.push(v[i]);
        assert(r@ =~= v@.subrange(0, i + 1));
        i = i + 1;
    }
    assert(v@.subrange(0, v@.len() as int) =~= v@);
    r
}

impl Simulator {
    /// `new` is a freshly reset simulator with memory of `size` bytes: the
    /// CPU of its architecture at the program's entry (or the reset PC),
    /// the program loaded, the history cleared.
    pub open spec fn is_reset(new: Simulator, size: nat) -> bool {
        &&& new.state.pc == (match new.program_image {
            Some(img) => img.entry_pc,
            None => arch_reset_pc(new.kind()),
        })
        &&& new.state.regs@ == arch_reset_regs(new.kind())
        &&& !new.state.halted
        &&& new.memory@ == Self::loaded_memory(size, new.program_image)
        &&& new.undo_stack@.len() == 0
        &&& new.trace_events@.len() == 0
        &&& new.total_cycles == 0
        &&& new.last_instruction is None
        &&& new.cycle_details@.len() == 0
        &&& new.run_state == RunState::Idle
        &&& new.io_output@.len() == 0
        &&& new.pending_input_request is None
    }

    /// Selects `arch` and assembles `source` without keeping the image.
    pub fn assemble_check(&mut self, source: &str, arch: &str) -> (r: AssembleCheckResponse)
        ensures
            final(self).arch@ == arch@,
            errs_view(r.errors@) == arch_image(arch_of(arch@), source@).2,
            r.ok == (r.errors@.len() == 0),
            *final(self) == (Simulator { arch: final(self).arch, ..*old(self) }),
    {
        self.arch = lit_string(arch);
        let image = assemble_arch(arch_kind(arch), source);
        let ok = image.errors.len() == 0;
        AssembleCheckResponse { errors: image.errors, ok }
    }

    /// Assembles `source` for `arch` and resets with it into memory of `memory_size` bytes.
    pub fn reset_with_program(&mut self, source: &str, arch: &str, memory_size: usize) -> (res: Result<CpuState, Vec<AssemblerError>>)
        ensures
            final(self).arch@ == arch@,
            match res {
                Ok(s) => {
                    &&& final(self).program_image matches Some(p) && image_view(p) == arch_image(arch_of(arch@), source@)
                        && p.errors@.len() == 0
                    &&& Self::is_reset(*final(self), memory_size as nat)
                    &&& s.pc == final(self).state.pc && s.regs@ == final(self).state.regs@ && !s.halted
                },
                Err(es) => es@.len() > 0 && errs_view(es@) == arch_image(arch_of(arch@), source@).2
                    && *final(self) == (Simulator { arch: final(self).arch, ..*old(self) }),
            },
            final(self).breakpoints == old(self).breakpoints,
    {
        match self.assemble(source, arch) {
            Err(es) => Err(es),
            Ok(_) => Ok(self.reset(&ResetConfig { memory_size })),
        }
    }

    /// Forgets the program, selects `arch` and resets into memory of `memory_size` bytes.
    pub fn reset_for_arch_change(&mut self, arch: &str, memory_size: usize) -> (s: CpuState)
        ensures
            final(self).arch@ == arch@,
            final(self).program_image is None,
            Self::is_reset(*final(self), memory_size as nat),
            s.pc == final(self).state.pc && s.regs@ == final(self).state.regs@ && !s.halted,
            final(self).breakpoints == old(self).breakpoints,
    {
        self.program_image = None;
        self.arch = lit_string(arch);
        self.reset(&ResetConfig { memory_size })
    }

    /// Assembles and loads a program, resetting into memory of the given
    /// size (64 KiB when none is given).
    pub fn load_program(&mut self, source: &str, arch: &str, memory_size: Option<usize>) -> (res: Result<LoadProgramResponse, Vec<AssemblerError>>)
        ensures
            final(self).arch@ == arch@,
            match res {
                Ok(r) => {
                    &&& final(self).program_image matches Some(p) && image_view(p) == arch_image(arch_of(arch@), source@)
                        && p.errors@.len() == 0 && r.entry_pc == p.entry_pc && r.bytes_len == p.bytes@.len()
                    &&& Self::is_reset(*final(self), (match memory_size { Some(n) => n as nat, None => 65536nat }))
                },
                Err(es) => es@.len() > 0 && errs_view(es@) == arch_image(arch_of(arch@), source@).2
                    && *final(self) == (Simulator { arch: final(self).arch, ..*old(self) }),
            },
            final(self).breakpoints == old(self).breakpoints,
    {
        match self.assemble(source, arch) {
            Err(es) => Err(es),
            Ok(image) => {
                let size = match memory_size {
                    Some(n) => n,
                    None => 64 * 1024,
                };
                self.reset(&ResetConfig { memory_size: size });
                Ok(LoadProgramResponse { entry_pc: image.entry_pc, bytes_len: image.bytes.len() })
            },
        }
    }

    /// Starts (running) or pauses the run.
    pub fn set_running(&mut self, running: bool)
        ensures
            *final(self) == (Simulator { run_state: if running { RunState::Running } else { RunState::Paused }, ..*old(self) }),
    {
        self.set_run_state(if running { RunState::Running } else { RunState::Paused });
    }

    /// A snapshot of the whole simulator state.
    pub fn snapshot(&self) -> (r: SimulatorStateSnapshot)
        ensures
            r.state.pc == self.state.pc,
            r.state.regs@ == self.state.regs@,
            r.state.halted == self.state.halted,
            r.memory@ == self.memory@,
            r.memory_size == self.memory@.len(),
            r.total_cycles == self.total_cycles,
            r.run_state@ == run_state_name(self.run_state),
            r.trace_events@ == self.trace_events@,
            r.can_step_back == (self.undo_stack@.len() > 0),
            r.halted == self.state.halted,
            r.last_instruction == self.last_instruction,
            match self.run_state {
                RunState::Error(e) => r.run_error matches Some(m) && m@ == e@,
                _ => r.run_error is None,
            },
            same_details(r.cycle_details@, self.cycle_details@),
            r.source_map@ == (match self.program_image {
                Some(img) => img.source_map@,
                None => Seq::<SourceMapEntry>::empty(),
            }),
            r.io_output@ == self.io_output@,
            r.io_input_requested == self.pending_input_request,
    {
        let source_map = match &self.program_image {
            Some(img) => copy_seq(img.source_map.as_slice()),
            None => Vec::new(),
        };
        SimulatorStateSnapshot {
            state: self.state.duplicate(),
            memory: copy_seq(self.memory.data()),
            memory_size: self.memory.size(),
            total_cycles: self.total_cycles,
            run_state: format_run_state(&self.run_state),
            trace_events: copy_seq(self.trace_events.as_slice()),
            can_step_back: self.undo_stack.len() > 0,
            halted: self.state.halted,
            last_instruction: self.last_instruction,
            run_error: get_run_error(&self.run_state),
            cycle_details: copy_details(&self.cycle_details),
            source_map,
            io_output: self.io_output.clone(),
            io_input_requested: match &self.pending_input_request {
                Some(q) => Some(q.duplicate()),
                None => None,
            },
        }
    }
}

} // verus!

//! Shared types of the architecture plugins: program images, CPU state,
//! undo entries, step results and schemas.
use vstd::prelude::*;
use crate::text::lit_string;

verus! {

/// Assembled program bytes with metadata.
#[derive(Debug, Clone)]
pub struct ProgramImage {
    pub bytes: Vec<u8>,
    pub entry_pc: u32,
    pub source_map: Vec<SourceMapEntry>,
    pub errors: Vec<AssemblerError>,
}

#[derive(Debug, Clone, Copy, PartialEq, Eq, Structural)]
pub struct SourceMapEntry {
    pub pc: u32,
    pub line: u32,
    pub column: u32,
}

#[derive(Debug, Clone)]
pub struct AssemblerError {
    pub line: u32,
    pub column: u32,
    pub message: String,
}

impl AssemblerError {
    /// A copy with the same position and message.
    pub fn duplicate(&self) -> (r: AssemblerError)
        ensures
            r.line == self.line,
            r.column == self.column,
            r.message@ == self.message@,
    {
        AssemblerError { line: self.line, column: self.column, message: self.message.clone() }
    }
}

/// Two lists of assembler errors with the same positions and messages.
pub open spec fn same_errors(a: Seq<AssemblerError>, b: Seq<AssemblerError>) -> bool {
    &&& a.len() == b.len()
    &&& forall|i: int| 0 <= i < a.len() ==> {
        &&& (#[trigger] a[i]).line == b[i].line
        &&& a[i].column == b[i].column
        &&& a[i].message@ == b[i].message@
    }
}

/// Two program images with the same bytes, entry point, source map and errors.
pub open spec fn same_image(a: ProgramImage, b: ProgramImage) -> bool {
    &&& a.bytes@ == b.bytes@
    &&& a.entry_pc == b.entry_pc
    &&& a.source_map@ == b.source_map@
    &&& same_errors(a.errors@, b.errors@)
}

/// A copy of a list of assembler errors.
pub fn copy_errors(v: &Vec<AssemblerError>) -> (r: Vec<AssemblerError>)
    ensures
        same_errors(r@, v@),
{
    let mut r: Vec<AssemblerError> = Vec::new();
    let mut i: usize = 0;
    while i < v.len()
        invariant
            i <= v@.len(),
            same_errors(r@, v@.subrange(0, i as int)),
        decreases v@.len() - i,
    {
        r.push(v[i].duplicate());
        i = i + 1;
    }
    assert(v@.subrange(0, v@.len() as int) =~= v@);
    r
}

impl ProgramImage {
    /// A copy of the image.
    pub fn duplicate(&self) -> (r: ProgramImage)
        ensures
            same_image(r, *self),
    {
        let mut bytes: Vec<u8> = Vec::new();
        let mut i: usize = 0;
        while i < self.bytes.len()
            invariant
                i <= self.bytes@.len(),
                bytes@ == self.bytes@.subrange(0, i as int),
            decreases self.bytes@.len() - i,
        {
            bytes.push(self.bytes[i]);
            assert(bytes@ =~= self.bytes@.subrange(0, i + 1));
            i = i + 1;
        }
        let mut map: Vec<SourceMapEntry> = Vec::new();
        let mut j: usize = 0;
        while j < self.source_map.len()
            invariant
                j <= self.source_map@.len(),
                map@ == self.source_map@.subrange(0, j as int),
            decreases self.source_map@.len() - j,
        {
            map.push(self.source_map[j]);
            assert(map@ =~= self.source_map@.subrange(0, j + 1));
            j = j + 1;
        }
        assert(self.bytes@.subrange(0, self.bytes@.len() as int) =~= self.bytes@);
        assert(self.source_map@.subrange(0, self.source_map@.len() as int) =~= self.source_map@);
        ProgramImage { bytes, entry_pc: self.entry_pc, source_map: map, errors: copy_errors(&self.errors) }
    }
}

/// CPU state snapshot: registers and PC.
#[derive(Debug, Clone)]
pub struct CpuState {
    pub pc: u32,
    pub regs: Vec<u32>,
    pub halted: bool,
}

impl CpuState {
    /// A copy with the same program counter, registers and halt flag.
    pub fn duplicate(&self) -> (r: CpuState)
        ensures
            r.pc == self.pc,
            r.regs@ == self.regs@,
            r.halted == self.halted,
    {
        CpuState { pc: self.pc, regs: self.regs.clone(), halted: self.halted }
    }
}

/// Reset configuration.
#[derive(Debug, Clone, Copy, PartialEq, Eq, Structural)]
pub struct ResetConfig {
    pub memory_size: usize,
}

impl Default for ResetConfig {
    fn default() -> (r: Self)
        ensures
            r.memory_size == 64 * 1024,
    {
        ResetConfig { memory_size: 64 * 1024 }
    }
}

/// Pipeline stage / event type for the trace.
#[derive(Debug, Clone, Copy, PartialEq, Eq, Structural)]
pub enum TraceEvent {
    Fetch,
    Decode,
    Alu,
    Mem,
    RegWrite,
    Halted,
}

/// A single undoable change, used for stepping back.
#[allow(inconsistent_fields)]
#[derive(Debug, Clone, Copy, PartialEq, Eq, Structural)]
pub enum UndoEntry {
    RegWrite { reg: usize, old_value: u32, new_value: u32 },
    MemWrite { addr: u32, old_value: u8, new_value: u8 },
    Pc { old_value: u32, new_value: u32 },
}

/// One pipeline cycle: stage name, instruction and what the stage does.
#[derive(Debug, Clone)]
pub struct PipelineCycleInfo {
    pub stage: String,
    pub instruction_bits: Option<u32>,
    pub action: String,
}

/// A request for user input when a program reads (TRAP IN, read syscalls).
#[derive(Debug, Clone)]
pub struct InputRequest {
    /// "char", "int" or "string".
    pub kind: String,
    pub prompt: String,
    pub max_length: Option<u32>,
}

impl InputRequest {
    /// A copy with equal kind, prompt and maximum length.
    pub fn duplicate(&self) -> (r: InputRequest)
        ensures
            r == *self,
            r.kind@ == self.kind@,
            r.prompt@ == self.prompt@,
            r.max_length == self.max_length,
    {
        InputRequest { kind: self.kind.clone(), prompt: self.prompt.clone(), max_length: self.max_length }
    }
}

/// Result of a single step.
#[derive(Debug, Clone)]
pub struct StepResult {
    pub new_state: CpuState,
    pub events: Vec<TraceEvent>,
    pub undo_log: Vec<UndoEntry>,
    pub cycles_added: u64,
    pub halted: bool,
    pub error: Option<String>,
    pub instruction_bits: Option<u32>,
    pub pipeline_stages: Vec<PipelineCycleInfo>,
    pub io_output: Option<String>,
    pub io_input_requested: Option<InputRequest>,
}

/// Register schema: register names for display.
#[derive(Debug, Clone)]
pub struct RegisterSchema {
    pub pc_name: String,
    pub reg_names: Vec<String>,
}

#[derive(Debug, Clone)]
pub struct UiConnection {
    pub from: String,
    pub to: String,
}

/// Step mode: instruction-level or stage-level.
#[derive(Debug, Clone, Copy, PartialEq, Eq, Structural)]
pub enum StepMode {
    Instruction,
    Stage,
}

/// A pipeline cycle with the given stage name and action.
pub fn cycle(stage: &str, instr: Option<u32>, action: String) -> (r: PipelineCycleInfo)
    ensures
        r.stage@ == stage@,
        r.instruction_bits == instr,
        r.action == action,
{
    PipelineCycleInfo { stage: lit_string(stage), instruction_bits: instr, action }
}

/// The stage names of a list of pipeline cycles.
pub open spec fn stage_names(p: Seq<PipelineCycleInfo>) -> Seq<Seq<char>> {
    Seq::new(p.len(), |i: int| p[i].stage@)
}

/// The actions shown for a list of pipeline cycles.
pub open spec fn stage_actions(p: Seq<PipelineCycleInfo>) -> Seq<Seq<char>> {
    Seq::new(p.len(), |i: int| p[i].action@)
}

/// Whether every cycle of the list carries the instruction `instr`.
pub open spec fn all_carry(p: Seq<PipelineCycleInfo>, instr: Option<u32>) -> bool {
    forall|i: int| 0 <= i < p.len() ==> (#[trigger] p[i]).instruction_bits == instr
}

/// Five-stage pipeline: Fetch, Decode, Execute, Memory, Write-back.
pub fn pipeline_5(instr: Option<u32>, fetch: String, decode: String, execute: String, mem: String, wb: String)
    -> (r: Vec<PipelineCycleInfo>)
    ensures
        stage_names(r@) == seq!["Fetch"@, "Decode"@, "Execute"@, "Memory"@, "Write-back"@],
        r@.len() == 5,
        stage_actions(r@) == seq![fetch@, decode@, execute@, mem@, wb@],
        all_carry(r@, instr),
        r@[0].action == fetch,
        r@[1].action == decode,
        r@[2].action == execute,
        r@[3].action == mem,
        r@[4].action == wb,
{
    let mut v: Vec<PipelineCycleInfo> = Vec::new();
    v.push(cycle("Fetch", instr, fetch));
    v.push(cycle("Decode", instr, decode));
    v.push(cycle("Execute", instr, execute));
    v.push(cycle("Memory", instr, mem));
    v.push(cycle("Write-back", instr, wb));
    assert(stage_names(v@) =~= seq!["Fetch"@, "Decode"@, "Execute"@, "Memory"@, "Write-back"@]);
    v
}

/// Three cycles ending in the Halted stage.
pub fn pipeline_halt(instr: Option<u32>, fetch: String, decode: String, halted: String) -> (r: Vec<PipelineCycleInfo>)
    ensures
        stage_names(r@) == seq!["Fetch"@, "Decode"@, "Halted"@],
        r@.len() == 3,
        stage_actions(r@) == seq![fetch@, decode@, halted@],
        all_carry(r@, instr),
        r@[0].action == fetch,
        r@[1].action == decode,
        r@[2].action == halted,
{
    let mut v: Vec<PipelineCycleInfo> = Vec::new();
    v.push(cycle("Fetch", instr, fetch));
    v.push(cycle("Decode", instr, decode));
    v.push(cycle("Halted", instr, halted));
    assert(stage_names(v@) =~= seq!["Fetch"@, "Decode"@, "Halted"@]);
    v
}

/// Three-stage pipeline: Fetch, Decode, Execute.
pub fn pipeline_3(instr: Option<u32>, fetch: String, decode: String, execute: String) -> (r: Vec<PipelineCycleInfo>)
    ensures
        stage_names(r@) == seq!["Fetch"@, "Decode"@, "Execute"@],
        r@.len() == 3,
        stage_actions(r@) == seq![fetch@, decode@, execute@],
        all_carry(r@, instr),
        r@[0].action == fetch,
        r@[1].action == decode,
        r@[2].action == execute,
{
    let mut v: Vec<PipelineCycleInfo> = Vec::new();
    v.push(cycle("Fetch", instr, fetch));
    v.push(cycle("Decode", instr, decode));
    v.push(cycle("Execute", instr, execute));
    assert(stage_names(v@) =~= seq!["Fetch"@, "Decode"@, "Execute"@]);
    v
}

/// Two cycles shown while a step waits for input.
pub fn pipeline_wait(instr: Option<u32>, fetch: String, decode: String) -> (r: Vec<PipelineCycleInfo>)
    ensures
        stage_names(r@) == seq!["Fetch"@, "Decode"@],
        r@.len() == 2,
        stage_actions(r@) == seq![fetch@, decode@],
        all_carry(r@, instr),
        r@[0].action == fetch,
        r@[1].action == decode,
{
    let mut v: Vec<PipelineCycleInfo> = Vec::new();
    v.push(cycle("Fetch", instr, fetch));
    v.push(cycle("Decode", instr, decode));
    assert(stage_names(v@) =~= seq!["Fetch"@, "Decode"@]);
    v
}

/// The result of a step that could not run: state unchanged, the error given.
pub fn error_result(state: &CpuState, instr: Option<u32>, e: String) -> (r: StepResult)
    ensures
        r.new_state.pc == state.pc,
        r.new_state.regs@ == state.regs@,
        r.new_state.halted == state.halted,
        r.events@.len() == 0,
        r.undo_log@.len() == 0,
        r.cycles_added == 0,
        !r.halted,
        r.error == Some(e),
        r.instruction_bits == instr,
        r.pipeline_stages@.len() == 0,
        r.io_output is None,
        r.io_input_requested is None,
{
    StepResult {
        new_state: state.duplicate(),
        events: Vec::new(),
        undo_log: Vec::new(),
        cycles_added: 0,
        halted: false,
        error: Some(e),
        instruction_bits: instr,
        pipeline_stages: Vec::new(),
        io_output: None,
        io_input_requested: None,
    }
}

/// The result of stepping an already halted CPU.
pub fn halted_result(state: &CpuState) -> (r: StepResult)
    ensures
        r.new_state.pc == state.pc,
        r.new_state.regs@ == state.regs@,
        r.new_state.halted == state.halted,
        r.events@ == seq![TraceEvent::Halted],
        r.undo_log@.len() == 0,
        r.cycles_added == 0,
        r.halted,
        r.error is None,
        r.instruction_bits is None,
        r.pipeline_stages@.len() == 0,
        r.io_output is None,
        r.io_input_requested is None,
{
    let mut events: Vec<TraceEvent> = Vec::new();
    events.push(TraceEvent::Halted);
    StepResult {
        new_state: state.duplicate(),
        events,
        undo_log: Vec::new(),
        cycles_added: 0,
        halted: true,
        error: None,
        instruction_bits: None,
        pipeline_stages: Vec::new(),
        io_output: None,
        io_input_requested: None,
    }
}

/// The result of a step that stops to wait for input: nothing is applied.
pub fn waiting_result(state: &CpuState, instr: u32, pipeline: Vec<PipelineCycleInfo>, req: InputRequest) -> (r: StepResult)
    ensures
        r.new_state.pc == state.pc,
        r.new_state.regs@ == state.regs@,
        r.new_state.halted == state.halted,
        r.events@ == seq![TraceEvent::Fetch, TraceEvent::Decode],
        r.undo_log@.len() == 0,
        r.cycles_added == 0,
        !r.halted,
        r.error is None,
        r.instruction_bits == Some(instr),
        r.pipeline_stages == pipeline,
        r.pipeline_stages@.len() == pipeline@.len(),
        r.io_output is None,
        r.io_input_requested == Some(req),
{
    let mut events: Vec<TraceEvent> = Vec::new();
    events.push(TraceEvent::Fetch);
    events.push(TraceEvent::Decode);
    StepResult {
        new_state: state.duplicate(),
        events,
        undo_log: Vec::new(),
        cycles_added: 0,
        halted: false,
        error: None,
        instruction_bits: Some(instr),
        pipeline_stages: pipeline,
        io_output: None,
        io_input_requested: Some(req),
    }
}

/// An input request of the given kind, prompt and maximum length.
pub fn input_request(kind: &str, prompt: &str, max_length: Option<u32>) -> (r: InputRequest)
    ensures
        r.kind@ == kind@,
        r.prompt@ == prompt@,
        r.max_length == max_length,
{
    InputRequest { kind: lit_string(kind), prompt: lit_string(prompt), max_length }
}

// ---------------------------------------------------------------------------
// Shapes of step results, shared by the architecture contracts
// ---------------------------------------------------------------------------

/// Optional input as characters.
pub open spec fn input_view(input: Option<&str>) -> Option<Seq<char>> {
    match input {
        Some(s) => Some(s@),
        None => None,
    }
}

/// The result keeps the CPU state as it was.
pub open spec fn keeps_state(s: CpuState, r: StepResult) -> bool {
    r.new_state.pc == s.pc && r.new_state.regs@ == s.regs@ && r.new_state.halted == s.halted
}

/// A step that failed: nothing changes and an error is reported.
pub open spec fn failed(s: CpuState, r: StepResult, instr: Option<u32>) -> bool {
    &&& keeps_state(s, r)
    &&& r.events@.len() == 0
    &&& r.undo_log@.len() == 0
    &&& r.cycles_added == 0
    &&& !r.halted
    &&& r.error is Some
    &&& r.instruction_bits == instr
    &&& r.pipeline_stages@.len() == 0
    &&& r.io_output is None
    &&& r.io_input_requested is None
}

/// A step on a halted CPU: nothing changes.
pub open spec fn stays_halted(s: CpuState, r: StepResult) -> bool {
    &&& keeps_state(s, r)
    &&& r.events@ == seq![TraceEvent::Halted]
    &&& r.undo_log@.len() == 0
    &&& r.cycles_added == 0
    &&& r.halted
    &&& r.error is None
    &&& r.instruction_bits is None
    &&& r.pipeline_stages@.len() == 0
    &&& r.io_output is None
    &&& r.io_input_requested is None
}

/// A step that stops before executing to ask for input.
pub open spec fn waits(s: CpuState, r: StepResult, instr: u32, kind: Seq<char>, prompt: Seq<char>, max_length: Option<u32>) -> bool {
    &&& keeps_state(s, r)
    &&& r.events@ == seq![TraceEvent::Fetch, TraceEvent::Decode]
    &&& r.undo_log@.len() == 0
    &&& r.cycles_added == 0
    &&& !r.halted
    &&& r.error is None
    &&& r.instruction_bits == Some(instr)
    &&& stage_names(r.pipeline_stages@) == seq!["Fetch"@, "Decode"@]
    &&& all_carry(r.pipeline_stages@, Some(instr))
    &&& r.io_output is None
    &&& r.io_input_requested matches Some(q) && q.kind@ == kind && q.prompt@ == prompt && q.max_length == max_length
}

/// The output text of a step, as characters.
pub open spec fn output_view(o: Option<String>) -> Option<Seq<char>> {
    match o {
        Some(s) => Some(s@),
        None => None,
    }
}

/// A step that executed, with the given new state, log, events, cycle count and output.
pub open spec fn executed(
    r: StepResult,
    regs: Seq<u32>,
    pc: u32,
    halted: bool,
    log: Seq<UndoEntry>,
    events: Seq<TraceEvent>,
    cycles: u64,
    instr: u32,
    out: Option<Seq<char>>,
    stages: Seq<Seq<char>>,
) -> bool {
    &&& r.new_state.regs@ == regs
    &&& r.new_state.pc == pc
    &&& r.new_state.halted == halted
    &&& r.undo_log@ == log
    &&& r.events@ == events
    &&& r.cycles_added == cycles
    &&& r.halted == halted
    &&& r.error is None
    &&& r.instruction_bits == Some(instr)
    &&& stage_names(r.pipeline_stages@) == stages
    &&& all_carry(r.pipeline_stages@, Some(instr))
    &&& output_view(r.io_output) == out
    &&& r.io_input_requested is None
}

pub open spec fn five_stages() -> Seq<Seq<char>> {
    seq!["Fetch"@, "Decode"@, "Execute"@, "Memory"@, "Write-back"@]
}

pub open spec fn halt_stages() -> Seq<Seq<char>> {
    seq!["Fetch"@, "Decode"@, "Halted"@]
}

pub open spec fn three_stages() -> Seq<Seq<char>> {
    seq!["Fetch"@, "Decode"@, "Execute"@]
}

/// The result of a step that executed.
pub fn executed_result(
    regs: Vec<u32>,
    pc: u32,
    halted: bool,
    log: Vec<UndoEntry>,
    events: Vec<TraceEvent>,
    cycles: u64,
    instr: u32,
    out: Option<String>,
    stages: Vec<PipelineCycleInfo>,
) -> (r: StepResult)
    requires
        all_carry(stages@, Some(instr)),
    ensures
        executed(r, regs@, pc, halted, log@, events@, cycles, instr, output_view(out), stage_names(stages@)),
        r.pipeline_stages == stages,
        r.pipeline_stages@.len() == stages@.len(),
{
    StepResult {
        new_state: CpuState { pc, regs, halted },
        events,
        undo_log: log,
        cycles_added: cycles,
        halted,
        error: None,
        instruction_bits: Some(instr),
        pipeline_stages: stages,
        io_output: out,
        io_input_requested: None,
    }
}

} // verus!

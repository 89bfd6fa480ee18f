//! Selection of an architecture by name and dispatch to its plugin.
use vstd::prelude::*;
use crate::plugin::{CpuState, ResetConfig, StepMode, StepResult, ProgramImage, RegisterSchema, input_view};
use crate::text::{chars_of, to_upper, eq_lit, upper_seq, digit_char, dec_text};
use crate::rv32i_asm::rv_abi_name;
use crate::mips::mips_reg_name;
use crate::undo::faithful;
use crate::lc3::{self, Lc3Plugin};
use crate::i8085::{self, I8085Plugin};
use crate::rv32i::{self, Rv32iPlugin};
use crate::mips::{self, MipsPlugin};
use crate::i6502::{self, I6502Plugin};
use crate::i8086::{self, I8086Plugin};
use crate::scan::{ImageView, image_view};
use crate::lc3_asm::lc3_image;
use crate::i8085_asm::i8085_image;
use crate::rv32i_asm::rv_image;
use crate::mips_asm::mips_image;
use crate::i6502_asm::i6502_image;
use crate::i8086_asm::i8086_image;

verus! {

/// The architectures the simulator knows.
#[derive(Debug, Clone, Copy, PartialEq, Eq, Structural)]
pub enum ArchKind {
    Rv32i,
    Lc3,
    Mips,
    I8085,
    I6502,
    I8086,
}

/// The architecture a name selects (compared upper-cased; RV32I otherwise).
pub open spec fn arch_of(name: Seq<char>) -> ArchKind {
    let u = upper_seq(name);
    if u == "LC3"@ {
        ArchKind::Lc3
    } else if u == "MIPS"@ {
        ArchKind::Mips
    } else if u == "8085"@ {
        ArchKind::I8085
    } else if u == "6502"@ {
        ArchKind::I6502
    } else if u == "8086"@ {
        ArchKind::I8086
    } else {
        ArchKind::Rv32i
    }
}

pub fn arch_kind(name: &str) -> (k: ArchKind)
    ensures
        k == arch_of(name@),
{
    let cs = chars_of(name);
    let u = to_upper(cs.as_slice());
    if eq_lit(u.as_slice(), "LC3") {
        ArchKind::Lc3
    } else if eq_lit(u.as_slice(), "MIPS") {
        ArchKind::Mips
    } else if eq_lit(u.as_slice(), "8085") {
        ArchKind::I8085
    } else if eq_lit(u.as_slice(), "6502") {
        ArchKind::I6502
    } else if eq_lit(u.as_slice(), "8086") {
        ArchKind::I8086
    } else {
        ArchKind::Rv32i
    }
}

/// The number of registers a step of the architecture reads.
pub open spec fn min_regs(k: ArchKind) -> nat {
    match k {
        ArchKind::Lc3 => 9,
        ArchKind::I8085 => 9,
        ArchKind::Rv32i => 32,
        ArchKind::Mips => 0,
        ArchKind::I6502 => 5,
        ArchKind::I8086 => 12,
    }
}

/// The contract of one step of the architecture, including when its undo
/// log faithfully records what the step overwrote.
pub open spec fn arch_step_post(k: ArchKind, s: CpuState, m: Seq<u8>, input: Option<Seq<char>>, r: StepResult) -> bool {
    match k {
        ArchKind::Lc3 => lc3::step_post(s, m, input, r) && (r.error is None ==> faithful(s.regs@, s.pc, m, r.undo_log@)),
        ArchKind::I8085 => i8085::step_post(s, m, r),
        ArchKind::Rv32i => rv32i::step_post(s, m, input, r),
        ArchKind::Mips => mips::step_post(s, m, input, r),
        ArchKind::I6502 => i6502::step_post(s, m, r),
        ArchKind::I8086 => i8086::step_post(s, m, r),
    }
}

/// A step that ran without error records in its undo log exactly what it
/// overwrote.
pub proof fn lemma_step_log_faithful(k: ArchKind, s: CpuState, m: Seq<u8>, input: Option<Seq<char>>, r: StepResult)
    requires
        arch_step_post(k, s, m, input, r),
        r.error is None,
    ensures
        faithful(s.regs@, s.pc, m, r.undo_log@),
{
}

/// Executes one step of the given architecture.
pub fn step_arch(k: ArchKind, state: &CpuState, memory: &[u8], input: Option<&str>) -> (r: StepResult)
    requires
        state.regs@.len() >= min_regs(k),
        memory@.len() <= 0xFFFF_FFFF,
    ensures
        arch_step_post(k, *state, memory@, input_view(input), r),
        r.cycles_added <= 64,
        r.pipeline_stages@.len() <= 64,
        r.io_input_requested is Some ==> input is None && r.undo_log@.len() == 0 && r.error is None,
        r.error is Some ==> r.io_input_requested is None,
{
    match k {
        ArchKind::I8085 => I8085Plugin::new().step(state, memory, StepMode::Instruction, input),
        ArchKind::Rv32i => Rv32iPlugin::new().step(state, memory, StepMode::Instruction, input),
        ArchKind::Mips => MipsPlugin::new().step(state, memory, StepMode::Instruction, input),
        ArchKind::I6502 => I6502Plugin::new().step(state, memory, StepMode::Instruction, input),
        ArchKind::I8086 => I8086Plugin::new().step(state, memory, StepMode::Instruction, input),
        ArchKind::Lc3 => Lc3Plugin::new().step(state, memory, StepMode::Instruction, input),
    }
}

/// The program counter after a reset.
pub open spec fn arch_reset_pc(k: ArchKind) -> u32 {
    match k {
        ArchKind::Lc3 => 0x3000,
        ArchKind::I8085 => 0,
        ArchKind::Rv32i => 0,
        ArchKind::Mips => 0,
        ArchKind::I6502 => 0,
        ArchKind::I8086 => 0,
    }
}

/// The registers after a reset.
pub open spec fn arch_reset_regs(k: ArchKind) -> Seq<u32> {
    match k {
        ArchKind::Lc3 => Seq::new(9, |i: int| 0u32),
        ArchKind::I8085 => Seq::new(9, |i: int| 0u32),
        ArchKind::Rv32i => Seq::new(32, |i: int| 0u32),
        ArchKind::Mips => Seq::new(34, |i: int| 0u32),
        ArchKind::I6502 => Seq::new(5, |i: int| 0u32),
        ArchKind::I8086 => Seq::new(13, |i: int| 0u32),
    }
}

/// The CPU state of a reset of the given architecture.
pub fn reset_arch(k: ArchKind, config: &ResetConfig) -> (s: CpuState)
    ensures
        s.pc == arch_reset_pc(k),
        s.regs@ == arch_reset_regs(k),
        !s.halted,
{
    match k {
        ArchKind::I8085 => I8085Plugin::new().reset(config),
        ArchKind::Rv32i => Rv32iPlugin::new().reset(config),
        ArchKind::Mips => MipsPlugin::new().reset(config),
        ArchKind::I6502 => I6502Plugin::new().reset(config),
        ArchKind::I8086 => I8086Plugin::new().reset(config),
        ArchKind::Lc3 => Lc3Plugin::new().reset(config),
    }
}

/// What assembling `source` for the architecture gives.
pub open spec fn arch_image(k: ArchKind, source: Seq<char>) -> ImageView {
    match k {
        ArchKind::I8085 => i8085_image(source),
        ArchKind::Rv32i => rv_image(source),
        ArchKind::Mips => mips_image(source),
        ArchKind::I6502 => i6502_image(source),
        ArchKind::I8086 => i8086_image(source),
        ArchKind::Lc3 => lc3_image(source),
    }
}

/// Assembles `source` for the given architecture.
pub fn assemble_arch(k: ArchKind, source: &str) -> (img: ProgramImage)
    ensures
        image_view(img) == arch_image(k, source@),
{
    match k {
        ArchKind::I8085 => I8085Plugin::new().assemble(source),
        ArchKind::Rv32i => Rv32iPlugin::new().assemble(source),
        ArchKind::Mips => MipsPlugin::new().assemble(source),
        ArchKind::I6502 => I6502Plugin::new().assemble(source),
        ArchKind::I8086 => I8086Plugin::new().assemble(source),
        ArchKind::Lc3 => Lc3Plugin::new().assemble(source),
    }
}

/// The number of registers the architecture shows.
pub open spec fn shown_regs(k: ArchKind) -> nat {
    match k {
        ArchKind::Lc3 => 9,
        ArchKind::I8085 => 9,
        ArchKind::Rv32i => 32,
        ArchKind::Mips => 34,
        ArchKind::I6502 => 5,
        ArchKind::I8086 => 13,
    }
}

/// The name shown for register `i` of the architecture.
pub open spec fn reg_name_of(k: ArchKind, i: int) -> Seq<char> {
    match k {
        ArchKind::Lc3 => if i < 8 {
            seq!['R', digit_char(i as nat)]
        } else {
            "PSR (NZP)"@
        },
        ArchKind::I8085 => if i == 0 {
            "A"@
        } else if i == 1 {
            "B"@
        } else if i == 2 {
            "C"@
        } else if i == 3 {
            "D"@
        } else if i == 4 {
            "E"@
        } else if i == 5 {
            "H"@
        } else if i == 6 {
            "L"@
        } else if i == 7 {
            "SP"@
        } else {
            "FLAGS (SZACP)"@
        },
        ArchKind::Rv32i => "x"@ + dec_text(i as nat) + " ("@ + rv_abi_name(i) + ")"@,
        ArchKind::Mips => if i < 32 {
            "$"@ + dec_text(i as nat) + " ("@ + mips_reg_name(i) + ")"@
        } else if i == 32 {
            "HI"@
        } else {
            "LO"@
        },
        ArchKind::I6502 => if i == 0 {
            "A"@
        } else if i == 1 {
            "X"@
        } else if i == 2 {
            "Y"@
        } else if i == 3 {
            "SP"@
        } else {
            "P (NV-BDIZC)"@
        },
        ArchKind::I8086 => if i == 0 {
            "AX"@
        } else if i == 1 {
            "BX"@
        } else if i == 2 {
            "CX"@
        } else if i == 3 {
            "DX"@
        } else if i == 4 {
            "SI"@
        } else if i == 5 {
            "DI"@
        } else if i == 6 {
            "BP"@
        } else if i == 7 {
            "SP"@
        } else if i == 8 {
            "FLAGS"@
        } else if i == 9 {
            "CS"@
        } else if i == 10 {
            "DS"@
        } else if i == 11 {
            "SS"@
        } else {
            "ES"@
        },
    }
}

/// The register names of the given architecture.
pub fn register_schema_arch(k: ArchKind) -> (s: RegisterSchema)
    ensures
        s.reg_names@.len() == shown_regs(k),
        forall|i: int| 0 <= i < shown_regs(k) ==> (#[trigger] s.reg_names@[i])@ == reg_name_of(k, i),
        s.pc_name@ == (if k == ArchKind::I8086 { "IP (linear)"@ } else { "PC"@ }),
{
    match k {
        ArchKind::I8085 => I8085Plugin::new().register_schema(),
        ArchKind::Rv32i => Rv32iPlugin::new().register_schema(),
        ArchKind::Mips => MipsPlugin::new().register_schema(),
        ArchKind::I6502 => I6502Plugin::new().register_schema(),
        ArchKind::I8086 => I8086Plugin::new().register_schema(),
        ArchKind::Lc3 => Lc3Plugin::new().register_schema(),
    }
}

/// The number of registers a step of the architecture reads.
pub fn required_regs(k: ArchKind) -> (n: usize)
    ensures
        n == min_regs(k),
{
    match k {
        ArchKind::Lc3 => 9,
        ArchKind::I8085 => 9,
        ArchKind::Rv32i => 32,
        ArchKind::Mips => 0,
        ArchKind::I6502 => 5,
        ArchKind::I8086 => 12,
    }
}

} // verus!

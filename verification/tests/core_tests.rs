use asm_sim::adapter::{arch_config, supported_architectures, ArchitectureConfig};
use asm_sim::arch::{arch_kind, ArchKind};
use asm_sim::asim::{default_memory_size, default_speed, AsimFile};
use asm_sim::commands::{format_run_state, get_run_error, AssembleResponse};
use asm_sim::memory::Memory;
use asm_sim::mips::MipsPlugin;
use asm_sim::plugin::{CpuState, ResetConfig, StepMode};
use asm_sim::rv32i::Rv32iPlugin;
use asm_sim::rv32i_asm::patch_branch_or_jal;
use asm_sim::simulator::{RunState, Simulator};

#[test]
fn memory_reads_back_what_was_written() {
    let mut m = Memory::new(16);
    assert_eq!(m.size(), 16);
    assert_eq!(m.write_u32_le(4, 0xDEADBEEF).unwrap(), [0, 0, 0, 0]);
    assert_eq!(m.read_u32_le(4).unwrap(), 0xDEADBEEF);
    assert_eq!(m.read_u8(4).unwrap(), 0xEF);
    assert_eq!(m.read_u16_le(6).unwrap(), 0xDEAD);
    assert_eq!(m.write_u16_le(6, 0x1234).unwrap(), [0xAD, 0xDE]);
    assert_eq!(m.read_u32_le(4).unwrap(), 0x1234BEEF);
    assert_eq!(m.write_u8(0, 7).unwrap(), 0);
    assert_eq!(m.data()[0], 7);
    m.data_mut()[1] = 9;
    assert_eq!(m.read_u8(1).unwrap(), 9);
}

#[test]
fn memory_out_of_bounds_messages() {
    let mut m = Memory::new(16);
    assert_eq!(m.read_u32_le(13).unwrap_err(), "Memory access out of bounds: 0x0000000D + 4 > 0x00000010");
    assert_eq!(m.read_u8(16).unwrap_err(), "Memory access out of bounds: 0x00000010 + 1 > 0x00000010");
    assert!(m.write_u16_le(15, 1).is_err());
    assert_eq!(m.read_u8(15).unwrap(), 0);
    assert_eq!(m.load_program(14, &[1, 2, 3]).unwrap_err(), "Memory access out of bounds: 0x0000000E + 3 > 0x00000010");
    m.load_program(13, &[1, 2, 3]).unwrap();
    assert_eq!(&m.data()[12..16], &[0, 1, 2, 3]);
}

#[test]
fn arch_config_is_the_same_for_every_architecture() {
    for name in ["lc3", "MIPS", "rv32i", "RISC-V", "8086", "anything"] {
        let c = arch_config(name);
        assert_eq!(c.default_memory_size, 64 * 1024);
        assert_eq!(c.default_entry_label, "_start");
    }
    let d = ArchitectureConfig::default();
    assert_eq!(d.default_memory_size, 65536);
    assert_eq!(supported_architectures(), &["RV32I", "LC3", "MIPS"]);
}

#[test]
fn arch_names_are_case_insensitive() {
    assert_eq!(arch_kind("lc3"), ArchKind::Lc3);
    assert_eq!(arch_kind("Mips"), ArchKind::Mips);
    assert_eq!(arch_kind("8085"), ArchKind::I8085);
    assert_eq!(arch_kind("6502"), ArchKind::I6502);
    assert_eq!(arch_kind("8086"), ArchKind::I8086);
    assert_eq!(arch_kind("z80"), ArchKind::Rv32i);
}

#[test]
fn asim_file_defaults() {
    let f = AsimFile::new("LC3", "HALT".to_string(), 4096, vec![0x3000], 50, Some(1000));
    assert_eq!(f.version, AsimFile::VERSION);
    assert_eq!(f.version, 1);
    assert_eq!(f.arch, "LC3");
    assert_eq!(f.entry_point.as_deref(), Some("_start"));
    assert_eq!(f.breakpoints, vec![0x3000]);
    assert_eq!(f.max_cycle_limit, Some(1000));
    assert_eq!(default_memory_size(), 65536);
    assert_eq!(default_speed(), 100);
    assert_eq!(AsimFile::EXTENSION, "asim");
}

#[test]
fn run_state_names_and_errors() {
    assert_eq!(format_run_state(&RunState::Idle), "IDLE");
    assert_eq!(format_run_state(&RunState::Running), "RUNNING");
    assert_eq!(format_run_state(&RunState::Paused), "PAUSED");
    assert_eq!(format_run_state(&RunState::Halted), "HALTED");
    assert_eq!(format_run_state(&RunState::Error("x".to_string())), "ERROR");
    assert_eq!(get_run_error(&RunState::Error("bad".to_string())).as_deref(), Some("bad"));
    assert_eq!(get_run_error(&RunState::Paused), None);
}

#[test]
fn load_program_and_snapshot() {
    let mut sim = Simulator::new();
    let r = sim.load_program(".ORIG x3000\n_start: ADD R1, R1, #1\nHALT\n.END\n", "LC3", Some(0x4000)).unwrap();
    assert_eq!(r.entry_pc, 0x3000);
    assert_eq!(r.bytes_len, 4);
    assert_eq!(sim.memory.size(), 0x4000);
    sim.step_forward().unwrap();
    let snap = sim.snapshot();
    assert_eq!(snap.state.regs[1], 1);
    assert_eq!(snap.memory_size, 0x4000);
    assert!(snap.can_step_back);
    assert_eq!(snap.run_state, "IDLE");
    assert_eq!(snap.run_error, None);
    assert_eq!(snap.source_map.len(), 2);
    assert_eq!(snap.cycle_details.len(), sim.cycle_details.len());
    assert_eq!(snap.memory.len(), 0x4000);
}

#[test]
fn assemble_check_reports_errors_without_loading() {
    let mut sim = Simulator::new();
    let ok = sim.assemble_check("_start:\n  addi a0, x0, 1\n", "RV32I");
    assert!(ok.ok);
    assert!(sim.program_image.is_none());
    let bad = sim.assemble_check("  FOO\n", "6502");
    assert!(!bad.ok);
    assert_eq!(bad.errors[0].message, "Unknown mnemonic: FOO");
    assert_eq!(sim.arch, "6502");
}

#[test]
fn reset_with_program_and_arch_change() {
    let mut sim = Simulator::new();
    let s = sim.reset_with_program("_start:\n  NOP\n", "MIPS", 1024).unwrap();
    assert_eq!(s.pc, 0);
    assert_eq!(s.regs.len(), 34);
    assert_eq!(sim.memory.size(), 1024);
    let s2 = sim.reset_for_arch_change("LC3", 2048);
    assert_eq!(s2.pc, 0x3000);
    assert!(sim.program_image.is_none());
    assert_eq!(sim.memory.size(), 2048);
    assert!(sim.reset_with_program("  bogus\n", "MIPS", 1024).is_err());
    sim.set_running(true);
    assert_eq!(sim.run_state, RunState::Running);
    sim.set_running(false);
    assert_eq!(sim.run_state, RunState::Paused);
}

#[test]
fn assemble_response_has_no_errors() {
    let mut sim = Simulator::new();
    let img = sim.assemble("_start:\n  addi a0, x0, 1\n", "RV32I").unwrap();
    let r = AssembleResponse::of_image(img);
    assert_eq!(r.bytes, vec![0x13, 0x05, 0x10, 0x00]);
    assert!(r.errors.is_empty());
    assert_eq!(r.entry_pc, 0);
}

#[test]
fn rv32i_label_branch_patch_keeps_registers() {
    let src = "_start:\n  addi t0, x0, 3\n  addi t1, x0, 0\nloop:\n  addi t1, t1, 2\n  addi t0, t0, -1\n  bne t0, x0, loop\n  sw t1, 512(x0)\n  lw a0, 512(x0)\n  lbu a1, 512(x0)\n  addi a7, x0, 10\n  ecall\n";
    let mut sim = Simulator::new();
    sim.assemble(src, "RV32I").unwrap();
    sim.reset(&ResetConfig::default());
    for _ in 0..40 {
        if sim.state.halted {
            break;
        }
        sim.step_forward().unwrap();
    }
    // `bne t0, x0, loop` at 16 with the loop at 8: offset -8, rs1 = x5, funct3 = 1.
    let img = sim.program_image.as_ref().unwrap();
    assert_eq!(u32::from_le_bytes([img.bytes[16], img.bytes[17], img.bytes[18], img.bytes[19]]), 0xFE029CE3);
    assert!(sim.state.halted);
    assert_eq!(sim.state.regs[5], 0);
    assert_eq!(sim.state.regs[6], 6);
    assert_eq!(sim.state.regs[10], 6);
    assert_eq!(sim.state.regs[11], 6);
    assert_eq!(sim.memory.data()[512], 6);
}

#[test]
fn rv32i_branch_patch_changes_only_the_offset() {
    assert_eq!(patch_branch_or_jal(0x0062_9063, 8), 0x0062_9463);
    assert_eq!(patch_branch_or_jal(0x0062_C063, 8), 0x0062_C463);
}

#[test]
fn rv32i_unknown_opcode_is_an_error() {
    let p = Rv32iPlugin::new();
    let s = CpuState { pc: 0, regs: vec![0; 32], halted: false };
    let r = p.step(&s, &[0xFF, 0xFF, 0xFF, 0xFF], StepMode::Instruction, None);
    assert!(r.error.is_some());
    assert_eq!(r.new_state.pc, 0);
    assert!(r.undo_log.is_empty());
}

#[test]
fn rv32i_read_int_waits_for_input() {
    let mut sim = Simulator::new();
    sim.assemble("_start:\n  addi a7, x0, 5\n  ecall\n", "RV32I").unwrap();
    sim.reset(&ResetConfig::default());
    sim.step_forward().unwrap();
    let r = sim.step_forward().unwrap();
    assert!(r.io_input_requested.is_some());
    assert_eq!(sim.state.pc, 4);
    sim.step_forward_with_input(Some(" -12 ")).unwrap();
    assert_eq!(sim.state.regs[10], (-12i32) as u32);
    assert_eq!(sim.state.pc, 8);
}

#[test]
fn rv32i_patches_branch_offsets() {
    let beq = 0x00000063u32;
    let w = patch_branch_or_jal(beq, 8);
    assert_eq!(w, 0x00000463);
    let jal = 0x0000006Fu32;
    assert_eq!(patch_branch_or_jal(jal, 8), 0x0080006F);
}

#[test]
fn mips_store_and_load_word() {
    let src = "_start:\n  addi $t0, $zero, 300\n  sw $t0, 256($zero)\n  lw $t1, 256($zero)\n  addi $v0, $zero, 10\n  syscall\n";
    let mut sim = Simulator::new();
    sim.assemble(src, "MIPS").unwrap();
    sim.reset(&ResetConfig::default());
    for _ in 0..10 {
        if sim.state.halted {
            break;
        }
        sim.step_forward().unwrap();
    }
    assert_eq!(sim.state.regs[9], 300);
    assert_eq!(sim.memory.data()[256], 44);
    assert_eq!(sim.memory.data()[257], 1);
}

#[test]
fn mips_reset_has_thirty_four_registers() {
    let p = MipsPlugin::new();
    let s = p.reset(&ResetConfig::default());
    assert_eq!(s.regs.len(), 34);
    assert_eq!(s.pc, 0);
    assert_eq!(p.name(), "MIPS");
}

#[test]
fn mips_xori_zero_extends_its_immediate() {
    let p = MipsPlugin::new();
    let mut mem = vec![0x00u8, 0x80, 0x08, 0x38];
    mem.extend_from_slice(&[0u8; 12]);
    let s = CpuState { pc: 0, regs: vec![0u32; 34], halted: false };
    let r = p.step(&s, &mem, StepMode::Instruction, None);
    assert!(r.error.is_none());
    assert_eq!(r.new_state.regs[8], 0x0000_8000);
    assert_eq!(r.new_state.pc, 4);
    assert_eq!(r.pipeline_stages[1].action, "Decode XORI $8, $0, 0x8000");
    assert_eq!(r.pipeline_stages[2].action, "ALU: $0 ^ 0x8000 = 32768");
}

#[test]
fn mips_xori_assembled_and_run() {
    let mut sim = Simulator::new();
    sim.assemble("_start:\n  xori $t0, $zero, 0x8000\n  addi $v0, $zero, 10\n  syscall\n", "MIPS").unwrap();
    sim.reset(&ResetConfig::default());
    sim.step_forward().unwrap();
    assert_eq!(sim.state.regs[8], 0x8000);
}

#[test]
fn rv32i_sh_stores_two_bytes_only() {
    let p = Rv32iPlugin::new();
    // sh x5, 0(x6)
    let insn: u32 = (5 << 20) | (6 << 15) | (1 << 12) | 0x23;
    let mut mem = insn.to_le_bytes().to_vec();
    mem.extend_from_slice(&[0xAA; 12]);
    let mut regs = vec![0u32; 32];
    regs[5] = 0x1234_5678;
    regs[6] = 8;
    let r = p.step(&CpuState { pc: 0, regs, halted: false }, &mem, StepMode::Instruction, None);
    assert!(r.error.is_none());
    let mut m = mem.clone();
    for e in &r.undo_log {
        if let asm_sim::plugin::UndoEntry::MemWrite { addr, new_value, old_value } = e {
            assert_eq!(*old_value, mem[*addr as usize]);
            m[*addr as usize] = *new_value;
        }
    }
    assert_eq!(&m[8..12], &[0x78, 0x56, 0xAA, 0xAA]);
    assert_eq!(
        r.undo_log,
        vec![
            asm_sim::plugin::UndoEntry::MemWrite { addr: 8, old_value: 0xAA, new_value: 0x78 },
            asm_sim::plugin::UndoEntry::MemWrite { addr: 9, old_value: 0xAA, new_value: 0x56 },
            asm_sim::plugin::UndoEntry::Pc { old_value: 0, new_value: 4 },
        ]
    );
}

#[test]
fn rv32i_branch_logs_only_the_program_counter() {
    let p = Rv32iPlugin::new();
    // beq x0, x0, +8
    let mut mem = 0x0000_0463u32.to_le_bytes().to_vec();
    mem.extend_from_slice(&[0u8; 12]);
    let r = p.step(&CpuState { pc: 0, regs: vec![0u32; 32], halted: false }, &mem, StepMode::Instruction, None);
    assert_eq!(r.new_state.pc, 8);
    assert_eq!(r.undo_log, vec![asm_sim::plugin::UndoEntry::Pc { old_value: 0, new_value: 8 }]);
}

#[test]
fn rv32i_write_to_x0_is_not_logged() {
    let p = Rv32iPlugin::new();
    // addi x0, x0, 5
    let mut mem = 0x0050_0013u32.to_le_bytes().to_vec();
    mem.extend_from_slice(&[0u8; 12]);
    let r = p.step(&CpuState { pc: 0, regs: vec![0u32; 32], halted: false }, &mem, StepMode::Instruction, None);
    assert_eq!(r.new_state.regs[0], 0);
    assert_eq!(r.undo_log, vec![asm_sim::plugin::UndoEntry::Pc { old_value: 0, new_value: 4 }]);
}

#[test]
fn mips_load_logs_register_then_pc() {
    let p = MipsPlugin::new();
    // lw $t1, 8($zero)
    let mut mem = 0x8C09_0008u32.to_le_bytes().to_vec();
    mem.extend_from_slice(&[0u8; 4]);
    mem.extend_from_slice(&300u32.to_le_bytes());
    let mut regs = vec![0u32; 34];
    regs[9] = 7;
    let r = p.step(&CpuState { pc: 0, regs, halted: false }, &mem, StepMode::Instruction, None);
    assert_eq!(r.new_state.regs[9], 300);
    assert_eq!(
        r.undo_log,
        vec![
            asm_sim::plugin::UndoEntry::RegWrite { reg: 9, old_value: 7, new_value: 300 },
            asm_sim::plugin::UndoEntry::Pc { old_value: 0, new_value: 4 },
        ]
    );
}

#[test]
fn mips_sltiu_zero_extends_its_immediate() {
    let p = MipsPlugin::new();
    // sltiu $t0, $t1, 0x8000
    let mut mem = 0x2D28_8000u32.to_le_bytes().to_vec();
    mem.extend_from_slice(&[0u8; 12]);
    let mut regs = vec![0u32; 34];
    regs[9] = 0x9000;
    let r = p.step(&CpuState { pc: 0, regs: regs.clone(), halted: false }, &mem, StepMode::Instruction, None);
    assert!(r.error.is_none());
    assert_eq!(r.new_state.regs[8], 0);
    assert_eq!(r.pipeline_stages[1].action, "Decode SLTIU $8, $9, 32768");
    regs[9] = 0x7FFF;
    let r = p.step(&CpuState { pc: 0, regs, halted: false }, &mem, StepMode::Instruction, None);
    assert_eq!(r.new_state.regs[8], 1);
}

#[test]
fn rv32i_numeric_branch_offset_encodes_and_runs() {
    let mut sim = Simulator::new();
    let img = sim.assemble("_start:\n  beq x0, x0, 8\n  addi a0, x0, 1\n  addi a7, x0, 10\n  ecall\n", "RV32I").unwrap();
    assert_eq!(u32::from_le_bytes([img.bytes[0], img.bytes[1], img.bytes[2], img.bytes[3]]), 0x0000_0463);
    sim.reset(&ResetConfig::default());
    sim.step_forward().unwrap();
    assert_eq!(sim.state.pc, 8);
    let img = sim.assemble("_start:\n  bne x5, x6, -2048\n", "RV32I").unwrap();
    assert_eq!(u32::from_le_bytes([img.bytes[0], img.bytes[1], img.bytes[2], img.bytes[3]]), 0x8062_90E3);
}

#[test]
fn set_running_changes_only_the_run_state() {
    let mut sim = Simulator::new();
    sim.assemble("_start:\n  addi a0, x0, 1\n  addi a7, x0, 10\n  ecall\n", "RV32I").unwrap();
    sim.reset(&ResetConfig::default());
    sim.set_breakpoints(vec![4]);
    sim.step_forward().unwrap();
    sim.set_running(true);
    assert_eq!(sim.run_state, RunState::Running);
    assert_eq!(sim.breakpoints, vec![4]);
    assert_eq!(sim.total_cycles, 5);
    assert_eq!(sim.undo_stack.len(), 1);
    sim.set_running(false);
    assert_eq!(sim.run_state, RunState::Paused);
}

use asm_sim::i8085::I8085Plugin;
use asm_sim::plugin::{ResetConfig, StepMode, TraceEvent, UndoEntry};

const R_A: usize = 0;
const R_SP: usize = 7;
const R_FLAGS: usize = 8;
const FLAG_C: u32 = 1;

fn load(src: &str) -> (I8085Plugin, Vec<u8>, u32) {
    let p = I8085Plugin::new();
    let img = p.assemble(src);
    assert!(img.errors.is_empty(), "errors: {:?}", img.errors);
    let mut mem = vec![0u8; 0x10000];
    mem[0..img.bytes.len()].copy_from_slice(&img.bytes);
    (p, mem, img.entry_pc)
}

#[test]
fn i8085_inr_dcr_preserve_carry_and_roundtrip_value() {
    let p = I8085Plugin::new();
    let src = r#"
.ORG 0
_start:
  MVI A, 0x0F
  STC
  INR A
  DCR A
  HLT
"#;
    let img = p.assemble(src);
    assert!(img.errors.is_empty(), "errors: {:?}", img.errors);
    let mut mem = vec![0u8; 0x10000];
    mem[0..img.bytes.len()].copy_from_slice(&img.bytes);
    let mut state = p.reset(&ResetConfig::default());
    state.pc = img.entry_pc;
    // MVI
    state = p.step(&state, &mem, StepMode::Instruction, None).new_state;
    // STC
    state = p.step(&state, &mem, StepMode::Instruction, None).new_state;
    let carry_before = state.regs[R_FLAGS] & FLAG_C;
    // INR
    state = p.step(&state, &mem, StepMode::Instruction, None).new_state;
    assert_eq!(carry_before, state.regs[R_FLAGS] & FLAG_C);
    // DCR
    state = p.step(&state, &mem, StepMode::Instruction, None).new_state;
    assert_eq!(carry_before, state.regs[R_FLAGS] & FLAG_C);
    assert_eq!(state.regs[R_A] as u8, 0x0F);
}

#[test]
fn i8085_encodes_mvi_and_hlt() {
    let p = I8085Plugin::new();
    let img = p.assemble("MVI A, 0x0F\nHLT\n");
    assert!(img.errors.is_empty());
    assert_eq!(img.bytes, vec![0x3E, 0x0F, 0x76]);
    assert_eq!(img.entry_pc, 0);
    assert_eq!(img.source_map.len(), 2);
}

#[test]
fn i8085_add_sets_carry_zero_and_parity() {
    let (p, mem, pc) = load("MVI A, 0xFF\nMVI B, 1\nADD B\nHLT\n");
    let mut s = p.reset(&ResetConfig::default());
    s.pc = pc;
    for _ in 0..3 {
        s = p.step(&s, &mem, StepMode::Instruction, None).new_state;
    }
    assert_eq!(s.regs[R_A], 0);
    // Z, P, AC and C set; S clear.
    assert_eq!(s.regs[R_FLAGS], 8 | 2 | 4 | 1);
    let r = p.step(&s, &mem, StepMode::Instruction, None);
    assert!(r.halted && r.new_state.halted);
    assert_eq!(r.new_state.pc, s.pc);
    let again = p.step(&r.new_state, &mem, StepMode::Instruction, None);
    assert_eq!(again.events, vec![TraceEvent::Halted]);
    assert_eq!(again.cycles_added, 0);
}

#[test]
fn i8085_push_and_pop_through_the_stack() {
    let (p, mem, pc) = load("LXI SP, 0x2000\nMVI B, 0x12\nMVI C, 0x34\nPUSH B\nPOP D\nHLT\n");
    let mut s = p.reset(&ResetConfig::default());
    s.pc = pc;
    let mut m = mem.clone();
    for _ in 0..4 {
        let r = p.step(&s, &m, StepMode::Instruction, None);
        assert!(r.error.is_none());
        for e in &r.undo_log {
            if let UndoEntry::MemWrite { addr, new_value, .. } = e {
                m[*addr as usize] = *new_value;
            }
        }
        s = r.new_state;
    }
    assert_eq!(s.regs[R_SP], 0x1FFE);
    assert_eq!(m[0x1FFE], 0x34);
    assert_eq!(m[0x1FFF], 0x12);
    let r = p.step(&s, &m, StepMode::Instruction, None);
    assert_eq!(r.new_state.regs[3], 0x12);
    assert_eq!(r.new_state.regs[4], 0x34);
    assert_eq!(r.new_state.regs[R_SP], 0x2000);
}

#[test]
fn i8085_call_and_return() {
    let (p, mem, pc) = load("LXI SP, 0x100\nCALL sub\nHLT\nsub: MVI A, 7\nRET\n");
    let mut s = p.reset(&ResetConfig::default());
    s.pc = pc;
    let mut m = mem.clone();
    for _ in 0..4 {
        let r = p.step(&s, &m, StepMode::Instruction, None);
        assert!(r.error.is_none());
        for e in &r.undo_log {
            if let UndoEntry::MemWrite { addr, new_value, .. } = e {
                m[*addr as usize] = *new_value;
            }
        }
        s = r.new_state;
    }
    // Back after the CALL, at the HLT.
    assert_eq!(s.pc, 6);
    assert_eq!(s.regs[R_A], 7);
}

#[test]
fn i8085_unknown_opcode_is_an_error() {
    let p = I8085Plugin::new();
    let mem = vec![0x08u8, 0, 0, 0];
    let s = p.reset(&ResetConfig::default());
    let r = p.step(&s, &mem, StepMode::Instruction, None);
    assert_eq!(r.error.as_deref(), Some("Unknown 8085 opcode 0x08 at PC=0x0000"));
    assert_eq!(r.instruction_bits, Some(8));
    assert!(r.undo_log.is_empty());
}

#[test]
fn i8085_fetch_outside_memory_is_an_error() {
    let p = I8085Plugin::new();
    let mem = vec![0u8; 4];
    let mut s = p.reset(&ResetConfig::default());
    s.pc = 8;
    let r = p.step(&s, &mem, StepMode::Instruction, None);
    assert!(r.error.is_some());
    assert_eq!(r.new_state.pc, 8);
}

#[test]
fn i8085_assembler_reports_bad_operands() {
    let p = I8085Plugin::new();
    let img = p.assemble("MOV Q, A\nFOO\n");
    assert_eq!(img.errors.len(), 2);
    assert_eq!(img.errors[0].message, "Invalid MOV destination");
    assert_eq!(img.errors[0].line, 1);
    assert_eq!(img.errors[1].message, "Unknown mnemonic: FOO");
}

#[test]
fn i8085_org_gap_is_padded() {
    let p = I8085Plugin::new();
    let img = p.assemble(".ORG 0x10\nNOP\n.ORG 0x14\nHLT\n");
    assert!(img.errors.is_empty());
    assert_eq!(img.entry_pc, 0x10);
    assert_eq!(img.bytes, vec![0x00, 0, 0, 0, 0x76]);
}

#[test]
fn i8085_mvi_l_writes_register_l_not_memory() {
    let p = I8085Plugin::new();
    let img = p.assemble("MVI L, 0x12");
    assert!(img.errors.is_empty());
    assert_eq!(img.bytes, vec![0x2E, 0x12]);
    let mut mem = vec![0u8; 0x10000];
    mem[0..img.bytes.len()].copy_from_slice(&img.bytes);
    let s = p.reset(&ResetConfig::default());
    let r = p.step(&s, &mem, StepMode::Instruction, None);
    assert!(r.error.is_none());
    assert_eq!(r.new_state.regs[6], 0x12);
    assert_eq!(r.new_state.pc, 2);
    assert!(!r.undo_log.iter().any(|e| matches!(e, UndoEntry::MemWrite { .. })));
}

#[test]
fn i8085_register_operand_codes() {
    let p = I8085Plugin::new();
    let img = p.assemble("MOV B, C\nMOV D, E\nMOV H, L\nMOV M, A\nMOV A, M\nINR L\nDCR M\nADD H\nMVI M, 1\n");
    assert!(img.errors.is_empty());
    assert_eq!(img.bytes, vec![0x41, 0x53, 0x65, 0x77, 0x7E, 0x2C, 0x35, 0x84, 0x36, 0x01]);
}

#[test]
fn i8085_mov_through_memory_at_hl() {
    let (p, mem, pc) = load("MVI H, 0x20\nMVI L, 0x05\nMVI A, 0x5A\nMOV M, A\nMOV B, M\nHLT\n");
    let mut s = p.reset(&ResetConfig::default());
    s.pc = pc;
    let mut m = mem.clone();
    for _ in 0..5 {
        let r = p.step(&s, &m, StepMode::Instruction, None);
        assert!(r.error.is_none());
        for e in &r.undo_log {
            if let UndoEntry::MemWrite { addr, new_value, .. } = e {
                m[*addr as usize] = *new_value;
            }
        }
        s = r.new_state;
    }
    assert_eq!(m[0x2005], 0x5A);
    assert_eq!(s.regs[1], 0x5A);
    assert_eq!(s.regs[5], 0x20);
    assert_eq!(s.regs[6], 0x05);
}

#[test]
fn i8085_address_operands_hold_literals_and_labels() {
    let p = I8085Plugin::new();
    let img = p.assemble("JMP 0x0005");
    assert!(img.errors.is_empty());
    assert_eq!(img.bytes, vec![0xC3, 0x05, 0x00]);
    let img = p.assemble(".ORG 0x10\nstart: NOP\nJMP start\nLDA 0x1234\nSTA 4660\nCALL fwd\nfwd: RET\n");
    assert!(img.errors.is_empty(), "errors: {:?}", img.errors);
    assert_eq!(
        img.bytes,
        vec![0x00, 0xC3, 0x10, 0x00, 0x3A, 0x34, 0x12, 0x32, 0x34, 0x12, 0xCD, 0x1D, 0x00, 0xC9]
    );
}

#[test]
fn i8085_jump_to_literal_address_runs_there() {
    let (p, mem, pc) = load("JMP 0x0005\nNOP\nNOP\nHLT\n");
    let mut s = p.reset(&ResetConfig::default());
    s.pc = pc;
    let r = p.step(&s, &mem, StepMode::Instruction, None);
    assert_eq!(r.new_state.pc, 5);
    let r = p.step(&r.new_state, &mem, StepMode::Instruction, None);
    assert!(r.halted);
}

#[test]
fn i8085_call_then_ret_restores_registers() {
    let (p, mem, pc) = load("LXI SP, 0x100\nMVI A, 3\nCALL sub\nHLT\nsub: RET\n");
    let mut s = p.reset(&ResetConfig::default());
    s.pc = pc;
    let mut m = mem.clone();
    for _ in 0..2 {
        s = p.step(&s, &m, StepMode::Instruction, None).new_state;
    }
    let before = s.regs.clone();
    let call_pc = s.pc;
    for _ in 0..2 {
        let r = p.step(&s, &m, StepMode::Instruction, None);
        for e in &r.undo_log {
            if let UndoEntry::MemWrite { addr, new_value, .. } = e {
                m[*addr as usize] = *new_value;
            }
        }
        s = r.new_state;
    }
    assert_eq!(s.pc, call_pc + 3);
    assert_eq!(s.regs, before);
}

#[test]
fn i8085_push_pop_psw_restores_a_and_flags() {
    let (p, mem, pc) = load("LXI SP, 0x100\nMVI A, 0x90\nADD A\nPUSH PSW\nMVI A, 0\nORA A\nPOP PSW\nHLT\n");
    let mut s = p.reset(&ResetConfig::default());
    s.pc = pc;
    let mut m = mem.clone();
    let mut saved = Vec::new();
    for k in 0..7 {
        if k == 3 {
            saved = s.regs.clone();
        }
        let r = p.step(&s, &m, StepMode::Instruction, None);
        assert!(r.error.is_none());
        for e in &r.undo_log {
            if let UndoEntry::MemWrite { addr, new_value, .. } = e {
                m[*addr as usize] = *new_value;
            }
        }
        s = r.new_state;
        if k == 5 {
            assert_eq!(s.regs[R_A], 0);
            assert_ne!(s.regs[R_FLAGS], saved[R_FLAGS]);
        }
        if k == 6 {
            // POP PSW gives back A and the flags pushed before `MVI A, 0`.
            assert_eq!(s.regs[R_A], 0x20);
            assert_eq!(s.regs[R_A], saved[R_A]);
            assert_eq!(s.regs[R_FLAGS], saved[R_FLAGS]);
            assert_eq!(s.regs[R_SP], 0x100);
        }
    }
}

use asm_sim::i6502::I6502Plugin;
use asm_sim::i6502_asm::encode_6502;
use asm_sim::i8086::I8086Plugin;
use asm_sim::i8086_asm::encode_8086;
use asm_sim::plugin::{CpuState, ResetConfig, StepMode, TraceEvent, UndoEntry};
use asm_sim::simulator::{RunState, Simulator};

fn sim_with(src: &str, arch: &str) -> Simulator {
    let mut sim = Simulator::new();
    let r = sim.assemble(src, arch);
    assert!(r.is_ok(), "assembly failed");
    sim.reset(&ResetConfig::default());
    sim
}

fn chars(s: &str) -> Vec<char> {
    s.chars().collect()
}

#[test]
fn i6502_lda_adc_sta_brk() {
    let mut sim = sim_with("_start:\n  LDA #$05\n  ADC #$03\n  STA $10\n  BRK\n", "6502");
    for _ in 0..4 {
        sim.step_forward().unwrap();
    }
    assert_eq!(sim.state.regs[0], 8);
    assert_eq!(sim.memory.data()[0x10], 8);
    assert!(sim.state.halted);
    assert_eq!(sim.run_state, RunState::Halted);
    assert_eq!(sim.state.pc, 6);
}

#[test]
fn i6502_encodings() {
    let p = I6502Plugin::new();
    let img = p.assemble("LDA #$05\nLDA $10\nLDA $1234\nSTA $0200\nLDX #10\nTAX\nJMP $1234\nCMP #$FF\n");
    assert!(img.errors.is_empty());
    assert_eq!(
        img.bytes,
        vec![0xA9, 0x05, 0xA5, 0x10, 0xAD, 0x34, 0x12, 0x8D, 0x00, 0x02, 0xA2, 10, 0xAA, 0x4C, 0x34, 0x12, 0xC9, 0xFF]
    );
    assert_eq!(img.source_map.len(), 8);
}

#[test]
fn i6502_branch_offset_counts_from_next_instruction() {
    let p = I6502Plugin::new();
    let img = p.assemble("  LDA #0\nloop: ADC #1\n  CMP #5\n  BNE loop\n  BRK\n");
    assert!(img.errors.is_empty());
    assert_eq!(img.bytes[6], 0xD0);
    assert_eq!(img.bytes[7], 0xFA);
    let img = p.assemble("_start:\n  BNE target\n  NOP\ntarget:\n  BRK");
    assert!(img.errors.is_empty());
    assert_eq!(img.entry_pc, 0);
    assert_eq!(img.bytes, vec![0xD0, 0x01, 0xEA, 0x00]);
}

#[test]
fn i6502_assembler_errors() {
    let p = I6502Plugin::new();
    let img = p.assemble("  LDX $10\n  ADC #zz\n  FOO\n  BNE nowhere\n");
    let msgs: Vec<String> = img.errors.iter().map(|e| e.message.clone()).collect();
    assert_eq!(msgs, vec!["LDX #imm only", "Invalid ADC immediate", "Unknown mnemonic: FOO", "Unknown label: nowhere"]);
    assert_eq!(img.errors[0].line, 1);
    assert_eq!(img.errors[3].line, 0);
    let e = encode_6502(&chars("LDY"), &chars("5")).unwrap_err();
    assert_eq!(e, "LDY #imm only");
}

#[test]
fn i6502_org_pads_and_rejects_moving_back() {
    let p = I6502Plugin::new();
    let img = p.assemble(".ORG $0200\n_start: NOP\n.ORG $0204\nBRK\n.ORG $0100\n");
    assert_eq!(img.entry_pc, 0x200);
    assert_eq!(img.bytes, vec![0xEA, 0, 0, 0, 0x00]);
    assert_eq!(img.errors.len(), 1);
    assert_eq!(img.errors[0].message, ".ORG cannot move PC backwards (0x0205 -> 0x0100)");
}

#[test]
fn i6502_pha_pla_roundtrip_through_stack() {
    let mut sim = sim_with("_start:\n  LDA #$42\n  PHA\n  LDA #$00\n  PLA\n  BRK\n", "6502");
    sim.step_forward().unwrap();
    sim.step_forward().unwrap();
    assert_eq!(sim.memory.data()[0x100], 0x42);
    assert_eq!(sim.state.regs[3], 0xFF);
    sim.step_forward().unwrap();
    assert_eq!(sim.state.regs[4] & 0x02, 0x02);
    sim.step_forward().unwrap();
    assert_eq!(sim.state.regs[0], 0x42);
    assert_eq!(sim.state.regs[3], 0);
    assert_eq!(sim.state.regs[4] & 0x02, 0);
}

#[test]
fn i6502_sbc_and_cmp_flags() {
    let p = I6502Plugin::new();
    let mem = vec![0x38, 0xE9, 0x05, 0xC9, 0xFD, 0xEA];
    let mut s = CpuState { pc: 0, regs: vec![3, 0, 0, 0, 0], halted: false };
    s = p.step(&s, &mem, StepMode::Instruction, None).new_state;
    assert_eq!(s.regs[4] & 1, 1);
    let r = p.step(&s, &mem, StepMode::Instruction, None);
    assert_eq!(r.new_state.regs[0], 0xFE);
    assert_eq!(r.new_state.regs[4] & 0x81, 0x80);
    let r2 = p.step(&r.new_state, &mem, StepMode::Instruction, None);
    assert_eq!(r2.new_state.regs[4] & 0x83, 0x01);
}

#[test]
fn i6502_adc_logs_status_then_accumulator() {
    let p = I6502Plugin::new();
    let mem = vec![0x69, 0xFF];
    let s = CpuState { pc: 0, regs: vec![1, 0, 0, 0, 0x01], halted: false };
    let r = p.step(&s, &mem, StepMode::Instruction, None);
    assert_eq!(r.new_state.regs[0], 1);
    assert_eq!(r.new_state.regs[4], 0x01);
    assert_eq!(
        r.undo_log,
        vec![
            UndoEntry::RegWrite { reg: 4, old_value: 0x01, new_value: 0 },
            UndoEntry::RegWrite { reg: 0, old_value: 1, new_value: 1 },
        ]
    );
    assert_eq!(r.events, vec![TraceEvent::Fetch, TraceEvent::Decode, TraceEvent::Alu, TraceEvent::RegWrite]);
    assert_eq!(r.cycles_added, 2);
}

#[test]
fn i6502_unknown_opcode_and_fetch_errors() {
    let p = I6502Plugin::new();
    let s = CpuState { pc: 0, regs: vec![0; 5], halted: false };
    let r = p.step(&s, &[0xFF], StepMode::Instruction, None);
    assert_eq!(r.error.as_deref(), Some("Unknown 6502 opcode 0xFF at PC=0x0000"));
    assert_eq!(r.instruction_bits, Some(0xFF));
    let s2 = CpuState { pc: 0x10005, regs: vec![0; 5], halted: false };
    let r2 = p.step(&s2, &[0u8; 4], StepMode::Instruction, None);
    assert_eq!(r2.error.as_deref(), Some("Memory access out of bounds: 0x00000005 + 1 > 0x00000004"));
}

#[test]
fn i6502_jsr_pushes_return_and_jumps() {
    let p = I6502Plugin::new();
    let mem = vec![0x20, 0x34, 0x12];
    let s = CpuState { pc: 0, regs: vec![0, 0, 0, 0, 0], halted: false };
    let r = p.step(&s, &mem, StepMode::Instruction, None);
    assert_eq!(r.new_state.pc, 0x1234);
    assert_eq!(r.new_state.regs[3], 0xFE);
    assert_eq!(
        r.undo_log,
        vec![
            UndoEntry::MemWrite { addr: 0x100, old_value: 0, new_value: 0 },
            UndoEntry::MemWrite { addr: 0x1FF, old_value: 0, new_value: 2 },
            UndoEntry::RegWrite { reg: 3, old_value: 0, new_value: 0xFE },
            UndoEntry::Pc { old_value: 0, new_value: 0x1234 },
        ]
    );
}

#[test]
fn i6502_reset_and_schema() {
    let p = I6502Plugin::new();
    let s = p.reset(&ResetConfig::default());
    assert_eq!(s.regs, vec![0; 5]);
    assert_eq!(p.name(), "6502");
    assert_eq!(p.register_schema().reg_names[4], "P (NV-BDIZC)");
}

#[test]
fn i8086_mov_add_hlt() {
    let mut sim = sim_with("_start:\n  MOV AX, 5\n  MOV BX, 7\n  ADD AX, BX\n  HLT\n", "8086");
    for _ in 0..4 {
        sim.step_forward().unwrap();
    }
    assert_eq!(sim.state.regs[0], 12);
    assert_eq!(sim.state.regs[1], 7);
    assert!(sim.state.halted);
}

#[test]
fn i8086_push_pop_through_stack() {
    let mut sim = sim_with("_start:\n  MOV AX, 1234\n  PUSH AX\n  POP BX\n  HLT\n", "8086");
    sim.step_forward().unwrap();
    sim.step_forward().unwrap();
    assert_eq!(sim.state.regs[7], 0xFFFE);
    assert_eq!(sim.memory.data()[0xFFFE], 0x34);
    assert_eq!(sim.memory.data()[0xFFFF], 0x12);
    sim.step_forward().unwrap();
    assert_eq!(sim.state.regs[1], 0x1234);
    assert_eq!(sim.state.regs[7], 0);
}

#[test]
fn i8086_sub_sets_zero_and_carry() {
    let p = I8086Plugin::new();
    let mem = vec![0x2B, 0xC0];
    let s = CpuState { pc: 0, regs: vec![5, 0, 0, 0, 0, 0, 0, 0, 0, 0, 0, 0, 0], halted: false };
    let r = p.step(&s, &mem, StepMode::Instruction, None);
    assert_eq!(r.new_state.regs[0], 0);
    assert_eq!(r.new_state.regs[8], 0x41);
    assert_eq!(r.new_state.pc, 2);
}

#[test]
fn i8086_encodings() {
    let p = I8086Plugin::new();
    let img = p.assemble("MOV AX, 1234\nMOV CX, DX\nADD AX, BX\nSUB SI, DI\nPUSH BP\nPOP SP\nRET\nNOP\nHLT\n");
    assert!(img.errors.is_empty());
    assert_eq!(
        img.bytes,
        vec![0xB8, 0x34, 0x12, 0x8B, 0xD3, 0x03, 0xC1, 0x2B, 0xE5, 0x56, 0x5F, 0xC3, 0x90, 0xF4]
    );
}

#[test]
fn i8086_jump_displacements_count_from_next_instruction() {
    let p = I8086Plugin::new();
    let img = p.assemble("  JMP skip\n  MOV AX, 1\nskip: HLT\n  JMP 0\n");
    assert!(img.errors.is_empty());
    assert_eq!(&img.bytes[0..3], &[0xE9, 0x03, 0x00]);
    assert_eq!(&img.bytes[7..9], &[0xEB, 0xF7]);
    let args = vec![chars("0")];
    assert_eq!(encode_8086(&chars("JMP"), &args, 7).unwrap(), vec![0xEB, 0xF7]);
    assert_eq!(encode_8086(&chars("JMP"), &vec![chars("0x1000")], 0).unwrap(), vec![0xE9, 0xFD, 0x0F]);
    let img = p.assemble("_start:\n  JMP target\n  NOP\ntarget:\n  HLT");
    assert!(img.errors.is_empty());
    assert_eq!(img.bytes, vec![0xE9, 0x01, 0x00, 0x90, 0xF4]);
    let img = p.assemble("  JZ target\n  NOP\ntarget: HLT\n");
    assert!(img.errors.is_empty());
    assert_eq!(img.bytes, vec![0x74, 0x01, 0x90, 0xF4]);
}

#[test]
fn i8086_labelled_jump_lands_on_its_target() {
    let p = I8086Plugin::new();
    let img = p.assemble("_start:\n  JMP target\n  NOP\ntarget:\n  HLT");
    let mut mem = vec![0u8; 0x100];
    mem[0..img.bytes.len()].copy_from_slice(&img.bytes);
    let s = CpuState { pc: 0, regs: vec![0; 13], halted: false };
    let r = p.step(&s, &mem, StepMode::Instruction, None);
    assert_eq!(r.new_state.pc, 4);
    let r = p.step(&r.new_state, &mem, StepMode::Instruction, None);
    assert!(r.halted);
}

#[test]
fn i8086_assembler_errors() {
    let p = I8086Plugin::new();
    let img = p.assemble("MOV AX\nADD AX, QX\nPUSH\nCALL\nFOO\nJZ nowhere\n");
    let msgs: Vec<String> = img.errors.iter().map(|e| e.message.clone()).collect();
    assert_eq!(
        msgs,
        vec!["MOV needs 2 operands", "Invalid ADD src", "Invalid PUSH reg", "Unknown mnemonic: FOO", "Unknown label: ", "Unknown label: nowhere"]
    );
}

#[test]
fn i8086_call_and_ret() {
    let p = I8086Plugin::new();
    let mut mem = vec![0u8; 0x10000];
    mem[0] = 0xE8;
    mem[1] = 0x10;
    mem[2] = 0x00;
    let s = CpuState { pc: 0, regs: vec![0; 13], halted: false };
    let r = p.step(&s, &mem, StepMode::Instruction, None);
    assert_eq!(r.new_state.pc, 0x13);
    assert_eq!(r.new_state.regs[7], 0xFFFE);
    mem[0xFFFE] = 3;
    mem[0xFFFF] = 0;
    mem[0x13] = 0xC3;
    let r2 = p.step(&r.new_state, &mem, StepMode::Instruction, None);
    assert_eq!(r2.new_state.pc, 3);
    assert_eq!(r2.new_state.regs[7], 0);
}

#[test]
fn i8086_unknown_opcode() {
    let p = I8086Plugin::new();
    let s = CpuState { pc: 1, regs: vec![0; 13], halted: false };
    let r = p.step(&s, &[0x90, 0x00], StepMode::Instruction, None);
    assert_eq!(r.error.as_deref(), Some("Unknown 8086 opcode 0x00 at linear 0x00001"));
}

#[test]
fn i8086_jz_taken_and_not_taken() {
    let p = I8086Plugin::new();
    let mem = vec![0x74, 0x05];
    let mut regs = vec![0u32; 13];
    regs[8] = 0x40;
    let r = p.step(&CpuState { pc: 0, regs: regs.clone(), halted: false }, &mem, StepMode::Instruction, None);
    assert_eq!(r.new_state.pc, 7);
    regs[8] = 0;
    let r2 = p.step(&CpuState { pc: 0, regs, halted: false }, &mem, StepMode::Instruction, None);
    assert_eq!(r2.new_state.pc, 2);
}

#[test]
fn i6502_jsr_then_rts_returns_after_the_call() {
    let p = I6502Plugin::new();
    let mut mem = vec![0u8; 0x10000];
    mem[0..3].copy_from_slice(&[0x20, 0x10, 0x00]);
    mem[0x10] = 0x60;
    let s = CpuState { pc: 0, regs: vec![0, 0, 0, 0xFF, 0], halted: false };
    let r = p.step(&s, &mem, StepMode::Instruction, None);
    assert_eq!(r.new_state.pc, 0x10);
    assert_eq!(r.new_state.regs[3], 0xFD);
    for e in &r.undo_log {
        if let UndoEntry::MemWrite { addr, new_value, .. } = e {
            mem[*addr as usize] = *new_value;
        }
    }
    let r2 = p.step(&r.new_state, &mem, StepMode::Instruction, None);
    assert!(r2.error.is_none());
    assert_eq!(r2.new_state.pc, 3);
    assert_eq!(r2.new_state.regs[3], 0xFF);
}

#[test]
fn i6502_jsr_to_hex_address() {
    let p = I6502Plugin::new();
    let img = p.assemble("JSR $0010");
    assert!(img.errors.is_empty(), "errors: {:?}", img.errors);
    assert_eq!(img.bytes, vec![0x20, 0x10, 0x00]);
    let img = p.assemble("  JSR sub\n  BRK\nsub: RTS\n");
    assert!(img.errors.is_empty());
    assert_eq!(img.bytes, vec![0x20, 0x04, 0x00, 0x00, 0x60]);
}

#[test]
fn i6502_pha_and_pla_logs() {
    let p = I6502Plugin::new();
    let mut mem = vec![0u8; 0x200];
    mem[0] = 0x48;
    mem[1] = 0x68;
    mem[0x1F0] = 0x33;
    let s = CpuState { pc: 0, regs: vec![0x44, 0, 0, 0xF0, 0], halted: false };
    let r = p.step(&s, &mem, StepMode::Instruction, None);
    assert_eq!(
        r.undo_log,
        vec![
            UndoEntry::MemWrite { addr: 0x1F0, old_value: 0x33, new_value: 0x44 },
            UndoEntry::RegWrite { reg: 3, old_value: 0xF0, new_value: 0xEF },
        ]
    );
    mem[0x1F0] = 0x44;
    let mut s2 = r.new_state.clone();
    s2.regs[0] = 0;
    let r2 = p.step(&s2, &mem, StepMode::Instruction, None);
    assert_eq!(
        r2.undo_log,
        vec![
            UndoEntry::RegWrite { reg: 3, old_value: 0xEF, new_value: 0xF0 },
            UndoEntry::RegWrite { reg: 0, old_value: 0, new_value: 0x44 },
        ]
    );
    assert_eq!(r2.new_state.regs[0], 0x44);
}

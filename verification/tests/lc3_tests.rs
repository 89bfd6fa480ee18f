use asm_sim::lc3::Lc3Plugin;
use asm_sim::plugin::{CpuState, StepMode};

#[test]
fn lc3_assembles_pc_relative_labels_from_pc_plus_2_in_words() {
    let p = Lc3Plugin::new();
    // At x3000: BRnzp target; next_pc = x3002; target at x3006 => diff_bytes=4 => diff_words=2
    let src = r#"
.ORIG x3000
_start:
  BRnzp target
  NOP
  NOP
target:
  NOP
.END
"#;
    let img = p.assemble(src);
    assert!(img.errors.is_empty(), "errors: {:?}", img.errors);
    let br = u16::from_le_bytes([img.bytes[0], img.bytes[1]]);
    // BR with NZP=111 sets bits 11..9 => 0b111 at 0x0E00
    assert_eq!(br & 0xFE00, 0x0E00);
    assert_eq!(br & 0x01FF, 2);
}

#[test]
fn lc3_executes_pc_relative_using_next_pc_and_word_scaling() {
    let p = Lc3Plugin::new();
    // BRnzp to the label two bytes ahead (1 word) should jump to x3004.
    let src = r#"
.ORIG x3000
_start:
  BRnzp target
  NOP
target:
  NOP
.END
"#;
    let img = p.assemble(src);
    assert!(img.errors.is_empty(), "errors: {:?}", img.errors);
    let mut mem = vec![0u8; 0x10000];
    mem[0x3000..0x3000 + img.bytes.len()].copy_from_slice(&img.bytes);
    let state = CpuState { pc: 0x3000, regs: vec![0u32; 9], halted: false };
    let r = p.step(&state, &mem, StepMode::Instruction, None);
    assert!(r.error.is_none(), "error: {:?}", r.error);
    assert_eq!(r.new_state.pc, 0x3004);
}

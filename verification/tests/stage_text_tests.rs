use asm_sim::plugin::ResetConfig;
use asm_sim::simulator::Simulator;

fn ready(src: &str, arch: &str) -> Simulator {
    let mut sim = Simulator::new();
    let r = sim.assemble(src, arch);
    assert!(r.is_ok(), "assembly failed");
    sim.reset(&ResetConfig::default());
    sim
}

fn actions(sim: &mut Simulator) -> Vec<String> {
    let r = sim.step_forward().unwrap();
    r.pipeline_stages.iter().map(|c| c.action.clone()).collect()
}

#[test]
fn lc3_add_immediate_stage_texts() {
    let mut sim = ready(".ORIG x3000\n_start: ADD R0, R0, #1\nHALT\n.END\n", "LC3");
    assert_eq!(
        actions(&mut sim),
        vec![
            "Load 0x1021 from IMem[PC=0x3000]",
            "Extract DR=R0, SR1=R0",
            "ALU: R0 + 1 = 0x0001",
            "NOP",
            "R0 ← 0x0001",
        ]
    );
}

#[test]
fn rv32i_addi_stage_texts() {
    let mut sim = ready("_start:\n  addi x1, x0, 5\n", "RV32I");
    assert_eq!(
        actions(&mut sim),
        vec![
            "Load 0x00500093 from IMem[PC=0x00000000]",
            "Extract rd=x1, rs1=x0, imm=5",
            "ALU: x0 op imm = 5",
            "NOP (no memory access)",
            "x1 ← 5",
        ]
    );
}

#[test]
fn mips_addi_stage_texts() {
    let mut sim = ready("_start:\n  addi $t0, $zero, 10\n", "MIPS");
    assert_eq!(
        actions(&mut sim),
        vec![
            "Load 0x2008000A from IMem[PC=0x00000000]",
            "Decode ADDI $8, $0, 10",
            "ALU: $0 + 10 = 10",
            "NOP",
            "$8 ← 10",
        ]
    );
}

#[test]
fn i6502_lda_immediate_stage_texts() {
    let mut sim = ready("_start:\n  LDA #$42\n  BRK\n", "6502");
    assert_eq!(actions(&mut sim), vec!["Fetch LDA #", "Decode", "A ← 0x42"]);
}

#[test]
fn i8085_mvi_stage_texts() {
    let mut sim = ready("_start:\n  MVI A, 0x05\n  HLT\n", "8085");
    assert_eq!(actions(&mut sim), vec!["Fetch MVI", "Decode", "Load 0x05"]);
}

#[test]
fn i8086_mov_immediate_stage_texts() {
    let mut sim = ready("_start:\n  MOV AX, 5\n  HLT\n", "8086");
    assert_eq!(actions(&mut sim), vec!["Fetch MOV reg,imm", "Decode", "reg0 ← 0x0005"]);
}

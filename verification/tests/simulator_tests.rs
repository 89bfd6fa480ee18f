use asm_sim::plugin::ResetConfig;
use asm_sim::simulator::{RunState, Simulator};

fn loaded(src: &str, arch: &str) -> Simulator {
    let mut sim = Simulator::new();
    let img = sim.assemble(src, arch);
    assert!(img.is_ok(), "assembly failed");
    sim.reset(&ResetConfig::default());
    sim
}

fn run_to_halt(sim: &mut Simulator, max_steps: usize) {
    for _ in 0..max_steps {
        if sim.state.halted {
            return;
        }
        sim.step_forward().expect("step failed");
    }
    panic!("did not halt");
}

#[test]
fn rv32i_hello_world_prints_hi() {
    let src = "_start:\n  lui  a0, 0x10000\n  addi a0, a0, 72\n  addi a7, x0, 12\n  ecall\n  addi a0, x0, 105\n  ecall\n  addi a7, x0, 10\n  ecall\n";
    let mut sim = loaded(src, "RV32I");
    run_to_halt(&mut sim, 20);
    assert_eq!(sim.io_output, "Hi");
    assert_eq!(sim.run_state, RunState::Halted);
}

#[test]
fn rv32i_print_int_sample() {
    let src = "_start:\n  addi a0, x0, 42\n  addi a7, x0, 11\n  ecall\n  addi a7, x0, 10\n  ecall\n";
    let mut sim = loaded(src, "rv32i");
    run_to_halt(&mut sim, 10);
    assert_eq!(sim.io_output, "42");
    assert_eq!(sim.state.regs[10], 42);
}

#[test]
fn mips_add_two_numbers_prints_thirty() {
    let src = "_start:\n  addi $t0, $zero, 10\n  addi $t1, $zero, 20\n  add  $t2, $t0, $t1\n  addi $v0, $zero, 1\n  add  $a0, $zero, $t2\n  syscall\n  addi $v0, $zero, 10\n  syscall\n";
    let mut sim = loaded(src, "MIPS");
    run_to_halt(&mut sim, 20);
    assert_eq!(sim.io_output, "30");
    assert_eq!(sim.state.regs[10], 30);
}

#[test]
fn mips_print_char_sample() {
    let src = "_start:\n  addi $a0, $zero, 72\n  addi $v0, $zero, 11\n  syscall\n  addi $v0, $zero, 10\n  syscall\n";
    let mut sim = loaded(src, "mips");
    run_to_halt(&mut sim, 10);
    assert_eq!(sim.io_output, "H");
}

#[test]
fn lc3_echo_input_sample() {
    let src = ".ORIG x3000\n_start:\n  TRAP x22\n  TRAP x20\n  ADD  R0, R0, #0\n  BRz  done\n  LD   R0, newline\n  TRAP x20\n  BRnzp _start\ndone:\n  HALT\nnewline: .FILL x000A\n.END\n";
    let mut sim = loaded(src, "LC3");
    assert_eq!(sim.state.pc, 0x3000);
    let r = sim.step_forward().expect("step");
    assert!(r.io_input_requested.is_some());
    assert!(sim.pending_input_request.is_some());
    assert_eq!(sim.state.pc, 0x3000);
    sim.step_forward_with_input(Some("A")).expect("step");
    assert_eq!(sim.state.regs[0], 'A' as u32);
    assert_eq!(sim.io_output, "A");
    for _ in 0..5 {
        sim.step_forward().expect("step");
    }
    assert_eq!(sim.io_output, "AA\n");
    sim.step_forward().expect("step");
    assert_eq!(sim.state.pc, 0x3000);
}

#[test]
fn step_back_restores_registers_memory_and_cycles() {
    let src = "_start:\n  addi t0, x0, 256\n  addi a0, x0, 7\n  sw a0, 0(t0)\n";
    let mut sim = loaded(src, "RV32I");
    sim.step_forward().unwrap();
    sim.step_forward().unwrap();
    let cycles_before = sim.total_cycles;
    let regs_before = sim.state.regs.clone();
    let pc_before = sim.state.pc;
    sim.step_forward().unwrap();
    assert_eq!(sim.memory.data()[256], 7);
    sim.step_back().unwrap();
    assert_eq!(sim.memory.data()[256], 0);
    assert_eq!(sim.state.regs, regs_before);
    assert_eq!(sim.state.pc, pc_before);
    assert_eq!(sim.total_cycles, cycles_before);
    assert_eq!(sim.undo_stack.len(), 2);
    sim.step_back().unwrap();
    sim.step_back().unwrap();
    assert_eq!(sim.state.pc, 0);
    assert!(sim.state.regs.iter().all(|&r| r == 0));
    assert_eq!(sim.total_cycles, 0);
    assert!(sim.step_back().is_err());
}

#[test]
fn step_back_removes_printed_output() {
    let src = "_start:\n  addi a0, x0, 65\n  addi a7, x0, 12\n  ecall\n  ecall\n";
    let mut sim = loaded(src, "RV32I");
    for _ in 0..4 {
        sim.step_forward().unwrap();
    }
    assert_eq!(sim.io_output, "AA");
    sim.step_back().unwrap();
    assert_eq!(sim.io_output, "A");
    sim.step_back().unwrap();
    assert_eq!(sim.io_output, "");
}

#[test]
fn run_tick_pauses_at_breakpoint() {
    let src = "_start:\n  addi a0, x0, 1\n  addi a0, a0, 1\n  addi a0, a0, 1\n  addi a7, x0, 10\n  ecall\n";
    let mut sim = loaded(src, "RV32I");
    sim.set_breakpoints(vec![8]);
    sim.set_run_state(RunState::Running);
    let first = sim.run_tick().unwrap();
    assert!(first.is_some());
    let second = sim.run_tick().unwrap();
    assert!(second.is_some());
    assert_eq!(sim.state.pc, 8);
    assert_eq!(sim.run_state, RunState::Paused);
    assert!(sim.run_tick().unwrap().is_none());
    assert_eq!(sim.state.regs[10], 2);
}

#[test]
fn run_tick_does_nothing_when_not_running() {
    let mut sim = loaded("_start:\n  addi a0, x0, 1\n", "RV32I");
    assert!(sim.run_tick().unwrap().is_none());
    assert_eq!(sim.state.pc, 0);
}

#[test]
fn stepping_a_halted_cpu_is_an_error() {
    let mut sim = loaded("_start:\n  addi a7, x0, 10\n  ecall\n", "RV32I");
    run_to_halt(&mut sim, 5);
    assert_eq!(sim.step_forward().unwrap_err(), "CPU halted");
}

#[test]
fn failing_step_sets_error_state() {
    let mut sim = Simulator::new();
    sim.reset(&ResetConfig { memory_size: 16 });
    sim.state.pc = 16;
    let e = sim.step_forward().unwrap_err();
    assert!(e.starts_with("Memory access out of bounds"));
    assert_eq!(sim.run_state, RunState::Error(e));
}

#[test]
fn assemble_errors_keep_previous_program() {
    let mut sim = Simulator::new();
    assert!(sim.assemble("_start:\n  addi a0, x0, 1\n", "RV32I").is_ok());
    let errs = sim.assemble("  bogus x1\n", "RV32I").unwrap_err();
    assert!(!errs.is_empty());
    assert!(sim.program_image.is_some());
    assert_eq!(sim.program_image.as_ref().unwrap().bytes.len(), 4);
}

#[test]
fn set_memory_size_reloads_program() {
    let mut sim = loaded("_start:\n  addi a0, x0, 1\n", "RV32I");
    sim.set_memory_size(4096);
    assert_eq!(sim.memory.size(), 4096);
    assert_eq!(sim.memory.data()[0], 0x13);
}

#[test]
fn reset_clears_history() {
    let mut sim = loaded("_start:\n  addi a0, x0, 3\n", "RV32I");
    sim.step_forward().unwrap();
    let s = sim.reset(&ResetConfig::default());
    assert_eq!(s.pc, 0);
    assert_eq!(sim.state.regs[10], 0);
    assert!(sim.undo_stack.is_empty());
    assert_eq!(sim.total_cycles, 0);
    assert!(sim.cycle_details.is_empty());
    assert_eq!(sim.run_state, RunState::Idle);
}

#[test]
fn cycle_details_number_each_stage() {
    let mut sim = loaded("_start:\n  addi a0, x0, 3\n  addi a0, x0, 4\n", "RV32I");
    sim.step_forward().unwrap();
    sim.step_forward().unwrap();
    assert_eq!(sim.cycle_details.len(), 10);
    assert_eq!(sim.cycle_details[0].cycle, 1);
    assert_eq!(sim.cycle_details[9].cycle, 10);
    assert_eq!(sim.cycle_details[5].stage, "Fetch");
    assert_eq!(sim.total_cycles, 10);
}

fn details_of(sim: &Simulator) -> Vec<(u64, String, Option<u32>, String)> {
    sim.cycle_details.iter().map(|d| (d.cycle, d.stage.clone(), d.instruction_bits, d.action.clone())).collect()
}

/// Steps forward and back once, checking that the step back restores what
/// the step changed, then steps forward again.
fn step_and_undo(sim: &mut Simulator) {
    let pc = sim.state.pc;
    let regs = sim.state.regs.clone();
    let mem = sim.memory.data().to_vec();
    let cycles = sim.total_cycles;
    let details = details_of(sim);
    let out = sim.io_output.clone();
    let depth = sim.undo_stack.len();
    sim.step_forward().unwrap();
    sim.step_back().unwrap();
    assert_eq!(sim.state.pc, pc);
    assert_eq!(sim.state.regs, regs);
    assert!(sim.memory.data() == &mem[..]);
    assert_eq!(sim.total_cycles, cycles);
    assert_eq!(details_of(sim), details);
    assert_eq!(sim.io_output, out);
    assert_eq!(sim.undo_stack.len(), depth);
    assert!(sim.pending_input_request.is_none());
    sim.step_forward().unwrap();
}

#[test]
fn step_back_undoes_8085_calls_pushes_pops_and_returns() {
    let src = "LXI SP, 0x2000\nMVI B, 0x12\nNOP\nCALL sub\nHLT\nsub: PUSH B\nPOP D\nRET\n";
    let mut sim = loaded(src, "8085");
    for _ in 0..7 {
        step_and_undo(&mut sim);
    }
    assert_eq!(sim.state.pc, 9);
    assert_eq!(sim.state.regs[7], 0x2000);
    assert_eq!(sim.state.regs[3], 0x12);
}

#[test]
fn step_back_after_8085_nop_removes_its_three_cycle_rows() {
    let mut sim = loaded("NOP\nNOP\nHLT\n", "8085");
    sim.step_forward().unwrap();
    assert_eq!(sim.cycle_details.len(), 3);
    sim.step_forward().unwrap();
    assert_eq!(sim.cycle_details.len(), 6);
    sim.step_back().unwrap();
    assert_eq!(sim.cycle_details.len(), 3);
    assert_eq!(sim.total_cycles, 1);
}

#[test]
fn step_back_undoes_8086_call_push_pop_and_ret() {
    let src = "_start:\n  MOV AX, 5\n  CALL sub\n  HLT\nsub:\n  PUSH AX\n  POP BX\n  RET\n";
    let mut sim = loaded(src, "8086");
    for _ in 0..6 {
        step_and_undo(&mut sim);
    }
    assert_eq!(sim.state.regs[1], 5);
}

#[test]
fn step_back_undoes_6502_jsr_and_rts() {
    let src = "_start:\n  LDX #$FF\n  JSR sub\n  BRK\nsub:\n  LDA #$07\n  RTS\n";
    let mut sim = loaded(src, "6502");
    for _ in 0..4 {
        step_and_undo(&mut sim);
    }
    assert_eq!(sim.state.pc, 5);
    assert_eq!(sim.state.regs[0], 7);
}

#[test]
fn step_back_undoes_rv32i_halfword_store() {
    let src = "_start:\n  addi t0, x0, 256\n  addi t1, x0, -1\n  sw t1, 0(t0)\n  addi t2, x0, 291\n  sh t2, 0(t0)\n";
    let mut sim = loaded(src, "RV32I");
    for _ in 0..5 {
        step_and_undo(&mut sim);
    }
    assert_eq!(&sim.memory.data()[256..260], &[0x23, 0x01, 0xFF, 0xFF]);
}

#[test]
fn step_forward_on_halted_cpu_needs_no_registers() {
    let mut sim = Simulator::new();
    sim.state.halted = true;
    sim.state.regs.clear();
    assert_eq!(sim.step_forward().unwrap_err(), "CPU halted");
}

#[test]
fn step_back_restores_a_wide_program_counter() {
    let mut sim = loaded(".ORIG x3000\nstart:\n  ADD R0, R0, #1\n  BRnzp start\n.END\n", "LC3");
    sim.state.pc = 0x13000;
    step_and_undo(&mut sim);
    assert_eq!(sim.state.pc, 0x3002);
    let mut sim = loaded("_start:\n  NOP\n  JMP 0x0000\n", "8085");
    sim.state.pc = 0x10000;
    step_and_undo(&mut sim);
    step_and_undo(&mut sim);
    assert_eq!(sim.state.pc, 0);
}

//! LC-3 (Little Computer 3): 16-bit instructions, registers R0-R7 and a hidden
//! PSR (N<<2 | Z<<1 | P) in register 8, byte-addressed memory.
use vstd::prelude::*;
use crate::plugin::{
    CpuState, ResetConfig, StepMode, StepResult, TraceEvent, UndoEntry, PipelineCycleInfo, input_view,
    failed, stays_halted, waits, executed, five_stages, halt_stages, executed_result,
    error_result, halted_result, waiting_result, input_request, pipeline_5, pipeline_halt, pipeline_wait,
    stage_names, stage_actions, all_carry,
};
use crate::memory::{Memory, in_bounds, read16, oob_message};
use crate::fmt::{Text, lit, escape_nl, escape_newlines};
use crate::text::{chars_of, hex_text, dec_text, int_text};
use crate::effects::load8;
use crate::undo::{fwd_mem, faithful, lemma_faithful_pc, lemma_faithful_reg_pc, lemma_faithful_reg2_pc, lemma_faithful_mem_writes, mem_writes, overwrite};

verus! {

pub struct Lc3Plugin;

// ---------------------------------------------------------------------------
// Semantics
// ---------------------------------------------------------------------------

pub open spec fn wrap16(v: int) -> u16 {
    (v % 0x10000) as u16
}

/// Two's complement value of the low bits of a field whose sign bit is `half`.
pub open spec fn sext(v: int, half: int) -> int {
    if v >= half {
        v - 2 * half
    } else {
        v
    }
}

/// Condition codes for a result: N=4, Z=2, P=1.
pub open spec fn cc_of(v: u16) -> u32 {
    if v >= 0x8000 {
        4
    } else if v == 0 {
        2
    } else {
        1
    }
}

/// `pc + 2 + 2*offset` within the 16-bit address space (offsets count words).
pub open spec fn pc_rel(pc: int, off: int) -> int {
    (pc + 2 + 2 * off) % 0x10000
}

/// Characters of the NUL-terminated string at `addr` (bytes as Latin-1
/// characters), ending early at the end of memory.
pub open spec fn c_string(m: Seq<u8>, addr: int) -> Seq<char>
    decreases m.len() - addr,
{
    if addr < 0 || addr >= m.len() || m[addr] == 0 {
        Seq::empty()
    } else {
        seq![m[addr] as char] + c_string(m, addr + 1)
    }
}

/// Characters of the packed string at `addr`: low then high byte of each
/// word, zero bytes skipped, ending at a zero word or the end of memory.
pub open spec fn packed_string(m: Seq<u8>, addr: int) -> Seq<char>
    decreases m.len() - addr,
{
    if addr < 0 || addr + 2 > m.len() || read16(m, addr) == 0 {
        Seq::empty()
    } else {
        (if m[addr] != 0 { seq![m[addr] as char] } else { Seq::empty() })
            + (if m[addr + 1] != 0 { seq![m[addr + 1] as char] } else { Seq::empty() })
            + packed_string(m, addr + 2)
    }
}

/// The first character of the input, or NUL.
pub open spec fn first_char(s: Seq<char>) -> char {
    if s.len() > 0 {
        s[0]
    } else {
        '\0'
    }
}

/// A step that failed with the message `msg`.
pub open spec fn fails_with(s: CpuState, r: StepResult, instr: Option<u32>, msg: Seq<char>) -> bool {
    failed(s, r, instr) && (r.error matches Some(e) && e@ == msg)
}

pub open spec fn events_alu() -> Seq<TraceEvent> {
    seq![TraceEvent::Fetch, TraceEvent::Decode, TraceEvent::Alu]
}

/// A register write with condition codes, then PC+2.
pub open spec fn write_cc(s: CpuState, r: StepResult, pc: int, instr: u16, dr: int, v: u16, mem: bool) -> bool {
    let next = (pc + 2) % 0x10000;
    let cc = cc_of(v);
    let regs = s.regs@;
    executed(
        r,
        regs.update(8, cc).update(dr, v as u32),
        next as u32,
        false,
        seq![
            UndoEntry::RegWrite { reg: 8, old_value: regs[8], new_value: cc },
            UndoEntry::RegWrite { reg: dr as usize, old_value: regs[dr], new_value: v as u32 },
            UndoEntry::Pc { old_value: s.pc, new_value: next as u32 },
        ],
        if mem { events_alu() + seq![TraceEvent::Mem, TraceEvent::RegWrite] } else { events_alu().push(TraceEvent::RegWrite) },
        5,
        instr as u32,
        None,
        five_stages(),
    )
}

/// A jump (or fall-through) to `target`, optionally linking R7.
pub open spec fn jump(s: CpuState, r: StepResult, pc: int, instr: u16, target: int, link: bool) -> bool {
    let next = (pc + 2) % 0x10000;
    let regs = s.regs@;
    if link {
        executed(
            r,
            regs.update(7, next as u32),
            target as u32,
            false,
            seq![
                UndoEntry::RegWrite { reg: 7, old_value: regs[7], new_value: next as u32 },
                UndoEntry::Pc { old_value: s.pc, new_value: target as u32 },
            ],
            events_alu().push(TraceEvent::RegWrite),
            5,
            instr as u32,
            None,
            five_stages(),
        )
    } else {
        executed(
            r,
            regs,
            target as u32,
            false,
            seq![UndoEntry::Pc { old_value: s.pc, new_value: target as u32 }],
            events_alu(),
            5,
            instr as u32,
            None,
            five_stages(),
        )
    }
}

/// A 16-bit store of `v` at `addr`, then PC+2 (an error when out of bounds).
pub open spec fn store16(s: CpuState, m: Seq<u8>, r: StepResult, pc: int, instr: u16, addr: int, v: u16) -> bool {
    let next = (pc + 2) % 0x10000;
    if !in_bounds(addr as u32, 2, m.len()) {
        fails_with(s, r, Some(instr as u32), if !in_bounds(addr as u32, 1, m.len()) {
            oob_message(addr as u32, 1, m.len())
        } else {
            oob_message((addr + 1) as u32, 1, m.len())
        })
    } else {
        executed(
            r,
            s.regs@,
            next as u32,
            false,
            seq![
                UndoEntry::MemWrite { addr: addr as u32, old_value: m[addr], new_value: (v % 256) as u8 },
                UndoEntry::MemWrite { addr: (addr + 1) as u32, old_value: m[addr + 1], new_value: (v / 256) as u8 },
                UndoEntry::Pc { old_value: s.pc, new_value: next as u32 },
            ],
            events_alu().push(TraceEvent::Mem),
            5,
            instr as u32,
            None,
            five_stages(),
        )
    }
}

/// A 16-bit load into `dr` from `addr` (an error when out of bounds).
pub open spec fn load16(s: CpuState, m: Seq<u8>, r: StepResult, pc: int, instr: u16, dr: int, addr: int) -> bool {
    if !in_bounds(addr as u32, 2, m.len()) {
        fails_with(s, r, Some(instr as u32), oob_message(addr as u32, 2, m.len()))
    } else {
        write_cc(s, r, pc, instr, dr, read16(m, addr), true)
    }
}

/// The outcome of a TRAP that completes: optional output and R0 value.
pub open spec fn trap_done(s: CpuState, r: StepResult, pc: int, instr: u16, halt: bool, out: Option<Seq<char>>, r0: Option<u32>) -> bool {
    let next = (pc + 2) % 0x10000;
    let regs = s.regs@;
    let pc_entry = UndoEntry::Pc { old_value: s.pc, new_value: next as u32 };
    match r0 {
        Some(v) => executed(
            r,
            regs.update(0, v),
            next as u32,
            halt,
            seq![UndoEntry::RegWrite { reg: 0, old_value: regs[0], new_value: v }, pc_entry],
            events_alu().push(TraceEvent::RegWrite),
            5,
            instr as u32,
            out,
            five_stages(),
        ),
        None => executed(
            r,
            regs,
            next as u32,
            halt,
            seq![pc_entry],
            if halt { seq![TraceEvent::Fetch, TraceEvent::Decode, TraceEvent::Halted] } else { events_alu() },
            if halt { 3 } else { 5 },
            instr as u32,
            out,
            if halt { halt_stages() } else { five_stages() },
        ),
    }
}

pub open spec fn trap_post(s: CpuState, m: Seq<u8>, input: Option<Seq<char>>, r: StepResult, pc: int, instr: u16) -> bool {
    let vect = instr % 256;
    let regs = s.regs@;
    if vect == 0x25 {
        trap_done(s, r, pc, instr, true, None, None)
    } else if vect == 0x20 {
        trap_done(s, r, pc, instr, false, Some(seq![((regs[0] % 256) as u8) as char]), None)
    } else if vect == 0x21 {
        trap_done(s, r, pc, instr, false, Some(c_string(m, (regs[0] % 0x10000) as int)), None)
    } else if vect == 0x24 {
        trap_done(s, r, pc, instr, false, Some(packed_string(m, (regs[0] % 0x10000) as int)), None)
    } else if vect == 0x22 {
        match input {
            Some(t) => trap_done(s, r, pc, instr, false, Some(seq![first_char(t)]),
                Some((first_char(t) as u32) % 256)),
            None => waits(s, r, instr as u32, "char"@, "Enter a character"@, Some(1)),
        }
    } else if vect == 0x23 {
        match input {
            Some(t) => trap_done(s, r, pc, instr, false, None, Some((first_char(t) as u32) % 256)),
            None => waits(s, r, instr as u32, "char"@, "Enter a character (no echo)"@, Some(1)),
        }
    } else {
        fails_with(s, r, Some(instr as u32), "Unsupported TRAP 0x"@ + hex_text(vect as nat, 2))
    }
}

/// Decoded fields of an instruction.
pub open spec fn f_dr(instr: u16) -> int { ((instr / 512) % 8) as int }
pub open spec fn f_sr1(instr: u16) -> int { ((instr / 64) % 8) as int }
pub open spec fn f_off6(instr: u16) -> int { sext((instr % 64) as int, 32) }
pub open spec fn f_target9(instr: u16, pc: int) -> int { pc_rel(pc, sext((instr % 512) as int, 256)) }

/// ADD, AND, NOT and LEA.
pub open spec fn alu_post(s: CpuState, r: StepResult, pc: int, instr: u16) -> bool {
    let regs = s.regs@;
    let op = instr / 4096;
    let dr = f_dr(instr);
    let a = wrap16(regs[f_sr1(instr)] as int);
    let b = if (instr / 32) % 2 == 1 {
        wrap16(sext((instr % 32) as int, 16))
    } else {
        wrap16(regs[(instr % 8) as int] as int)
    };
    if op == 1 {
        write_cc(s, r, pc, instr, dr, wrap16(a + b), false)
    } else if op == 5 {
        write_cc(s, r, pc, instr, dr, a & b, false)
    } else if op == 9 {
        write_cc(s, r, pc, instr, dr, !a, false)
    } else {
        write_cc(s, r, pc, instr, dr, f_target9(instr, pc) as u16, false)
    }
}

/// BR, JMP/RET, JSR and JSRR. A BR with all of n, z and p set (or none) is
/// taken whatever the condition codes.
pub open spec fn branch_post(s: CpuState, r: StepResult, pc: int, instr: u16) -> bool {
    let regs = s.regs@;
    let op = instr / 4096;
    let base = (regs[f_sr1(instr)] % 0x10000) as int;
    if op == 0 {
        let n = (instr / 2048) % 2;
        let z = (instr / 1024) % 2;
        let p = (instr / 512) % 2;
        let psr = regs[8];
        let take = (n == 1 && (psr / 4) % 2 == 1) || (z == 1 && (psr / 2) % 2 == 1) || (p == 1 && psr % 2 == 1)
            || (n == 0 && z == 0 && p == 0) || (n == 1 && z == 1 && p == 1);
        jump(s, r, pc, instr, if take { f_target9(instr, pc) } else { (pc + 2) % 0x10000 }, false)
    } else if op == 12 {
        jump(s, r, pc, instr, base, false)
    } else if (instr / 2048) % 2 == 1 {
        jump(s, r, pc, instr, pc_rel(pc, sext((instr % 2048) as int, 1024)), true)
    } else {
        jump(s, r, pc, instr, base, true)
    }
}

/// LD, LDI and LDR.
pub open spec fn load_post(s: CpuState, m: Seq<u8>, r: StepResult, pc: int, instr: u16) -> bool {
    let op = instr / 4096;
    let t9 = f_target9(instr, pc);
    if op == 2 {
        load16(s, m, r, pc, instr, f_dr(instr), t9)
    } else if op == 10 {
        if !in_bounds(t9 as u32, 2, m.len()) {
            fails_with(s, r, Some(instr as u32), oob_message(t9 as u32, 2, m.len()))
        } else {
            load16(s, m, r, pc, instr, f_dr(instr), read16(m, t9) as int)
        }
    } else {
        load16(s, m, r, pc, instr, f_dr(instr), (s.regs@[f_sr1(instr)] + 2 * f_off6(instr)) % 0x10000)
    }
}

/// ST, STI and STR.
pub open spec fn store_post(s: CpuState, m: Seq<u8>, r: StepResult, pc: int, instr: u16) -> bool {
    let op = instr / 4096;
    let t9 = f_target9(instr, pc);
    let v = wrap16(s.regs@[f_dr(instr)] as int);
    if op == 3 {
        store16(s, m, r, pc, instr, t9, v)
    } else if op == 11 {
        if !in_bounds(t9 as u32, 2, m.len()) {
            fails_with(s, r, Some(instr as u32), oob_message(t9 as u32, 2, m.len()))
        } else {
            store16(s, m, r, pc, instr, read16(m, t9) as int, v)
        }
    } else {
        store16(s, m, r, pc, instr, (s.regs@[f_sr1(instr)] + 2 * f_off6(instr)) % 0x10000, v)
    }
}

/// What one LC-3 step does with the instruction `instr` fetched at `pc`.
pub open spec fn exec_post(s: CpuState, m: Seq<u8>, input: Option<Seq<char>>, r: StepResult, pc: int, instr: u16) -> bool {
    let op = instr / 4096;
    if op == 1 || op == 5 || op == 9 || op == 14 {
        alu_post(s, r, pc, instr)
    } else if op == 0 || op == 12 || op == 4 {
        branch_post(s, r, pc, instr)
    } else if op == 2 || op == 10 || op == 6 {
        load_post(s, m, r, pc, instr)
    } else if op == 3 || op == 11 || op == 7 {
        store_post(s, m, r, pc, instr)
    } else if op == 15 {
        trap_post(s, m, input, r, pc, instr)
    } else {
        fails_with(s, r, Some(instr as u32), "Unknown LC-3 opcode 0x"@ + hex_text(op as nat, 1) + " at PC=0x"@ + hex_text(pc as nat, 4))
    }
}

/// The text of the fetch stage.
pub open spec fn fetch_line(instr: u16, pc: int) -> Seq<char> {
    "Load 0x"@ + hex_text(instr as nat, 4) + " from IMem[PC=0x"@ + hex_text(pc as nat, 4) + "]"@
}

/// The second ALU operand: the immediate or SR2.
pub open spec fn alu_b(regs: Seq<u32>, instr: u16) -> u16 {
    if (instr / 32) % 2 == 1 {
        wrap16(sext((instr % 32) as int, 16))
    } else {
        wrap16(regs[(instr % 8) as int] as int)
    }
}

/// The stage texts of ADD, AND, NOT and LEA.
pub open spec fn alu_actions(regs: Seq<u32>, pc: int, instr: u16) -> Seq<Seq<char>> {
    let op = instr / 4096;
    let dr = f_dr(instr) as nat;
    let sr1 = f_sr1(instr) as nat;
    let b = alu_b(regs, instr);
    let v = alu_value(regs, pc, instr);
    let wb = "R"@ + dec_text(dr) + " \u{2190} 0x"@ + hex_text(v as nat, 4);
    let fetch = fetch_line(instr, pc);
    if op == 1 {
        seq![fetch, "Extract DR=R"@ + dec_text(dr) + ", SR1=R"@ + dec_text(sr1),
            "ALU: R"@ + dec_text(sr1) + " + "@ + dec_text(b as nat) + " = 0x"@ + hex_text(v as nat, 4), "NOP"@, wb]
    } else if op == 5 {
        seq![fetch, "Decode AND"@, "ALU: R"@ + dec_text(sr1) + " & "@ + dec_text(b as nat) + " = 0x"@ + hex_text(v as nat, 4),
            "NOP"@, wb]
    } else if op == 9 {
        seq![fetch, "Decode NOT"@, "ALU: ~R"@ + dec_text(sr1) + " = 0x"@ + hex_text(v as nat, 4), "NOP"@, wb]
    } else {
        seq![fetch, "Decode LEA"@, "Execute: PC + "@ + int_text(sext((instr % 512) as int, 256)) + " = 0x"@ + hex_text(v as nat, 4),
            "NOP"@, wb]
    }
}

/// The stage texts of BR, JMP/RET, JSR and JSRR.
pub open spec fn branch_actions(regs: Seq<u32>, pc: int, instr: u16) -> Seq<Seq<char>> {
    let op = instr / 4096;
    let sr1 = f_sr1(instr) as nat;
    let base = (regs[f_sr1(instr)] % 0x10000) as int;
    let fetch = fetch_line(instr, pc);
    if op == 0 {
        let n = (instr / 2048) % 2;
        let z = (instr / 1024) % 2;
        let p = (instr / 512) % 2;
        let psr = regs[8];
        let take = (n == 1 && (psr / 4) % 2 == 1) || (z == 1 && (psr / 2) % 2 == 1) || (p == 1 && psr % 2 == 1)
            || (n == 0 && z == 0 && p == 0) || (n == 1 && z == 1 && p == 1);
        let exec = if take { "BR: taken \u{2192} PC \u{2190} 0x"@ + hex_text(f_target9(instr, pc) as nat, 4) } else { "BR: not taken"@ };
        seq![fetch, "Decode BR"@, exec, "NOP"@, "PC updated"@]
    } else if op == 12 {
        seq![fetch, "Decode JMP R"@ + dec_text(sr1) + ""@, "Execute: PC \u{2190} R"@ + dec_text(sr1) + " = 0x"@ + hex_text(base as nat, 4),
            "NOP"@, "PC updated"@]
    } else if (instr / 2048) % 2 == 1 {
        let target = pc_rel(pc, sext((instr % 2048) as int, 1024));
        seq![fetch, "Decode JSR"@, "Execute: R7 \u{2190} PC+2, PC \u{2190} 0x"@ + hex_text(target as nat, 4), "NOP"@, "R7, PC updated"@]
    } else {
        seq![fetch, "Decode JSRR R"@ + dec_text(sr1) + ""@, "Execute: R7 \u{2190} PC+2, PC \u{2190} R"@ + dec_text(sr1) + ""@, "NOP"@,
            "R7, PC updated"@]
    }
}

/// The stage texts of LD, LDI and LDR reading `val` at `addr`.
pub open spec fn load_actions(pc: int, instr: u16, addr: int, val: u16) -> Seq<Seq<char>> {
    let op = instr / 4096;
    let dr = f_dr(instr) as nat;
    let decode = if op == 2 {
        "Decode LD"@
    } else if op == 10 {
        "Decode LDI"@
    } else {
        "Decode LDR R"@ + dec_text(dr) + ", R"@ + dec_text(f_sr1(instr) as nat) + ", "@ + int_text(f_off6(instr))
    };
    seq![fetch_line(instr, pc), decode, "addr = 0x"@ + hex_text(addr as nat, 4),
        "Mem[0x"@ + hex_text(addr as nat, 4) + "] = 0x"@ + hex_text(val as nat, 4), "R"@ + dec_text(dr) + " \u{2190} 0x"@
        + hex_text(val as nat, 4)]
}

/// The stage texts of ST, STI and STR writing `v` at `addr`.
pub open spec fn store_actions(pc: int, instr: u16, addr: int, v: u16) -> Seq<Seq<char>> {
    let op = instr / 4096;
    let text = if op == 3 { "Decode ST R"@ } else if op == 11 { "Decode STI R"@ } else { "Decode STR R"@ };
    seq![fetch_line(instr, pc), text + dec_text(f_dr(instr) as nat), "addr = 0x"@ + hex_text(addr as nat, 4),
        "Mem[0x"@ + hex_text(addr as nat, 4) + "] \u{2190} 0x"@ + hex_text(v as nat, 4), "NOP"@]
}

/// The text of a character read into R0, after `prefix`.
pub open spec fn read_line(prefix: Seq<char>, v: u32) -> Seq<char> {
    prefix.push((v as u8) as char) + "' (0x"@ + hex_text(v as nat, 2) + ")"@
}

/// The stage texts of a TRAP.
pub open spec fn trap_actions(s: CpuState, m: Seq<u8>, input: Option<Seq<char>>, pc: int, instr: u16) -> Seq<Seq<char>> {
    let vect = instr % 256;
    let regs = s.regs@;
    let fetch = fetch_line(instr, pc);
    let done = |action: Seq<char>| seq![fetch, "Decode TRAP"@, action, "NOP"@, "PC \u{2190} PC+2"@];
    if vect == 0x25 {
        seq![fetch, "Decode: TRAP x25 HALT"@, "Halted"@]
    } else if vect == 0x20 {
        done("TRAP: OUT \""@ + escape_newlines(seq![((regs[0] % 256) as u8) as char]) + "\""@)
    } else if vect == 0x21 {
        done("TRAP: PUTS \""@ + escape_newlines(c_string(m, (regs[0] % 0x10000) as int)) + "\""@)
    } else if vect == 0x24 {
        done("TRAP: PUTSP \""@ + escape_newlines(packed_string(m, (regs[0] % 0x10000) as int)) + "\""@)
    } else if vect == 0x22 {
        match input {
            Some(t) => done(read_line("TRAP: IN \u{2192} R0 \u{2190} '"@, (first_char(t) as u32) % 256)),
            None => seq![fetch, "Decode TRAP x22 (IN) \u{2013} waiting for input"@],
        }
    } else {
        match input {
            Some(t) => done(read_line("TRAP: GETC \u{2192} R0 \u{2190} '"@, (first_char(t) as u32) % 256)),
            None => seq![fetch, "Decode TRAP x23 (GETC) \u{2013} waiting for input"@],
        }
    }
}

/// The stage texts of a step that executed (or waits for input).
pub open spec fn exec_actions(s: CpuState, m: Seq<u8>, input: Option<Seq<char>>, pc: int, instr: u16) -> Seq<Seq<char>> {
    let op = instr / 4096;
    if op == 1 || op == 5 || op == 9 || op == 14 {
        alu_actions(s.regs@, pc, instr)
    } else if op == 0 || op == 12 || op == 4 {
        branch_actions(s.regs@, pc, instr)
    } else if op == 2 || op == 10 || op == 6 {
        let addr = ea(s, m, pc, instr).unwrap();
        load_actions(pc, instr, addr, read16(m, addr))
    } else if op == 3 || op == 11 || op == 7 {
        store_actions(pc, instr, ea(s, m, pc, instr).unwrap(), wrap16(s.regs@[f_dr(instr)] as int))
    } else {
        trap_actions(s, m, input, pc, instr)
    }
}

/// The contract of one LC-3 step.
pub open spec fn step_post(s: CpuState, m: Seq<u8>, input: Option<Seq<char>>, r: StepResult) -> bool {
    if s.halted {
        stays_halted(s, r)
    } else {
        let pc = s.pc % 0x10000;
        if !in_bounds(pc as u32, 2, m.len()) {
            fails_with(s, r, None, oob_message(pc as u32, 2, m.len()))
        } else {
            &&& exec_post(s, m, input, r, pc as int, read16(m, pc as int))
            &&& r.error is None ==> stage_actions(r.pipeline_stages@) == exec_actions(s, m, input, pc as int, read16(m, pc as int))
        }
    }
}

// ---------------------------------------------------------------------------
// Executor
// ---------------------------------------------------------------------------

fn fetch_text(instr: u16, pc: u32) -> (r: String)
    ensures
        r@ == fetch_line(instr, pc as int),
{
    Text::new().s("Load 0x").hex(instr as u64, 4).s(" from IMem[PC=0x").hex(pc as u64, 4).s("]").done()
}

fn reg_text(prefix: &str, r: u16, suffix: &str) -> (t: String)
    ensures
        t@ == prefix@ + dec_text(r as nat) + suffix@,
{
    Text::new().s(prefix).dec(r as u64).s(suffix).done()
}

/// Result of a register write with condition codes.
fn do_write_cc(
    state: &CpuState,
    m: &Memory,
    pc: u32,
    instr: u16,
    dr: u16,
    v: u16,
    mem_event: bool,
    stages: Vec<PipelineCycleInfo>,
) -> (r: StepResult)
    requires
        state.regs@.len() >= 9,
        dr < 8,
        pc <= 0xFFFF,
        stage_names(stages@) == five_stages(),
        stages@.len() == 5,
        all_carry(stages@, Some(instr as u32)),
    ensures
        write_cc(*state, r, pc as int, instr, dr as int, v, mem_event),
        r.pipeline_stages == stages,
        r.cycles_added <= 5,
        r.pipeline_stages@.len() <= 5,
        faithful(state.regs@, state.pc, m@, r.undo_log@),
{
    let next: u32 = (pc + 2) % 0x10000;
    let cc: u32 = if v >= 0x8000 { 4 } else if v == 0 { 2 } else { 1 };
    let mut regs = state.regs.clone();
    assert(regs@ =~= state.regs@);
    let old8 = regs[8];
    regs.set(8, cc);
    let oldd = regs[dr as usize];
    regs.set(dr as usize, v as u32);
    let mut log: Vec<UndoEntry> = Vec::new();
    log.push(UndoEntry::RegWrite { reg: 8, old_value: old8, new_value: cc });
    log.push(UndoEntry::RegWrite { reg: dr as usize, old_value: oldd, new_value: v as u32 });
    log.push(UndoEntry::Pc { old_value: state.pc, new_value: next });
    let mut events: Vec<TraceEvent> = Vec::new();
    events.push(TraceEvent::Fetch);
    events.push(TraceEvent::Decode);
    events.push(TraceEvent::Alu);
    if mem_event {
        events.push(TraceEvent::Mem);
    }
    events.push(TraceEvent::RegWrite);
    assert(log@ =~= seq![
        UndoEntry::RegWrite { reg: 8, old_value: state.regs@[8], new_value: cc },
        UndoEntry::RegWrite { reg: dr as usize, old_value: state.regs@[dr as int], new_value: v as u32 },
        UndoEntry::Pc { old_value: state.pc, new_value: next },
    ]);
    assert(regs@ =~= state.regs@.update(8, cc).update(dr as int, v as u32));
    proof { lemma_faithful_reg2_pc(state.regs@, state.pc, m@, 8, cc, dr as usize, v as u32, next); }
    proof {
        if mem_event {
            assert(events@ =~= events_alu() + seq![TraceEvent::Mem, TraceEvent::RegWrite]);
        } else {
            assert(events@ =~= events_alu().push(TraceEvent::RegWrite));
        }
    }
    executed_result(regs, next, false, log, events, 5, instr as u32, None, stages)
}

fn do_jump(state: &CpuState, m: &Memory, pc: u32, instr: u16, target: u32, link: bool, stages: Vec<PipelineCycleInfo>) -> (r: StepResult)
    requires
        state.regs@.len() >= 9,
        pc <= 0xFFFF,
        stage_names(stages@) == five_stages(),
        stages@.len() == 5,
        all_carry(stages@, Some(instr as u32)),
    ensures
        jump(*state, r, pc as int, instr, target as int, link),
        r.pipeline_stages == stages,
        r.cycles_added <= 5,
        r.pipeline_stages@.len() <= 5,
        faithful(state.regs@, state.pc, m@, r.undo_log@),
{
    let next: u32 = (pc + 2) % 0x10000;
    let mut regs = state.regs.clone();
    assert(regs@ =~= state.regs@);
    let mut log: Vec<UndoEntry> = Vec::new();
    let mut events: Vec<TraceEvent> = Vec::new();
    events.push(TraceEvent::Fetch);
    events.push(TraceEvent::Decode);
    events.push(TraceEvent::Alu);
    if link {
        let old7 = regs[7];
        regs.set(7, next);
        log.push(UndoEntry::RegWrite { reg: 7, old_value: old7, new_value: next });
        events.push(TraceEvent::RegWrite);
    }
    log.push(UndoEntry::Pc { old_value: state.pc, new_value: target });
    proof {
        if link {
            assert(log@ =~= seq![
                UndoEntry::RegWrite { reg: 7, old_value: state.regs@[7], new_value: next },
                UndoEntry::Pc { old_value: state.pc, new_value: target },
            ]);
            assert(regs@ =~= state.regs@.update(7, next));
            lemma_faithful_reg_pc(state.regs@, state.pc, m@, 7, next, target);
            assert(events@ =~= events_alu().push(TraceEvent::RegWrite));
        } else {
            assert(events@ =~= events_alu());
            assert(log@ =~= seq![UndoEntry::Pc { old_value: state.pc, new_value: target as u32 }]);
            lemma_faithful_pc(state.regs@, state.pc, m@, target);
        }
    }
    executed_result(regs, target, false, log, events, 5, instr as u32, None, stages)
}

fn do_store(
    state: &CpuState,
    mem: &Memory,
    pc: u32,
    instr: u16,
    addr: u32,
    v: u16,
    dr: u16,
    text: &str,
) -> (r: StepResult)
    requires
        state.regs@.len() >= 9,
        pc <= 0xFFFF,
        addr <= 0xFFFF,
        dr < 8,
        dr == f_dr(instr),
        text@ == (if instr / 4096 == 3 { "Decode ST R"@ } else if instr / 4096 == 11 { "Decode STI R"@ } else { "Decode STR R"@ }),
    ensures
        store16(*state, mem@, r, pc as int, instr, addr as int, v),
        r.error is None ==> stage_actions(r.pipeline_stages@) == store_actions(pc as int, instr, addr as int, v),
        r.cycles_added <= 5,
        r.pipeline_stages@.len() <= 5,
        r.error is None ==> faithful(state.regs@, state.pc, mem@, r.undo_log@),
{
    let next: u32 = (pc + 2) % 0x10000;
    let b0 = mem.read_u8(addr);
    let b1 = mem.read_u8(addr + 1);
    match (b0, b1) {
        (Ok(o0), Ok(o1)) => {
            let mut log: Vec<UndoEntry> = Vec::new();
            log.push(UndoEntry::MemWrite { addr, old_value: o0, new_value: (v % 256) as u8 });
            log.push(UndoEntry::MemWrite { addr: addr + 1, old_value: o1, new_value: (v / 256) as u8 });
            log.push(UndoEntry::Pc { old_value: state.pc, new_value: next });
            let mut events: Vec<TraceEvent> = Vec::new();
            events.push(TraceEvent::Fetch);
            events.push(TraceEvent::Decode);
            events.push(TraceEvent::Alu);
            events.push(TraceEvent::Mem);
            let stages = pipeline_5(
                Some(instr as u32),
                fetch_text(instr, pc),
                Text::new().s(text).dec(dr as u64).done(),
                Text::new().s("addr = 0x").hex(addr as u64, 4).done(),
                Text::new().s("Mem[0x").hex(addr as u64, 4).s("] \u{2190} 0x").hex(v as u64, 4).done(),
                lit("NOP"),
            );
            let regs = state.regs.clone();
            assert(events@ =~= events_alu().push(TraceEvent::Mem));
            assert(regs@ =~= state.regs@);
            assert(log@ =~= seq![
                UndoEntry::MemWrite { addr: addr, old_value: mem@[addr as int], new_value: (v % 256) as u8 },
                UndoEntry::MemWrite { addr: (addr + 1) as u32, old_value: mem@[addr + 1], new_value: (v / 256) as u8 },
                UndoEntry::Pc { old_value: state.pc, new_value: next },
            ]);
            proof {
                let bytes = seq![(v % 256) as u8, (v / 256) as u8];
                let tail = seq![UndoEntry::Pc { old_value: state.pc, new_value: next }];
                lemma_faithful_pc(state.regs@, state.pc, overwrite(mem@, addr as int, bytes), next);
                lemma_faithful_mem_writes(state.regs@, state.pc, mem@, addr as int, bytes, tail);
                assert(log@ =~= mem_writes(mem@, addr as int, bytes) + tail);
            }
            executed_result(regs, next, false, log, events, 5, instr as u32, None, stages)
        },
        (Err(e), _) => error_result(state, Some(instr as u32), e),
        (_, Err(e)) => error_result(state, Some(instr as u32), e),
    }
}

/// Reads the NUL-terminated string at `addr` (bytes as Latin-1 characters,
/// ending early at the end of memory).
pub fn read_c_string(m: &[u8], addr: u32) -> (r: Vec<char>)
    requires
        m@.len() <= 0xFFFF_FFFF,
    ensures
        r@ == c_string(m@, addr as int),
{
    let mut out: Vec<char> = Vec::new();
    let mut a: u32 = addr;
    loop
        invariant
            m@.len() <= 0xFFFF_FFFF,
            a >= addr,
            out@ + c_string(m@, a as int) == c_string(m@, addr as int),
        ensures
            out@ == c_string(m@, addr as int),
        decreases 0x1_0000_0000 - a,
    {
        match load8(m, a) {
            Ok(b) => {
                if b == 0 {
                    assert(c_string(m@, a as int) =~= Seq::<char>::empty());
                    assert(out@ =~= out@ + c_string(m@, a as int));
                    break;
                }
                out.push(b as char);
                assert(out@ + c_string(m@, a + 1) =~= (out@.drop_last()) + c_string(m@, a as int));
                a = a + 1;
            },
            Err(_) => {
                assert(c_string(m@, a as int) =~= Seq::<char>::empty());
                assert(out@ =~= out@ + c_string(m@, a as int));
                break;
            },
        }
    }
    out
}

/// Reads the packed string (two characters per word) at `addr`.
fn read_packed_string(mem: &Memory, addr: u32) -> (r: Vec<char>)
    requires
        mem@.len() <= 0xFFFF_FFFF,
    ensures
        r@ == packed_string(mem@, addr as int),
{
    let mut out: Vec<char> = Vec::new();
    let mut a: u32 = addr;
    loop
        invariant
            mem@.len() <= 0xFFFF_FFFF,
            out@ + packed_string(mem@, a as int) == packed_string(mem@, addr as int),
        ensures
            out@ == packed_string(mem@, addr as int),
        decreases 0x1_0000_0000 - a,
    {
        match mem.read_u16_le(a) {
            Ok(w) => {
                if w == 0 {
                    assert(packed_string(mem@, a as int) =~= Seq::<char>::empty());
                    assert(out@ =~= out@ + packed_string(mem@, a as int));
                    break;
                }
                let ghost before = out@;
                let lo = (w % 256) as u8;
                let hi = (w / 256) as u8;
                if lo != 0 {
                    out.push(lo as char);
                }
                if hi != 0 {
                    out.push(hi as char);
                }
                assert(lo == mem@[a as int] && hi == mem@[a + 1]);
                assert(out@ + packed_string(mem@, a + 2) =~= before + packed_string(mem@, a as int));
                a = a + 2;
            },
            Err(_) => {
                assert(packed_string(mem@, a as int) =~= Seq::<char>::empty());
                assert(out@ =~= out@ + packed_string(mem@, a as int));
                break;
            },
        }
    }
    out
}

fn off9_of(instr: u16) -> (o: i32)
    ensures
        o == sext((instr % 512) as int, 256),
{
    let f = instr % 512;
    if f >= 256 { f as i32 - 512 } else { f as i32 }
}

fn target9_of(instr: u16, pc: u32) -> (t: u32)
    requires
        pc <= 0xFFFF,
    ensures
        t == f_target9(instr, pc as int),
        t <= 0xFFFF,
{
    let off9 = off9_of(instr);
    ((pc as i32 + 2 + 2 * off9 + 0x10000) % 0x10000) as u32
}

/// The value ADD, AND, NOT or LEA writes.
pub open spec fn alu_value(regs: Seq<u32>, pc: int, instr: u16) -> u16 {
    let op = instr / 4096;
    let a = wrap16(regs[f_sr1(instr)] as int);
    let b = if (instr / 32) % 2 == 1 {
        wrap16(sext((instr % 32) as int, 16))
    } else {
        wrap16(regs[(instr % 8) as int] as int)
    };
    if op == 1 {
        wrap16(a + b)
    } else if op == 5 {
        a & b
    } else if op == 9 {
        !a
    } else {
        f_target9(instr, pc) as u16
    }
}

proof fn lemma_alu_post(s: CpuState, r: StepResult, pc: int, instr: u16)
    requires
        write_cc(s, r, pc, instr, f_dr(instr), alu_value(s.regs@, pc, instr), false),
    ensures
        alu_post(s, r, pc, instr),
{
}

#[verifier::rlimit(30)]
fn compute_alu(regs: &Vec<u32>, pc: u32, instr: u16) -> (v: u16)
    requires
        regs@.len() >= 9,
        pc <= 0xFFFF,
    ensures
        v == alu_value(regs@, pc as int, instr),
{
    let op = instr / 4096;
    let sr1 = (instr / 64) % 8;
    let sr2 = instr % 8;
    let f5 = instr % 32;
    let imm5: i32 = if f5 >= 16 { f5 as i32 - 32 } else { f5 as i32 };
    let a: u16 = (regs[sr1 as usize] % 0x10000) as u16;
    let b: u16 = if (instr / 32) % 2 == 1 {
        ((imm5 + 0x10000) % 0x10000) as u16
    } else {
        (regs[sr2 as usize] % 0x10000) as u16
    };
    if op == 1 {
        a.wrapping_add(b)
    } else if op == 5 {
        a & b
    } else if op == 9 {
        !a
    } else {
        target9_of(instr, pc) as u16
    }
}

#[verifier::rlimit(40)]
fn alu_stages(regs: &Vec<u32>, pc: u32, instr: u16, v: u16, fetch: String) -> (st: Vec<PipelineCycleInfo>)
    requires
        regs@.len() >= 9,
        pc <= 0xFFFF,
        v == alu_value(regs@, pc as int, instr),
        fetch@ == fetch_line(instr, pc as int),
        ({ let op = instr / 4096; op == 1 || op == 5 || op == 9 || op == 14 }),
    ensures
        stage_actions(st@) == alu_actions(regs@, pc as int, instr),
        stage_names(st@) == five_stages(),
        st@.len() == 5,
        all_carry(st@, Some(instr as u32)),
{
    let op = instr / 4096;
    let dr = (instr / 512) % 8;
    let sr1 = (instr / 64) % 8;
    let sr2 = instr % 8;
    let f5 = instr % 32;
    let imm5: i32 = if f5 >= 16 { f5 as i32 - 32 } else { f5 as i32 };
    let b: u16 = if (instr / 32) % 2 == 1 {
        ((imm5 + 0x10000) % 0x10000) as u16
    } else {
        (regs[sr2 as usize] % 0x10000) as u16
    };
    let wb = Text::new().s("R").dec(dr as u64).s(" \u{2190} 0x").hex(v as u64, 4).done();
    if op == 1 {
        pipeline_5(
            Some(instr as u32),
            fetch,
            Text::new().s("Extract DR=R").dec(dr as u64).s(", SR1=R").dec(sr1 as u64).done(),
            Text::new().s("ALU: R").dec(sr1 as u64).s(" + ").dec(b as u64).s(" = 0x").hex(v as u64, 4).done(),
            lit("NOP"),
            wb,
        )
    } else if op == 5 {
        pipeline_5(
            Some(instr as u32),
            fetch,
            lit("Decode AND"),
            Text::new().s("ALU: R").dec(sr1 as u64).s(" & ").dec(b as u64).s(" = 0x").hex(v as u64, 4).done(),
            lit("NOP"),
            wb,
        )
    } else if op == 9 {
        pipeline_5(
            Some(instr as u32),
            fetch,
            lit("Decode NOT"),
            Text::new().s("ALU: ~R").dec(sr1 as u64).s(" = 0x").hex(v as u64, 4).done(),
            lit("NOP"),
            wb,
        )
    } else {
        let off9 = off9_of(instr);
        pipeline_5(
            Some(instr as u32),
            fetch,
            lit("Decode LEA"),
            Text::new().s("Execute: PC + ").sint(off9 as i64).s(" = 0x").hex(v as u64, 4).done(),
            lit("NOP"),
            wb,
        )
    }
}

fn exec_alu(state: &CpuState, m: &Memory, pc: u32, instr: u16, fetch: String) -> (r: StepResult)
    requires
        state.regs@.len() >= 9,
        pc <= 0xFFFF,
        ({ let op = instr / 4096; op == 1 || op == 5 || op == 9 || op == 14 }),
        fetch@ == fetch_line(instr, pc as int),
    ensures
        alu_post(*state, r, pc as int, instr),
        stage_actions(r.pipeline_stages@) == alu_actions(state.regs@, pc as int, instr),
        r.cycles_added <= 5,
        r.pipeline_stages@.len() <= 5,
        faithful(state.regs@, state.pc, m@, r.undo_log@),
{
    let dr = (instr / 512) % 8;
    let v = compute_alu(&state.regs, pc, instr);
    let st = alu_stages(&state.regs, pc, instr, v, fetch);
    let r = do_write_cc(state, m, pc, instr, dr, v, false, st);
    proof { lemma_alu_post(*state, r, pc as int, instr); }
    r
}

#[verifier::rlimit(60)]
fn exec_branch(state: &CpuState, m: &Memory, pc: u32, instr: u16, fetch: String) -> (r: StepResult)
    requires
        state.regs@.len() >= 9,
        pc <= 0xFFFF,
        ({ let op = instr / 4096; op == 0 || op == 12 || op == 4 }),
        fetch@ == fetch_line(instr, pc as int),
    ensures
        branch_post(*state, r, pc as int, instr),
        stage_actions(r.pipeline_stages@) == branch_actions(state.regs@, pc as int, instr),
        r.cycles_added <= 5,
        r.pipeline_stages@.len() <= 5,
        faithful(state.regs@, state.pc, m@, r.undo_log@),
{
    let regs = &state.regs;
    let op = instr / 4096;
    let sr1 = (instr / 64) % 8;
    let next_pc: u32 = (pc + 2) % 0x10000;
    if op == 0 {
        let target9 = target9_of(instr, pc);
        let n = (instr / 2048) % 2;
        let z = (instr / 1024) % 2;
        let p = (instr / 512) % 2;
        let psr = regs[8];
        let take = (n == 1 && (psr / 4) % 2 == 1) || (z == 1 && (psr / 2) % 2 == 1) || (p == 1 && psr % 2 == 1)
            || (n == 0 && z == 0 && p == 0) || (n == 1 && z == 1 && p == 1);
        let next = if take { target9 } else { next_pc };
        let exec = if take {
            Text::new().s("BR: taken \u{2192} PC \u{2190} 0x").hex(target9 as u64, 4).done()
        } else {
            lit("BR: not taken")
        };
        let st = pipeline_5(Some(instr as u32), fetch, lit("Decode BR"), exec, lit("NOP"), lit("PC updated"));
        do_jump(state, m, pc, instr, next, false, st)
    } else if op == 12 {
        let target = regs[sr1 as usize] % 0x10000;
        let st = pipeline_5(
            Some(instr as u32),
            fetch,
            reg_text("Decode JMP R", sr1, ""),
            Text::new().s("Execute: PC \u{2190} R").dec(sr1 as u64).s(" = 0x").hex(target as u64, 4).done(),
            lit("NOP"),
            lit("PC updated"),
        );
        do_jump(state, m, pc, instr, target, false, st)
    } else if (instr / 2048) % 2 == 1 {
        let f11 = instr % 2048;
        let off11: i32 = if f11 >= 1024 { f11 as i32 - 2048 } else { f11 as i32 };
        let target: u32 = ((pc as i32 + 2 + 2 * off11 + 0x10000) % 0x10000) as u32;
        let st = pipeline_5(
            Some(instr as u32),
            fetch,
            lit("Decode JSR"),
            Text::new().s("Execute: R7 \u{2190} PC+2, PC \u{2190} 0x").hex(target as u64, 4).done(),
            lit("NOP"),
            lit("R7, PC updated"),
        );
        do_jump(state, m, pc, instr, target, true, st)
    } else {
        let target = regs[sr1 as usize] % 0x10000;
        let st = pipeline_5(
            Some(instr as u32),
            fetch,
            reg_text("Decode JSRR R", sr1, ""),
            reg_text("Execute: R7 \u{2190} PC+2, PC \u{2190} R", sr1, ""),
            lit("NOP"),
            lit("R7, PC updated"),
        );
        do_jump(state, m, pc, instr, target, true, st)
    }
}

/// The effective address of LD/LDI/LDR or ST/STI/STR (`None` when the
/// pointer of LDI/STI cannot be read).
pub open spec fn ea(s: CpuState, m: Seq<u8>, pc: int, instr: u16) -> Option<int> {
    let op = instr / 4096;
    let t9 = f_target9(instr, pc);
    if op == 2 || op == 3 {
        Some(t9)
    } else if op == 10 || op == 11 {
        if in_bounds(t9 as u32, 2, m.len()) { Some(read16(m, t9) as int) } else { None }
    } else {
        Some((s.regs@[f_sr1(instr)] + 2 * f_off6(instr)) % 0x10000)
    }
}

#[verifier::rlimit(40)]
fn effective_address(state: &CpuState, mem: &Memory, pc: u32, instr: u16) -> (r: Result<u32, String>)
    requires
        state.regs@.len() >= 9,
        pc <= 0xFFFF,
    ensures
        match r {
            Ok(a) => ea(*state, mem@, pc as int, instr) == Some(a as int) && a <= 0xFFFF,
            Err(e) => ea(*state, mem@, pc as int, instr) is None
                && e@ == oob_message(f_target9(instr, pc as int) as u32, 2, mem@.len()),
        },
{
    let op = instr / 4096;
    let sr1 = (instr / 64) % 8;
    let f6 = instr % 64;
    let off6: i32 = if f6 >= 32 { f6 as i32 - 64 } else { f6 as i32 };
    let target9 = target9_of(instr, pc);
    if op == 2 || op == 3 {
        Ok(target9)
    } else if op == 10 || op == 11 {
        match mem.read_u16_le(target9) {
            Ok(x) => Ok(x as u32),
            Err(e) => Err(e),
        }
    } else {
        Ok(((state.regs[sr1 as usize] as i64 + 2 * off6 as i64 + 0x10000) % 0x10000) as u32)
    }
}

fn load_stages(pc: u32, instr: u16, addr: u32, val: u16, fetch: String) -> (st: Vec<PipelineCycleInfo>)
    requires
        fetch@ == fetch_line(instr, pc as int),
    ensures
        stage_actions(st@) == load_actions(pc as int, instr, addr as int, val),
        stage_names(st@) == five_stages(),
        st@.len() == 5,
        all_carry(st@, Some(instr as u32)),
{
    let op = instr / 4096;
    let dr = (instr / 512) % 8;
    let sr1 = (instr / 64) % 8;
    let f6 = instr % 64;
    let off6: i32 = if f6 >= 32 { f6 as i32 - 64 } else { f6 as i32 };
    let decode = if op == 2 {
        lit("Decode LD")
    } else if op == 10 {
        lit("Decode LDI")
    } else {
        Text::new().s("Decode LDR R").dec(dr as u64).s(", R").dec(sr1 as u64).s(", ").sint(off6 as i64).done()
    };
    pipeline_5(
        Some(instr as u32),
        fetch,
        decode,
        Text::new().s("addr = 0x").hex(addr as u64, 4).done(),
        Text::new().s("Mem[0x").hex(addr as u64, 4).s("] = 0x").hex(val as u64, 4).done(),
        Text::new().s("R").dec(dr as u64).s(" \u{2190} 0x").hex(val as u64, 4).done(),
    )
}

fn exec_load(state: &CpuState, mem: &Memory, pc: u32, instr: u16, fetch: String) -> (r: StepResult)
    requires
        state.regs@.len() >= 9,
        pc <= 0xFFFF,
        ({ let op = instr / 4096; op == 2 || op == 10 || op == 6 }),
        fetch@ == fetch_line(instr, pc as int),
    ensures
        load_post(*state, mem@, r, pc as int, instr),
        r.error is None ==> stage_actions(r.pipeline_stages@) == load_actions(pc as int, instr,
            ea(*state, mem@, pc as int, instr).unwrap(), read16(mem@, ea(*state, mem@, pc as int, instr).unwrap())),
        r.cycles_added <= 5,
        r.pipeline_stages@.len() <= 5,
        r.error is None ==> faithful(state.regs@, state.pc, mem@, r.undo_log@),
{
    let dr = (instr / 512) % 8;
    match effective_address(state, mem, pc, instr) {
        Ok(addr) => {
            match mem.read_u16_le(addr) {
                Ok(val) => {
                    let st = load_stages(pc, instr, addr, val, fetch);
                    do_write_cc(state, mem, pc, instr, dr, val, true, st)
                },
                Err(e) => error_result(state, Some(instr as u32), e),
            }
        },
        Err(e) => error_result(state, Some(instr as u32), e),
    }
}

#[verifier::rlimit(60)]
fn exec_store(state: &CpuState, mem: &Memory, pc: u32, instr: u16) -> (r: StepResult)
    requires
        state.regs@.len() >= 9,
        pc <= 0xFFFF,
        ({ let op = instr / 4096; op == 3 || op == 11 || op == 7 }),
    ensures
        store_post(*state, mem@, r, pc as int, instr),
        r.error is None ==> stage_actions(r.pipeline_stages@) == store_actions(pc as int, instr,
            ea(*state, mem@, pc as int, instr).unwrap(), wrap16(state.regs@[f_dr(instr)] as int)),
        r.cycles_added <= 5,
        r.pipeline_stages@.len() <= 5,
        r.error is None ==> faithful(state.regs@, state.pc, mem@, r.undo_log@),
{
    let op = instr / 4096;
    let dr = (instr / 512) % 8;
    let v: u16 = (state.regs[dr as usize] % 0x10000) as u16;
    let text = if op == 3 { "Decode ST R" } else if op == 11 { "Decode STI R" } else { "Decode STR R" };
    match effective_address(state, mem, pc, instr) {
        Ok(addr) => do_store(state, mem, pc, instr, addr, v, dr, text),
        Err(e) => error_result(state, Some(instr as u32), e),
    }
}

impl Default for Lc3Plugin {
    fn default() -> (p: Self) {
        Lc3Plugin
    }
}

impl Lc3Plugin {
    pub fn new() -> (p: Self) {
        Lc3Plugin
    }

    pub fn name(&self) -> (r: &'static str)
        ensures
            r@ == "LC3"@,
    {
        "LC3"
    }

    /// PC at x3000, R0-R7 and the PSR cleared.
    pub fn reset(&self, config: &ResetConfig) -> (s: CpuState)
        ensures
            s.pc == 0x3000,
            s.regs@ == Seq::new(9, |i: int| 0u32),
            !s.halted,
    {
        let regs = vec![0u32; 9];
        assert(regs@ =~= Seq::new(9, |i: int| 0u32));
        CpuState { pc: 0x3000, regs, halted: false }
    }

    /// Executes one instruction.
    pub fn step(&self, state: &CpuState, memory: &[u8], mode: StepMode, input: Option<&str>) -> (r: StepResult)
        requires
            state.regs@.len() >= 9,
            memory@.len() <= 0xFFFF_FFFF,
        ensures
            step_post(*state, memory@, input_view(input), r),
            r.cycles_added <= 5,
            r.pipeline_stages@.len() <= 5,
            r.error is None ==> faithful(state.regs@, state.pc, memory@, r.undo_log@),
    {
        if state.halted {
            return halted_result(state);
        }
        let mem = Memory::from_bytes(memory);
        let pc: u32 = state.pc % 0x10000;
        let instr: u16 = match mem.read_u16_le(pc) {
            Ok(i) => i,
            Err(e) => {
                return error_result(state, None, e);
            },
        };
        let op = instr / 4096;
        let fetch = fetch_text(instr, pc);
        if op == 1 || op == 5 || op == 9 || op == 14 {
            exec_alu(state, &mem, pc, instr, fetch)
        } else if op == 0 || op == 12 || op == 4 {
            exec_branch(state, &mem, pc, instr, fetch)
        } else if op == 2 || op == 10 || op == 6 {
            exec_load(state, &mem, pc, instr, fetch)
        } else if op == 3 || op == 11 || op == 7 {
            exec_store(state, &mem, pc, instr)
        } else if op == 15 {
            self.trap(state, &mem, input, pc, instr, fetch)
        } else {
            let e = Text::new().s("Unknown LC-3 opcode 0x").hex(op as u64, 1).s(" at PC=0x").hex(pc as u64, 4).done();
            error_result(state, Some(instr as u32), e)
        }
    }

    fn trap(&self, state: &CpuState, mem: &Memory, input: Option<&str>, pc: u32, instr: u16, fetch: String) -> (r: StepResult)
        requires
            state.regs@.len() >= 9,
            mem@.len() <= 0xFFFF_FFFF,
            pc <= 0xFFFF,
            fetch@ == fetch_line(instr, pc as int),
        ensures
            trap_post(*state, mem@, input_view(input), r, pc as int, instr),
            r.error is None ==> stage_actions(r.pipeline_stages@) == trap_actions(*state, mem@, input_view(input), pc as int, instr),
            r.cycles_added <= 5,
            r.pipeline_stages@.len() <= 5,
            r.error is None ==> faithful(state.regs@, state.pc, mem@, r.undo_log@),
    {
        let vect = instr % 256;
        let regs = &state.regs;
        let next: u32 = (pc + 2) % 0x10000;
        let mut halt = false;
        let mut out: Option<Vec<char>> = None;
        let mut r0: Option<u32> = None;
        if vect == 0x25 {
            halt = true;
        } else if vect == 0x20 {
            let mut o: Vec<char> = Vec::new();
            o.push(((regs[0] % 256) as u8) as char);
            out = Some(o);
        } else if vect == 0x21 {
            out = Some(read_c_string(mem.data(), regs[0] % 0x10000));
        } else if vect == 0x24 {
            out = Some(read_packed_string(mem, regs[0] % 0x10000));
        } else if vect == 0x22 || vect == 0x23 {
            match input {
                Some(s) => {
                    let cs = chars_of(s);
                    let c = if cs.len() > 0 { cs[0] } else { '\0' };
                    if vect == 0x22 {
                        let mut o: Vec<char> = Vec::new();
                        o.push(c);
                        out = Some(o);
                    }
                    r0 = Some((c as u32) % 256);
                },
                None => {
                    let decode = if vect == 0x22 {
                        lit("Decode TRAP x22 (IN) \u{2013} waiting for input")
                    } else {
                        lit("Decode TRAP x23 (GETC) \u{2013} waiting for input")
                    };
                    let req = if vect == 0x22 {
                        input_request("char", "Enter a character", Some(1))
                    } else {
                        input_request("char", "Enter a character (no echo)", Some(1))
                    };
                    let st = pipeline_wait(Some(instr as u32), fetch, decode);
                    return waiting_result(state, instr as u32, st, req);
                },
            }
        } else {
            let e = Text::new().s("Unsupported TRAP 0x").hex(vect as u64, 2).done();
            return error_result(state, Some(instr as u32), e);
        }
        let mut new_regs = state.regs.clone();
        assert(new_regs@ =~= state.regs@);
        let mut log: Vec<UndoEntry> = Vec::new();
        let mut events: Vec<TraceEvent> = Vec::new();
        match r0 {
            Some(v) => {
                let old0 = new_regs[0];
                new_regs.set(0, v);
                log.push(UndoEntry::RegWrite { reg: 0, old_value: old0, new_value: v });
            },
            None => {},
        }
        log.push(UndoEntry::Pc { old_value: state.pc, new_value: next });
        if halt {
            events.push(TraceEvent::Fetch);
            events.push(TraceEvent::Decode);
            events.push(TraceEvent::Halted);
        } else {
            events.push(TraceEvent::Fetch);
            events.push(TraceEvent::Decode);
            events.push(TraceEvent::Alu);
            if r0.is_some() {
                events.push(TraceEvent::RegWrite);
            }
        }
        let action = match (&out, r0) {
            (Some(o), _) => {
                let esc = escape_nl(o.as_slice());
                if vect == 0x21 {
                    Text::new().s("TRAP: PUTS \"").all(esc.as_slice()).s("\"").done()
                } else if vect == 0x24 {
                    Text::new().s("TRAP: PUTSP \"").all(esc.as_slice()).s("\"").done()
                } else if vect == 0x22 {
                    let v = match r0 { Some(x) => x, None => 0 };
                    Text::new().s("TRAP: IN \u{2192} R0 \u{2190} '").ch((v as u8) as char).s("' (0x").hex(v as u64, 2).s(")").done()
                } else {
                    Text::new().s("TRAP: OUT \"").all(esc.as_slice()).s("\"").done()
                }
            },
            (None, Some(v)) => {
                Text::new().s("TRAP: GETC \u{2192} R0 \u{2190} '").ch((v as u8) as char).s("' (0x").hex(v as u64, 2).s(")").done()
            },
            (None, None) => {
                if vect == 0x25 { lit("TRAP x25: HALT") } else { lit("TRAP") }
            },
        };
        let stages = if halt {
            pipeline_halt(Some(instr as u32), fetch, lit("Decode: TRAP x25 HALT"), lit("Halted"))
        } else {
            pipeline_5(Some(instr as u32), fetch, lit("Decode TRAP"), action, lit("NOP"), lit("PC \u{2190} PC+2"))
        };
        let out_s: Option<String> = match out {
            Some(o) => Some(crate::text::string_of(o.as_slice())),
            None => None,
        };
        proof {
            match r0 {
                Some(v) => {
                    assert(log@ =~= seq![
                        UndoEntry::RegWrite { reg: 0, old_value: state.regs@[0], new_value: v },
                        UndoEntry::Pc { old_value: state.pc, new_value: next },
                    ]);
                    assert(new_regs@ =~= state.regs@.update(0, v));
                    lemma_faithful_reg_pc(state.regs@, state.pc, mem@, 0, v, next);
                },
                None => {
                    assert(log@ =~= seq![UndoEntry::Pc { old_value: state.pc, new_value: next }]);
                    lemma_faithful_pc(state.regs@, state.pc, mem@, next);
                },
            }
            if halt {
                assert(events@ =~= seq![TraceEvent::Fetch, TraceEvent::Decode, TraceEvent::Halted]);
            } else if r0.is_some() {
                assert(events@ =~= events_alu().push(TraceEvent::RegWrite));
            } else {
                assert(events@ =~= events_alu());
            }
        }
        executed_result(new_regs, next, halt, log, events, if halt { 3 } else { 5 }, instr as u32, out_s, stages)
    }
}

/// A step of ADD, AND or NOT is reported by `alu_post`.
proof fn lemma_operate_post(s: CpuState, m: Seq<u8>, input: Option<Seq<char>>, r: StepResult)
    requires
        step_post(s, m, input, r),
        !s.halted,
        s.pc <= 0xFFFF,
        in_bounds(s.pc, 2, m.len()),
        ({
            let op = read16(m, s.pc as int) / 4096;
            op == 1 || op == 5 || op == 9
        }),
    ensures
        alu_post(s, r, s.pc as int, read16(m, s.pc as int)),
{
    assert(s.pc % 0x10000 == s.pc);
    assert(exec_post(s, m, input, r, s.pc as int, read16(m, s.pc as int)));
}

/// ADD, AND and NOT (opcodes 1, 5, 9) write to DR (bits 11-9) the 16-bit
/// sum, and, or complement of SR1 (bits 8-6) and the second operand: the
/// sign-extended five-bit immediate when bit 5 is set, else SR2 (bits 2-0).
/// The condition codes in R8 become exactly one of N (4), Z (2), P (1) for
/// a negative, zero or positive result, and the step moves to the next
/// word.
#[verifier::rlimit(40)]
pub proof fn lemma_operate_ops(s: CpuState, m: Seq<u8>, input: Option<Seq<char>>, r: StepResult)
    requires
        step_post(s, m, input, r),
        !s.halted,
        s.regs@.len() >= 9,
        s.pc <= 0xFFFF,
        in_bounds(s.pc, 2, m.len()),
        ({
            let op = read16(m, s.pc as int) >> 12u16;
            op == 1 || op == 5 || op == 9
        }),
    ensures
        ({
            let i = read16(m, s.pc as int);
            let op = i >> 12u16;
            let a = s.regs@[((i >> 6u16) & 7u16) as int] as u16;
            let b: u16 = if (i >> 5u16) & 1u16 == 1 {
                (((i << 11u16) as i16) >> 11u16) as u16
            } else {
                s.regs@[(i & 7u16) as int] as u16
            };
            let v: u16 = if op == 1 {
                ((a + b) % 0x10000) as u16
            } else if op == 5 {
                a & b
            } else {
                !a
            };
            &&& r.error is None
            &&& r.new_state.regs@[((i >> 9u16) & 7u16) as int] == v as u32
            &&& r.new_state.regs@[8] == (if (v as i16) < 0 { 4u32 } else if v == 0 { 2u32 } else { 1u32 })
            &&& r.new_state.pc == (s.pc + 2) % 0x10000
        }),
{
    let pc = s.pc;
    let i = read16(m, pc as int);
    assert(pc % 0x10000 == pc);
    assert(i / 4096 == i >> 12u16 && f_dr(i) == ((i >> 9u16) & 7u16) as int && f_sr1(i) == ((i >> 6u16) & 7u16) as int
        && (i / 32) % 2 == ((i >> 5u16) & 1u16) as int && i % 8 == (i & 7u16) as int) by (bit_vector);
    let im = i % 32;
    assert(wrap16(sext(im as int, 16)) == (((i << 11u16) as i16) >> 11u16) as u16) by {
        let k = i & 0x1Fu16;
        assert(im == k) by (bit_vector)
            requires
                im == i % 32,
                k == i & 0x1Fu16,
        ;
        assert((if k >= 16 { (k + 0xFFE0u16) as u16 } else { k }) == (((i << 11u16) as i16) >> 11u16) as u16) by (bit_vector)
            requires
                k == i & 0x1Fu16,
        ;
    }
    let x1 = s.regs@[f_sr1(i)];
    let x2 = s.regs@[(i % 8) as int];
    assert(((x1 % 0x10000) as u16) == x1 as u16 && ((x2 % 0x10000) as u16) == x2 as u16) by (bit_vector);
    let v = alu_value(s.regs@, pc as int, i);
    assert((v as i16) < 0 <==> v >= 0x8000) by (bit_vector);
    lemma_operate_post(s, m, input, r);
    assert(r.new_state.regs@ == s.regs@.update(8, cc_of(v)).update(f_dr(i), v as u32));
    assert(r.new_state.regs@[f_dr(i)] == v as u32);
    assert(r.new_state.regs@[8] == cc_of(v));
}

/// Bit facts of an instruction word `i`: its opcode, condition bits,
/// offset fields and register fields.
proof fn lemma_br_bits(i: u16)
    by (bit_vector)
    ensures
        i / 4096 == i >> 12u16,
        ((i / 2048) % 2 == 1) == ((i >> 11u16) & 1u16 == 1),
        ((i / 1024) % 2 == 1) == ((i >> 10u16) & 1u16 == 1),
        ((i / 512) % 2 == 1) == ((i >> 9u16) & 1u16 == 1),
        i % 512 == i & 0x1FFu16,
        i % 64 == i & 0x3Fu16,
        i % 2048 == i & 0x7FFu16,
        f_dr(i) == ((i >> 9u16) & 7u16) as int,
        f_sr1(i) == ((i >> 6u16) & 7u16) as int,
{
}

/// The condition code bits of `psr`.
proof fn lemma_cc_bits(psr: u32)
    by (bit_vector)
    ensures
        (psr >> 2u32) & 1u32 == (psr / 4) % 2,
        (psr >> 1u32) & 1u32 == (psr / 2) % 2,
        psr & 1u32 == psr % 2,
{
}

/// BR (opcode 0) with condition bits n, z, p (bits 11, 10, 9) goes to the
/// word `offset` (bits 8-0 as a nine-bit two's complement number) past the
/// next one, within the
/// 16-bit address space, when n and the N code (bit 2 of R8) are set, or z
/// and Z (bit 1), or p and P (bit 0), and also when n, z and p are all
/// clear or all set; otherwise it goes to the next word. No register
/// changes.
pub proof fn lemma_br(s: CpuState, m: Seq<u8>, input: Option<Seq<char>>, r: StepResult)
    requires
        step_post(s, m, input, r),
        !s.halted,
        s.regs@.len() >= 9,
        s.pc <= 0xFFFF,
        in_bounds(s.pc, 2, m.len()),
        read16(m, s.pc as int) >> 12u16 == 0,
    ensures
        ({
            let i = read16(m, s.pc as int);
            let psr = s.regs@[8];
            let n = (i >> 11u16) & 1u16 == 1;
            let z = (i >> 10u16) & 1u16 == 1;
            let p = (i >> 9u16) & 1u16 == 1;
            let o = (i & 0x1FFu16) as int;
            let offset = if o >= 256 { o - 512 } else { o };
            let taken = (n && (psr >> 2u32) & 1u32 == 1) || (z && (psr >> 1u32) & 1u32 == 1) || (p && psr & 1u32 == 1) || (!n && !z && !p)
                || (n && z && p);
            &&& r.error is None
            &&& r.new_state.regs@ == s.regs@
            &&& taken ==> r.new_state.pc as int == (s.pc + 2 + 2 * offset) % 0x10000
            &&& !taken ==> r.new_state.pc as int == (s.pc + 2) % 0x10000
        }),
{
    let pc = s.pc;
    let i = read16(m, pc as int);
    assert(pc % 0x10000 == pc);
    lemma_br_bits(i);
    lemma_cc_bits(s.regs@[8]);
    assert(exec_post(s, m, input, r, pc as int, i));
    assert(branch_post(s, r, pc as int, i));
}

/// LD (opcode 2) loads into DR (bits 11-9) the little-endian word at the
/// pc-relative address (the pc plus two plus twice the nine-bit two's
/// complement offset in bits 8-0), LDR (6) the word at the base register
/// (bits 8-6) plus twice the six-bit two's complement offset in bits 5-0;
/// the condition codes in R8 become N (4), Z (2) or P (1) for a negative,
/// zero or positive value. ST (3) and STR (7) write the low 16 bits of DR
/// to that address, low byte first, changing no register. Addresses wrap
/// at 2^16; the step moves to the next word, and an access past the end of
/// memory is an error.
pub proof fn lemma_loads_stores(s: CpuState, m: Seq<u8>, input: Option<Seq<char>>, r: StepResult)
    requires
        step_post(s, m, input, r),
        !s.halted,
        s.regs@.len() >= 9,
        s.pc <= 0xFFFF,
        in_bounds(s.pc, 2, m.len()),
        ({
            let op = read16(m, s.pc as int) >> 12u16;
            op == 2 || op == 6 || op == 3 || op == 7
        }),
    ensures
        ({
            let i = read16(m, s.pc as int);
            let op = i >> 12u16;
            let dr = ((i >> 9u16) & 7u16) as int;
            let o9 = (i & 0x1FFu16) as int;
            let o6 = (i & 0x3Fu16) as int;
            let addr: int = if op == 2 || op == 3 {
                (s.pc + 2 + 2 * (if o9 >= 256 { o9 - 512 } else { o9 })) % 0x10000
            } else {
                (s.regs@[((i >> 6u16) & 7u16) as int] + 2 * (if o6 >= 32 { o6 - 64 } else { o6 })) % 0x10000
            };
            let v = m[addr] as int + 256 * m[addr + 1] as int;
            let w = s.regs@[dr] % 0x10000;
            &&& (r.error is None <==> addr + 2 <= m.len())
            &&& r.error is None ==> r.new_state.pc == (s.pc + 2) % 0x10000
            &&& (op == 2 || op == 6) && r.error is None ==> {
                &&& r.new_state.regs@[dr] == v
                &&& r.new_state.regs@[8] == (if v >= 0x8000 { 4u32 } else if v == 0 { 2u32 } else { 1u32 })
            }
            &&& (op == 3 || op == 7) && r.error is None ==> {
                &&& r.new_state.regs@ == s.regs@
                &&& fwd_mem(m, r.undo_log@) == m.update(addr, (w % 256) as u8).update(addr + 1, (w / 256) as u8)
            }
        }),
{
    let pc = s.pc;
    let i = read16(m, pc as int);
    assert(pc % 0x10000 == pc);
    lemma_br_bits(i);
    assert(exec_post(s, m, input, r, pc as int, i));
    let op = i / 4096;
    if op == 2 || op == 6 {
        assert(load_post(s, m, r, pc as int, i));
    } else {
        assert(store_post(s, m, r, pc as int, i));
        reveal_with_fuel(fwd_mem, 4);
    }
}

/// JMP (opcode 12) goes to the address in the base register (bits 8-6),
/// taken modulo 2^16, and changes no register. JSR (opcode 4 with bit 11
/// set) goes to the word `offset` (bits 10-0 as an eleven-bit two's
/// complement number) past the next one, JSRR (bit 11 clear) to the base
/// register; both put the address of the next word in R7.
pub proof fn lemma_jumps(s: CpuState, m: Seq<u8>, input: Option<Seq<char>>, r: StepResult)
    requires
        step_post(s, m, input, r),
        !s.halted,
        s.regs@.len() >= 9,
        s.pc <= 0xFFFF,
        in_bounds(s.pc, 2, m.len()),
        read16(m, s.pc as int) >> 12u16 == 12 || read16(m, s.pc as int) >> 12u16 == 4,
    ensures
        ({
            let i = read16(m, s.pc as int);
            let op = i >> 12u16;
            let base = s.regs@[((i >> 6u16) & 7u16) as int] % 0x10000;
            let o = (i & 0x7FFu16) as int;
            let offset = if o >= 1024 { o - 2048 } else { o };
            let next = (s.pc + 2) % 0x10000;
            &&& r.error is None
            &&& op == 12 ==> r.new_state.pc == base && r.new_state.regs@ == s.regs@
            &&& op == 4 && (i >> 11u16) & 1u16 == 1 ==> r.new_state.pc == (s.pc + 2 + 2 * offset) % 0x10000
                && r.new_state.regs@ == s.regs@.update(7, next as u32)
            &&& op == 4 && (i >> 11u16) & 1u16 == 0 ==> r.new_state.pc == base && r.new_state.regs@ == s.regs@.update(7,
                next as u32)
        }),
{
    let pc = s.pc;
    let i = read16(m, pc as int);
    assert(pc % 0x10000 == pc);
    lemma_br_bits(i);
    assert(exec_post(s, m, input, r, pc as int, i));
    assert(branch_post(s, r, pc as int, i));
}

} // verus!

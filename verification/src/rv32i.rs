//! RISC-V RV32I: 32 registers x0-x31 (x0 reads as written but is never
//! written), 32-bit instructions fetched little-endian at the program counter.
use vstd::prelude::*;
use crate::plugin::{
    CpuState, UndoEntry, ResetConfig, StepMode, StepResult, TraceEvent, PipelineCycleInfo, input_view,
    stays_halted, failed, five_stages, halt_stages, error_result, halted_result, waiting_result, input_request,
    pipeline_5, pipeline_halt, pipeline_wait, stage_names, stage_actions, all_carry,
};
use crate::effects::{Effect, Outcome, Changes, reports, poke, load8, load16, load32};
use crate::memory::{Memory, in_bounds, oob_message, read16, read32};
use crate::text::{chars_of, hex_text, dec_text, int_text, trim, trim_chars, parse_signed, parse_int};
use crate::fmt::{Text, lit, escape_nl, escape_newlines};
use crate::lc3::{c_string, first_char, read_c_string};
use crate::undo::{faithful, replays, spares_reg0, fwd_mem};

verus! {

pub struct Rv32iPlugin;

// ---------------------------------------------------------------------------
// Semantics
// ---------------------------------------------------------------------------

pub open spec fn opc(i: u32) -> u32 { i & 0x7Fu32 }
pub open spec fn rd(i: u32) -> u32 { (i >> 7u32) & 0x1Fu32 }
pub open spec fn f3(i: u32) -> u32 { (i >> 12u32) & 7u32 }
pub open spec fn rs1(i: u32) -> u32 { (i >> 15u32) & 0x1Fu32 }
pub open spec fn rs2(i: u32) -> u32 { (i >> 20u32) & 0x1Fu32 }
pub open spec fn f7(i: u32) -> u32 { (i >> 25u32) & 0x7Fu32 }

/// `v` modulo 2^32.
pub open spec fn modw(v: int) -> u32 {
    (v % 0x1_0000_0000) as u32
}

/// The two's complement value of a word.
pub open spec fn signed(x: u32) -> int {
    if x >= 0x8000_0000 {
        x - 0x1_0000_0000
    } else {
        x as int
    }
}

/// Arithmetic shift right.
pub open spec fn sra(x: u32, s: u32) -> u32 {
    if x >= 0x8000_0000 {
        !((!x) >> s)
    } else {
        x >> s
    }
}

/// The I-type immediate, sign-extended to a word.
pub open spec fn imm_i(i: u32) -> u32 {
    let t = i >> 20u32;
    if t >= 0x800 {
        (t + 0xFFFF_F000) as u32
    } else {
        t
    }
}

/// The S-type immediate as this simulator reads it: its twelve bits, not sign-extended.
pub open spec fn imm_s(i: u32) -> u32 {
    ((i >> 7u32) & 0x1Fu32) | ((i >> 25u32) << 5u32)
}

pub open spec fn b_bits(i: u32) -> u32 {
    (((i >> 31u32) & 1u32) << 12u32) | (((i >> 7u32) & 1u32) << 11u32) | (((i >> 25u32) & 0x3Fu32) << 5u32) | (((i
        >> 8u32) & 0xFu32) << 1u32)
}

/// The B-type branch offset.
pub open spec fn imm_b(i: u32) -> int {
    let v = b_bits(i);
    if v >= 0x1000 {
        v - 0x2000
    } else {
        v as int
    }
}

pub open spec fn j_bits(i: u32) -> u32 {
    (((i >> 31u32) & 1u32) << 20u32) | (((i >> 12u32) & 0xFFu32) << 12u32) | (((i >> 20u32) & 1u32) << 11u32) | (((i
        >> 21u32) & 0x3FFu32) << 1u32)
}

/// The J-type jump offset.
pub open spec fn imm_j(i: u32) -> int {
    let v = j_bits(i);
    if v >= 0x10_0000 {
        v - 0x20_0000
    } else {
        v as int
    }
}

/// ADDI, SLTI, SLTIU, XORI, ORI, ANDI, SLLI, SRLI, SRAI.
pub open spec fn alu_imm(f3: u32, f7: u32, x: u32, imm: u32) -> Option<u32> {
    let sh = imm & 0x1Fu32;
    if f3 == 0 {
        Some(modw(x + imm))
    } else if f3 == 2 {
        Some(if signed(x) < signed(imm) { 1u32 } else { 0u32 })
    } else if f3 == 3 {
        Some(if x < imm { 1u32 } else { 0u32 })
    } else if f3 == 4 {
        Some(x ^ imm)
    } else if f3 == 6 {
        Some(x | imm)
    } else if f3 == 7 {
        Some(x & imm)
    } else if f3 == 1 {
        Some(x << sh)
    } else if f7 == 0 {
        Some(x >> sh)
    } else if f7 == 0x20 {
        Some(sra(x, sh))
    } else {
        None
    }
}

/// ADD, SUB, SLT, SLTU, XOR, OR, AND, SLL, SRL, SRA.
pub open spec fn alu_reg(f3: u32, f7: u32, a: u32, b: u32) -> Option<u32> {
    let sh = b & 0x1Fu32;
    if f7 == 0 {
        if f3 == 0 {
            Some(modw(a + b))
        } else if f3 == 2 {
            Some(if signed(a) < signed(b) { 1u32 } else { 0u32 })
        } else if f3 == 3 {
            Some(if a < b { 1u32 } else { 0u32 })
        } else if f3 == 4 {
            Some(a ^ b)
        } else if f3 == 6 {
            Some(a | b)
        } else if f3 == 7 {
            Some(a & b)
        } else if f3 == 1 {
            Some(a << sh)
        } else {
            Some(a >> sh)
        }
    } else if f7 == 0x20 && f3 == 0 {
        Some(modw(a - b))
    } else if f7 == 0x20 && f3 == 5 {
        Some(sra(a, sh))
    } else {
        None
    }
}

/// Whether a branch with condition `f3` is taken (`None` for an unknown condition).
pub open spec fn branch_taken(f3: u32, a: u32, b: u32) -> Option<bool> {
    if f3 == 0 {
        Some(a == b)
    } else if f3 == 1 {
        Some(a != b)
    } else if f3 == 4 {
        Some(signed(a) < signed(b))
    } else if f3 == 5 {
        Some(signed(a) >= signed(b))
    } else if f3 == 6 {
        Some(a < b)
    } else if f3 == 7 {
        Some(a >= b)
    } else {
        None
    }
}

pub open spec fn sx8(b: u8) -> u32 {
    if b >= 128 {
        (b + 0xFFFF_FF00) as u32
    } else {
        b as u32
    }
}

pub open spec fn sx16(h: u16) -> u32 {
    if h >= 0x8000 {
        (h + 0xFFFF_0000) as u32
    } else {
        h as u32
    }
}

/// Bytes a load of kind `f3` reads (0 for an unknown kind).
pub open spec fn load_width(f3: u32) -> nat {
    if f3 == 0 || f3 == 4 {
        1
    } else if f3 == 1 || f3 == 5 {
        2
    } else if f3 == 2 {
        4
    } else {
        0
    }
}

pub open spec fn load_value(f3: u32, m: Seq<u8>, a: int) -> u32 {
    if f3 == 0 {
        sx8(m[a])
    } else if f3 == 1 {
        sx16(read16(m, a))
    } else if f3 == 2 {
        read32(m, a)
    } else if f3 == 4 {
        m[a] as u32
    } else {
        read16(m, a) as u32
    }
}

/// Register `d` written with `v` (x0 stays).
pub open spec fn wr(r: Seq<u32>, d: u32, v: u32) -> Seq<u32> {
    if d > 0 {
        r.update(d as int, v)
    } else {
        r
    }
}

pub open spec fn base_events() -> Seq<TraceEvent> {
    seq![TraceEvent::Fetch, TraceEvent::Decode, TraceEvent::Alu]
}

pub open spec fn halt_events() -> Seq<TraceEvent> {
    seq![TraceEvent::Fetch, TraceEvent::Decode, TraceEvent::Halted]
}

/// An executed instruction taking five cycles.
pub open spec fn run5(regs: Seq<u32>, pc: u32, mem: Seq<u8>, events: Seq<TraceEvent>, out: Option<Seq<char>>) -> Outcome {
    Outcome::Run(Effect { regs, pc, halted: false, mem, events, cycles: 5, out }, five_stages())
}

/// An instruction that halts the CPU after three cycles.
pub open spec fn halt3(regs: Seq<u32>, pc: u32, mem: Seq<u8>) -> Outcome {
    Outcome::Run(Effect { regs, pc, halted: true, mem, events: halt_events(), cycles: 3, out: None }, halt_stages())
}

/// Memory after a store of kind `f3` (byte, halfword, word) of `v` at `a`,
/// little-endian.
pub open spec fn stored(m: Seq<u8>, f3: u32, a: u32, v: u32) -> Seq<u8> {
    if f3 == 0 {
        poke(m, a as int, (v & 0xFFu32) as u8)
    } else if f3 == 1 {
        let h = v & 0xFFFFu32;
        poke(poke(m, a as int, (h % 256) as u8), a + 1, (h / 256) as u8)
    } else {
        poke(
            poke(poke(poke(m, a as int, (v % 256) as u8), a + 1, ((v / 0x100) % 256) as u8), a + 2, ((v / 0x1_0000) % 256) as u8),
            modw(a + 3) as int,
            ((v / 0x100_0000) % 256) as u8,
        )
    }
}

/// Memory after reading the string `bytes` into the buffer at `a` (wrapping
/// addresses), bytes outside memory skipped.
pub open spec fn poke_all(m: Seq<u8>, a: u32, bytes: Seq<u8>) -> Seq<u8>
    decreases bytes.len(),
{
    if bytes.len() == 0 {
        m
    } else {
        poke_all(poke(m, a as int, bytes[0]), modw(a + 1), bytes.drop_first())
    }
}

/// The buffer size of a string read: the requested size within 1..=1024.
pub open spec fn buffer_len(a1: u32) -> nat {
    if a1 > 1024 {
        1024
    } else if a1 == 0 {
        1
    } else {
        a1 as nat
    }
}

/// The bytes a string read stores: as many input bytes as fit before the terminating zero.
pub open spec fn read_bytes(s: Seq<char>, a1: u32) -> Seq<u8> {
    let b = vstd::utf8::encode_utf8(s);
    let n = if b.len() < buffer_len(a1) - 1 { b.len() } else { (buffer_len(a1) - 1) as nat };
    b.subrange(0, n as int).push(0)
}

/// Environment calls (a7 selects the service) and EBREAK.
pub open spec fn system_outcome(r: Seq<u32>, m: Seq<u8>, pc: u32, input: Option<Seq<char>>, i: u32) -> Outcome {
    let next = (pc + 4) as u32;
    let a7 = r[17];
    let done = |regs: Seq<u32>, mem: Seq<u8>, out: Option<Seq<char>>|
        run5(regs, next, mem, seq![TraceEvent::Fetch, TraceEvent::Decode, TraceEvent::Alu, TraceEvent::RegWrite], out);
    if (i >> 20u32) & 0xFFFu32 == 1 {
        halt3(r, next, m)
    } else if a7 == 10 || a7 == 93 {
        halt3(r, next, m)
    } else if a7 == 4 {
        done(r, m, Some(c_string(m, r[10] as int)))
    } else if a7 == 11 {
        done(r, m, Some(int_text(signed(r[10]))))
    } else if a7 == 12 {
        done(r, m, Some(seq![(r[10] as u8) as char]))
    } else if a7 == 5 {
        match input {
            None => Outcome::Wait("int"@, "Enter an integer"@, None),
            Some(s) => {
                let v = match parse_signed(trim(s), 10, -0x8000_0000, 0x7FFF_FFFF) {
                    Some(v) => modw(v),
                    None => 0u32,
                };
                done(r.update(10, v), m, None)
            },
        }
    } else if a7 == 8 {
        match input {
            None => Outcome::Wait("string"@, "Enter a string"@, Some(r[11])),
            Some(s) => done(r, poke_all(m, r[10], read_bytes(s, r[11])), None),
        }
    } else if a7 == 13 {
        match input {
            None => Outcome::Wait("char"@, "Enter a character"@, Some(1)),
            Some(s) => done(r.update(10, (first_char(s) as u32) & 0xFFu32), m, None),
        }
    } else if imm_i(i) == 0 {
        halt3(r, next, m)
    } else {
        Outcome::Fail("Unsupported ecall a7="@ + dec_text(a7 as nat))
    }
}

pub open spec fn unknown_opcode_text(pc: u32, op: u32, i: u32) -> Seq<char> {
    "Runtime error at PC=0x"@ + hex_text(pc as nat, 8) + ": Unknown opcode 0x"@ + hex_text(op as nat, 2)
        + ". Instruction word: 0x"@ + hex_text(i as nat, 8)
        + ". Possible causes: invalid/unsupported instruction, wrong jump target (e.g. jal/j label), or corrupted memory."@
}

/// What executing the instruction `i` fetched at `pc` comes to.
pub open spec fn outcome(r: Seq<u32>, m: Seq<u8>, pc: u32, input: Option<Seq<char>>, i: u32) -> Outcome {
    let op = opc(i);
    let next = (pc + 4) as u32;
    let ev_w = base_events().push(TraceEvent::RegWrite);
    if op == 0x13 {
        match alu_imm(f3(i), f7(i), r[rs1(i) as int], imm_i(i)) {
            Some(v) => run5(wr(r, rd(i), v), next, m, ev_w, None),
            None => Outcome::Fail("Unknown I-type funct7: "@ + dec_text(f7(i) as nat)),
        }
    } else if op == 0x33 {
        match alu_reg(f3(i), f7(i), r[rs1(i) as int], r[rs2(i) as int]) {
            Some(v) => run5(wr(r, rd(i), v), next, m, ev_w, None),
            None => Outcome::Fail("Unknown R-type: funct3="@ + dec_text(f3(i) as nat) + " funct7="@ + dec_text(f7(i) as nat)),
        }
    } else if op == 0x37 {
        run5(wr(r, rd(i), i & 0xFFFF_F000u32), next, m, ev_w, None)
    } else if op == 0x17 {
        run5(wr(r, rd(i), modw(pc + (i & 0xFFFF_F000u32))), next, m, ev_w, None)
    } else if op == 0x03 {
        let a = modw(r[rs1(i) as int] + imm_i(i));
        let w = load_width(f3(i));
        if w == 0 {
            Outcome::Fail("Unknown load funct3: "@ + dec_text(f3(i) as nat))
        } else if !in_bounds(a, w, m.len()) {
            Outcome::Fail(oob_message(a, w, m.len()))
        } else {
            run5(wr(r, rd(i), load_value(f3(i), m, a as int)), next, m, base_events() + seq![TraceEvent::Mem, TraceEvent::RegWrite], None)
        }
    } else if op == 0x23 {
        let a = modw(r[rs1(i) as int] + imm_s(i));
        let w: nat = if f3(i) == 0 { 1 } else if f3(i) == 1 { 2 } else { 4 };
        if f3(i) > 2 {
            Outcome::Fail("Unknown store funct3"@)
        } else if !in_bounds(a, w, m.len()) {
            Outcome::Fail(oob_message(a, w, m.len()))
        } else {
            run5(r, next, stored(m, f3(i), a, r[rs2(i) as int]), base_events().push(TraceEvent::Mem), None)
        }
    } else if op == 0x63 {
        match branch_taken(f3(i), r[rs1(i) as int], r[rs2(i) as int]) {
            Some(t) => run5(r, if t { modw(pc + imm_b(i)) } else { next }, m, base_events(), None),
            None => Outcome::Fail("Unknown B-type funct3: "@ + dec_text(f3(i) as nat)),
        }
    } else if op == 0x6F {
        run5(wr(r, rd(i), next), modw(pc + imm_j(i)), m, ev_w, None)
    } else if op == 0x67 {
        run5(wr(r, rd(i), next), modw(r[rs1(i) as int] + imm_i(i)) & !1u32, m, ev_w, None)
    } else if op == 0x73 {
        system_outcome(r, m, pc, input, i)
    } else if op == 0 {
        run5(r, next, m, base_events(), None)
    } else {
        Outcome::Fail(unknown_opcode_text(pc, op, i))
    }
}

/// The text of the fetch stage.
pub open spec fn fetch_line(i: u32, pc: u32) -> Seq<char> {
    "Load 0x"@ + hex_text(i as nat, 8) + " from IMem[PC=0x"@ + hex_text(pc as nat, 8) + "]"@
}

/// `x<d> ← <v>` in decimal.
pub open spec fn x_is(d: u32, v: u32) -> Seq<char> {
    "x"@ + dec_text(d as nat) + " ← "@ + dec_text(v as nat)
}

/// The stage texts of the register-writing instructions, `v` being the value written.
pub open spec fn reg_actions(r: Seq<u32>, pc: u32, i: u32, v: u32) -> Seq<Seq<char>> {
    let op = opc(i);
    let d = rd(i) as nat;
    let a = rs1(i) as nat;
    let fetch = fetch_line(i, pc);
    let nomem = "NOP (no memory access)"@;
    if op == 0x13 {
        seq![fetch, "Extract rd=x"@ + dec_text(d) + ", rs1=x"@ + dec_text(a) + ", imm="@ + dec_text(imm_i(i) as nat),
            "ALU: x"@ + dec_text(a) + " op imm = "@ + dec_text(v as nat), nomem, x_is(rd(i), v)]
    } else if op == 0x33 {
        let b = rs2(i) as nat;
        seq![fetch, "Extract rd=x"@ + dec_text(d) + ", rs1=x"@ + dec_text(a) + ", rs2=x"@ + dec_text(b),
            "ALU: x"@ + dec_text(a) + " op x"@ + dec_text(b) + " = "@ + dec_text(v as nat), nomem, x_is(rd(i), v)]
    } else if op == 0x37 || op == 0x17 {
        let u = i & 0xFFFF_F000u32;
        seq![fetch, "Extract rd=x"@ + dec_text(d) + ", imm[31:12]=0x"@ + hex_text((u >> 12u32) as nat, 5),
            if op == 0x37 {
                "Execute: imm << 12 = 0x"@ + hex_text(u as nat, 8)
            } else {
                "Execute: PC + 0x"@ + hex_text(u as nat, 8) + " = 0x"@ + hex_text(v as nat, 8)
            }, nomem, "x"@ + dec_text(d) + " ← 0x"@ + hex_text(v as nat, 8)]
    } else if op == 0x6F {
        let target = modw(pc + imm_j(i));
        seq![fetch, "Extract rd=x"@ + dec_text(d) + ", imm (J-type)"@,
            "Execute: target = PC + "@ + int_text(imm_j(i)) + " = 0x"@ + hex_text(target as nat, 8), nomem,
            if d > 0 {
                "x"@ + dec_text(d) + " ← PC+4 (0x"@ + hex_text(v as nat, 8) + "), PC ← 0x"@ + hex_text(target as nat, 8)
            } else {
                "PC ← 0x"@ + hex_text(target as nat, 8) + " (rd=x0)"@
            }]
    } else if op == 0x67 {
        let target = modw(r[rs1(i) as int] + imm_i(i)) & !1u32;
        let si = signed(imm_i(i));
        seq![fetch, "Extract rd=x"@ + dec_text(d) + ", rs1=x"@ + dec_text(a) + ", imm="@ + int_text(si),
            "Execute: target = (x"@ + dec_text(a) + " + "@ + int_text(si) + ") & !1 = 0x"@ + hex_text(target as nat, 8), nomem,
            if d > 0 {
                "x"@ + dec_text(d) + " ← PC+4, PC ← (x"@ + dec_text(a) + " + "@ + int_text(si) + ") & !1 = 0x"@ + hex_text(target as nat, 8)
            } else {
                "PC ← (x"@ + dec_text(a) + " + "@ + int_text(si) + ") & !1 = 0x"@ + hex_text(target as nat, 8)
            }]
    } else {
        seq![fetch, "Decode: NOP (all zeros)"@, "Execute: NOP"@, nomem, "PC ← PC+4 (no register write)"@]
    }
}

/// The stage texts of a load.
pub open spec fn load_actions(r: Seq<u32>, m: Seq<u8>, pc: u32, i: u32) -> Seq<Seq<char>> {
    let a = rs1(i) as nat;
    let si = signed(imm_i(i));
    let addr = modw(r[rs1(i) as int] + imm_i(i));
    let v = load_value(f3(i), m, addr as int);
    seq![fetch_line(i, pc), "Extract rd=x"@ + dec_text(rd(i) as nat) + ", rs1=x"@ + dec_text(a) + ", imm="@ + int_text(si),
        "Execute: addr = x"@ + dec_text(a) + " + "@ + int_text(si) + " = 0x"@ + hex_text(addr as nat, 8),
        "Memory: load word from Mem[0x"@ + hex_text(addr as nat, 8) + "] = "@ + dec_text(v as nat), x_is(rd(i), v)]
}

/// The stage texts of a store.
pub open spec fn store_actions(r: Seq<u32>, pc: u32, i: u32) -> Seq<Seq<char>> {
    let a = rs1(i) as nat;
    let imm = imm_s(i) as nat;
    let addr = modw(r[rs1(i) as int] + imm_s(i));
    seq![fetch_line(i, pc), "Extract rs1=x"@ + dec_text(a) + ", rs2=x"@ + dec_text(rs2(i) as nat) + ", imm="@ + dec_text(imm),
        "Execute: addr = x"@ + dec_text(a) + " + "@ + dec_text(imm) + " = 0x"@ + hex_text(addr as nat, 8),
        "Memory: store "@ + dec_text(r[rs2(i) as int] as nat) + " to Mem[0x"@ + hex_text(addr as nat, 8) + "]"@,
        "NOP (no register write)"@]
}

/// The mnemonic of a branch condition.
pub open spec fn branch_name(f: u32) -> Seq<char> {
    if f == 0 {
        "beq"@
    } else if f == 1 {
        "bne"@
    } else if f == 4 {
        "blt"@
    } else if f == 5 {
        "bge"@
    } else if f == 6 {
        "bltu"@
    } else {
        "bgeu"@
    }
}

/// The stage texts of a branch.
pub open spec fn branch_actions(r: Seq<u32>, pc: u32, i: u32) -> Seq<Seq<char>> {
    let a = r[rs1(i) as int];
    let b = r[rs2(i) as int];
    let name = branch_name(f3(i));
    let ex = if branch_taken(f3(i), a, b) == Some(true) {
        name + ": "@ + dec_text(a as nat) + " == "@ + dec_text(b as nat) + " → taken, PC ← 0x"@ + hex_text(modw(pc + imm_b(i)) as nat, 8)
    } else {
        name + ": "@ + dec_text(a as nat) + " != "@ + dec_text(b as nat) + " → not taken, PC ← 0x"@ + hex_text((pc + 4) as nat, 8)
    };
    seq![fetch_line(i, pc), "Extract rs1=x"@ + dec_text(rs1(i) as nat) + ", rs2=x"@ + dec_text(rs2(i) as nat) + ", imm="@
        + int_text(imm_b(i)), ex, "NOP (no memory access)"@, "PC updated (no register write)"@]
}

/// The execute text of a printing environment call.
pub open spec fn print_line(o: Seq<char>) -> Seq<char> {
    "ecall: print \""@ + escape_newlines(o) + "\""@
}

/// The stage texts of ECALL and EBREAK.
pub open spec fn system_actions(r: Seq<u32>, m: Seq<u8>, pc: u32, input: Option<Seq<char>>, i: u32) -> Seq<Seq<char>> {
    let a7 = r[17];
    let fetch = fetch_line(i, pc);
    let svc = a7 == 4 || a7 == 11 || a7 == 12 || a7 == 5 || a7 == 8 || a7 == 13;
    if (i >> 20u32) & 0xFFFu32 == 1 || a7 == 10 || a7 == 93 || (!svc && imm_i(i) == 0) {
        seq![fetch, if (i >> 20u32) & 0xFFFu32 == 1 { "Decode: ebreak (breakpoint)"@ } else { "Decode: ecall (system call)"@ }, "Halted"@]
    } else if (a7 == 5 || a7 == 8 || a7 == 13) && input is None {
        seq![fetch, if a7 == 5 {
            "ecall 5 (read int) – waiting for input"@
        } else if a7 == 8 {
            "ecall 8 (read string) – waiting for input"@
        } else {
            "ecall 13 (read char) – waiting for input"@
        }]
    } else {
        let action = if a7 == 4 {
            print_line(c_string(m, r[10] as int))
        } else if a7 == 11 {
            print_line(int_text(signed(r[10])))
        } else if a7 == 12 {
            print_line(seq![(r[10] as u8) as char])
        } else {
            "ecall: halt"@
        };
        seq![fetch, "Decode: ecall"@, action, "NOP"@, "PC ← PC+4"@]
    }
}

/// The stage texts of a step that executed the instruction `i` at `pc` (or waits for input).
pub open spec fn rv_actions(r: Seq<u32>, m: Seq<u8>, pc: u32, input: Option<Seq<char>>, i: u32) -> Seq<Seq<char>> {
    let op = opc(i);
    if op == 0x13 {
        reg_actions(r, pc, i, alu_imm(f3(i), f7(i), r[rs1(i) as int], imm_i(i)).unwrap())
    } else if op == 0x33 {
        reg_actions(r, pc, i, alu_reg(f3(i), f7(i), r[rs1(i) as int], r[rs2(i) as int]).unwrap())
    } else if op == 0x37 {
        reg_actions(r, pc, i, i & 0xFFFF_F000u32)
    } else if op == 0x17 {
        reg_actions(r, pc, i, modw(pc + (i & 0xFFFF_F000u32)))
    } else if op == 0x6F || op == 0x67 || op == 0 {
        reg_actions(r, pc, i, (pc + 4) as u32)
    } else if op == 0x03 {
        load_actions(r, m, pc, i)
    } else if op == 0x23 {
        store_actions(r, pc, i)
    } else if op == 0x63 {
        branch_actions(r, pc, i)
    } else {
        system_actions(r, m, pc, input, i)
    }
}

/// The log of an instruction that writes register `d` (nothing for x0) and
/// moves the program counter: the register's old and new value, then the
/// step to `new.pc`.
pub open spec fn write_log(s: CpuState, new: CpuState, d: u32) -> Seq<UndoEntry> {
    (if d != 0 {
        seq![UndoEntry::RegWrite { reg: d as usize, old_value: s.regs@[d as int], new_value: new.regs@[d as int] }]
    } else {
        Seq::empty()
    }) + seq![UndoEntry::Pc { old_value: s.pc, new_value: new.pc }]
}

/// The log of a store of kind `f3` of `v` at `a` by the instruction at `pc`:
/// each byte written, low byte first, then the step to the next instruction.
pub open spec fn store_log(m: Seq<u8>, f3: u32, a: u32, v: u32, pc: u32) -> Seq<UndoEntry> {
    let bytes = if f3 == 0 {
        seq![UndoEntry::MemWrite { addr: a, old_value: m[a as int], new_value: (v & 0xFFu32) as u8 }]
    } else if f3 == 1 {
        let h = v & 0xFFFFu32;
        seq![
            UndoEntry::MemWrite { addr: a, old_value: m[a as int], new_value: (h % 256) as u8 },
            UndoEntry::MemWrite { addr: (a + 1) as u32, old_value: m[a + 1], new_value: (h / 256) as u8 },
        ]
    } else {
        seq![
            UndoEntry::MemWrite { addr: a, old_value: m[a as int], new_value: (v % 256) as u8 },
            UndoEntry::MemWrite { addr: (a + 1) as u32, old_value: m[a + 1], new_value: ((v / 0x100) % 256) as u8 },
            UndoEntry::MemWrite { addr: (a + 2) as u32, old_value: m[a + 2], new_value: ((v / 0x1_0000) % 256) as u8 },
            UndoEntry::MemWrite { addr: modw(a + 3), old_value: m[a + 3], new_value: ((v / 0x100_0000) % 256) as u8 },
        ]
    };
    bytes + seq![UndoEntry::Pc { old_value: pc, new_value: (pc + 4) as u32 }]
}

/// The contract of one RV32I step.
pub open spec fn step_post(s: CpuState, m: Seq<u8>, input: Option<Seq<char>>, r: StepResult) -> bool {
    if s.halted {
        stays_halted(s, r)
    } else if !in_bounds(s.pc, 4, m.len()) {
        failed(s, r, None) && (r.error matches Some(e) && e@ == oob_message(s.pc, 4, m.len()))
    } else {
        let i = read32(m, s.pc as int);
        &&& reports(s, m, r, outcome(s.regs@, m, s.pc, input, i), i)
        &&& r.error is None ==> stage_actions(r.pipeline_stages@) == rv_actions(s.regs@, m, s.pc, input, i)
        &&& r.error is None ==> faithful(s.regs@, s.pc, m, r.undo_log@)
        &&& r.error is None ==> replays(s.regs@, s.pc, r.undo_log@, r.new_state) && spares_reg0(r.undo_log@)
        &&& opc(i) == 0x63 && r.error is None ==> r.undo_log@ == seq![UndoEntry::Pc { old_value: s.pc, new_value: r.new_state.pc }]
        &&& r.error is None && (opc(i) == 0x13 || opc(i) == 0x33 || opc(i) == 0x37 || opc(i) == 0x17 || opc(i) == 0x03 || opc(i)
            == 0x6F || opc(i) == 0x67) ==> r.undo_log@ == write_log(s, r.new_state, rd(i))
        &&& r.error is None && opc(i) == 0 ==> r.undo_log@ == write_log(s, r.new_state, 0)
        &&& r.error is None && opc(i) == 0x23 ==> r.undo_log@ == store_log(m, f3(i), modw(s.regs@[rs1(i) as int] + imm_s(i)),
            s.regs@[rs2(i) as int], s.pc)
    }
}

// ---------------------------------------------------------------------------
// Executor
// ---------------------------------------------------------------------------

/// Bounds of the fields of an instruction word `i`, the sign-extended
/// I-type immediate as an arithmetic shift, and the bound of the low five
/// bits of `x`.
proof fn lemma_field_bits(i: u32, x: u32)
    by (bit_vector)
    ensures
        rd(i) < 32,
        rs1(i) < 32,
        rs2(i) < 32,
        f3(i) < 8,
        x & 0x1Fu32 < 32,
        i >> 20u32 <= 0xFFF,
        imm_i(i) == ((i as i32) >> 20u32) as u32,
        (((i as i32) >> 20u32) as u32) & 0x1Fu32 == (i >> 20u32) & 31u32,
        x & !1u32 == x & 0xFFFF_FFFEu32,
        x & 0xFFu32 == x % 256,
        (x & 0xFFFFu32) % 256 == x % 256,
        (x & 0xFFFFu32) / 256 == (x / 256) % 256,
        imm_s(i) == ((i >> 25u32) << 5u32) | ((i >> 7u32) & 0x1Fu32),
{
}

fn rd_f(i: u32) -> (r: u32)
    ensures
        r == rd(i),
        r < 32,
{
    proof {
        lemma_field_bits(i, 0);
    }
    (i >> 7u32) & 0x1Fu32
}

fn rs1_f(i: u32) -> (r: u32)
    ensures
        r == rs1(i),
        r < 32,
{
    proof {
        lemma_field_bits(i, 0);
    }
    (i >> 15u32) & 0x1Fu32
}

fn rs2_f(i: u32) -> (r: u32)
    ensures
        r == rs2(i),
        r < 32,
{
    proof {
        lemma_field_bits(i, 0);
    }
    (i >> 20u32) & 0x1Fu32
}

fn f3_f(i: u32) -> (r: u32)
    ensures
        r == f3(i),
        r < 8,
{
    proof {
        lemma_field_bits(i, 0);
    }
    (i >> 12u32) & 7u32
}

pub fn low5(x: u32) -> (r: u32)
    ensures
        r == x & 0x1Fu32,
        r < 32,
{
    proof {
        lemma_field_bits(0, x);
    }
    x & 0x1Fu32
}

fn imm_i_f(i: u32) -> (r: u32)
    ensures
        r == imm_i(i),
{
    let t = i >> 20u32;
    proof {
        lemma_field_bits(i, 0);
    }
    if t >= 0x800 { t + 0xFFFF_F000 } else { t }
}

pub fn add_w(a: u32, b: u32) -> (r: u32)
    ensures
        r == modw(a + b),
{
    ((a as u64 + b as u64) % 0x1_0000_0000) as u32
}

/// `a` plus the signed offset whose `bits`-bit encoding is `v`.
fn add_signed(a: u32, v: u32, half: u32) -> (r: u32)
    requires
        v < 2 * half,
        half == 0x1000 || half == 0x10_0000,
    ensures
        r == modw(a + (if v >= half { v - 2 * half } else { v as int })),
{
    if v >= half {
        ((a as u64 + v as u64 + 0x1_0000_0000 - 2 * half as u64) % 0x1_0000_0000) as u32
    } else {
        ((a as u64 + v as u64) % 0x1_0000_0000) as u32
    }
}

pub fn signed_lt(a: u32, b: u32) -> (r: bool)
    ensures
        r == (signed(a) < signed(b)),
{
    if (a >= 0x8000_0000) == (b >= 0x8000_0000) {
        a < b
    } else {
        a >= 0x8000_0000
    }
}

pub fn sra_f(x: u32, s: u32) -> (r: u32)
    requires
        s < 32,
    ensures
        r == sra(x, s),
{
    if x >= 0x8000_0000 { !((!x) >> s) } else { x >> s }
}

pub fn signed_of(x: u32) -> (r: i64)
    ensures
        r == signed(x),
{
    if x >= 0x8000_0000 { x as i64 - 0x1_0000_0000 } else { x as i64 }
}

fn alu_imm_f(f3: u32, f7: u32, x: u32, imm: u32) -> (r: Option<u32>)
    ensures
        r == alu_imm(f3, f7, x, imm),
{
    let sh = low5(imm);
    if f3 == 0 {
        Some(add_w(x, imm))
    } else if f3 == 2 {
        Some(if signed_lt(x, imm) { 1u32 } else { 0u32 })
    } else if f3 == 3 {
        Some(if x < imm { 1u32 } else { 0u32 })
    } else if f3 == 4 {
        Some(x ^ imm)
    } else if f3 == 6 {
        Some(x | imm)
    } else if f3 == 7 {
        Some(x & imm)
    } else if f3 == 1 {
        Some(x << sh)
    } else if f7 == 0 {
        Some(x >> sh)
    } else if f7 == 0x20 {
        Some(sra_f(x, sh))
    } else {
        None
    }
}

fn alu_reg_f(f3: u32, f7: u32, a: u32, b: u32) -> (r: Option<u32>)
    ensures
        r == alu_reg(f3, f7, a, b),
{
    let sh = low5(b);
    if f7 == 0 {
        if f3 == 0 {
            Some(add_w(a, b))
        } else if f3 == 2 {
            Some(if signed_lt(a, b) { 1u32 } else { 0u32 })
        } else if f3 == 3 {
            Some(if a < b { 1u32 } else { 0u32 })
        } else if f3 == 4 {
            Some(a ^ b)
        } else if f3 == 6 {
            Some(a | b)
        } else if f3 == 7 {
            Some(a & b)
        } else if f3 == 1 {
            Some(a << sh)
        } else {
            Some(a >> sh)
        }
    } else if f7 == 0x20 && f3 == 0 {
        Some(((a as u64 + 0x1_0000_0000 - b as u64) % 0x1_0000_0000) as u32)
    } else if f7 == 0x20 && f3 == 5 {
        Some(sra_f(a, sh))
    } else {
        None
    }
}

pub fn fetch_text(i: u32, pc: u32) -> (r: String)
    ensures
        r@ == fetch_line(i, pc),
{
    Text::new().s("Load 0x").hex(i as u64, 8).s(" from IMem[PC=0x").hex(pc as u64, 8).s("]").done()
}

pub fn stages5(i: u32, fetch: String, decode: String, execute: String, mem: &str, wb: String) -> (st: Vec<PipelineCycleInfo>)
    ensures
        stage_names(st@) == five_stages(),
        stage_actions(st@) == seq![fetch@, decode@, execute@, mem@, wb@],
        all_carry(st@, Some(i)),
        st@.len() == 5,
{
    pipeline_5(Some(i), fetch, decode, execute, lit(mem), wb)
}

fn reg_eq_text(prefix: &str, r: u32, mid: &str, v: u64) -> (t: String)
    ensures
        t@ == prefix@ + dec_text(r as nat) + mid@ + dec_text(v as nat),
{
    Text::new().s(prefix).dec(r as u64).s(mid).dec(v).done()
}

fn writes_reg_stages(op: u32, i: u32, pc: u32, regs: &Vec<u32>, v: u32) -> (st: Vec<PipelineCycleInfo>)
    requires
        regs@.len() >= 32,
        op == opc(i),
    ensures
        stage_actions(st@) == reg_actions(regs@, pc, i, v),
        stage_names(st@) == five_stages(),
        all_carry(st@, Some(i)),
        st@.len() == 5,
{
    let d = rd_f(i);
    let a = rs1_f(i);
    let imm = imm_i_f(i);
    let fetch = fetch_text(i, pc);
    if op == 0x13 {
        let dec = Text::new().s("Extract rd=x").dec(d as u64).s(", rs1=x").dec(a as u64).s(", imm=").dec(imm as u64).done();
        let ex = Text::new().s("ALU: x").dec(a as u64).s(" op imm = ").dec(v as u64).done();
        stages5(i, fetch, dec, ex, "NOP (no memory access)", reg_eq_text("x", d, " ← ", v as u64))
    } else if op == 0x33 {
        let b = rs2_f(i);
        let dec = Text::new().s("Extract rd=x").dec(d as u64).s(", rs1=x").dec(a as u64).s(", rs2=x").dec(b as u64).done();
        let ex = Text::new().s("ALU: x").dec(a as u64).s(" op x").dec(b as u64).s(" = ").dec(v as u64).done();
        stages5(i, fetch, dec, ex, "NOP (no memory access)", reg_eq_text("x", d, " ← ", v as u64))
    } else if op == 0x37 || op == 0x17 {
        let u = i & 0xFFFF_F000u32;
        let dec = Text::new().s("Extract rd=x").dec(d as u64).s(", imm[31:12]=0x").hex((u >> 12u32) as u64, 5).done();
        let ex = if op == 0x37 {
            Text::new().s("Execute: imm << 12 = 0x").hex(u as u64, 8).done()
        } else {
            Text::new().s("Execute: PC + 0x").hex(u as u64, 8).s(" = 0x").hex(v as u64, 8).done()
        };
        let wb = Text::new().s("x").dec(d as u64).s(" ← 0x").hex(v as u64, 8).done();
        stages5(i, fetch, dec, ex, "NOP (no memory access)", wb)
    } else if op == 0x6F {
        let target = add_signed(pc, j_bits_f(i), 0x10_0000);
        let off = signed_of(if j_bits_f(i) >= 0x10_0000 { j_bits_f(i) + 0xFFE0_0000 } else { j_bits_f(i) });
        let dec = Text::new().s("Extract rd=x").dec(d as u64).s(", imm (J-type)").done();
        let ex = Text::new().s("Execute: target = PC + ").sint(off).s(" = 0x").hex(target as u64, 8).done();
        let wb = if d > 0 {
            Text::new().s("x").dec(d as u64).s(" ← PC+4 (0x").hex(v as u64, 8).s("), PC ← 0x").hex(target as u64, 8).done()
        } else {
            Text::new().s("PC ← 0x").hex(target as u64, 8).s(" (rd=x0)").done()
        };
        stages5(i, fetch, dec, ex, "NOP (no memory access)", wb)
    } else if op == 0x67 {
        let target = add_w(regs[a as usize], imm) & !1u32;
        let si = signed_of(imm);
        let dec = Text::new().s("Extract rd=x").dec(d as u64).s(", rs1=x").dec(a as u64).s(", imm=").sint(si).done();
        let ex = Text::new().s("Execute: target = (x").dec(a as u64).s(" + ").sint(si).s(") & !1 = 0x").hex(target as u64, 8).done();
        let wb = if d > 0 {
            Text::new().s("x").dec(d as u64).s(" ← PC+4, PC ← (x").dec(a as u64).s(" + ").sint(si).s(") & !1 = 0x").hex(
                target as u64,
                8,
            ).done()
        } else {
            Text::new().s("PC ← (x").dec(a as u64).s(" + ").sint(si).s(") & !1 = 0x").hex(target as u64, 8).done()
        };
        stages5(i, fetch, dec, ex, "NOP (no memory access)", wb)
    } else {
        stages5(i, fetch, lit("Decode: NOP (all zeros)"), lit("Execute: NOP"), "NOP (no memory access)", lit("PC ← PC+4 (no register write)"))
    }
}

fn j_bits_f(i: u32) -> (r: u32)
    ensures
        r == j_bits(i),
        r < 0x20_0000,
{
    assert((((i >> 31u32) & 1u32) << 20u32) | (((i >> 12u32) & 0xFFu32) << 12u32) | (((i >> 20u32) & 1u32) << 11u32) | (((
        i >> 21u32) & 0x3FFu32) << 1u32) < 0x20_0000) by (bit_vector);
    (((i >> 31u32) & 1u32) << 20u32) | (((i >> 12u32) & 0xFFu32) << 12u32) | (((i >> 20u32) & 1u32) << 11u32) | (((i
        >> 21u32) & 0x3FFu32) << 1u32)
}

fn b_bits_f(i: u32) -> (r: u32)
    ensures
        r == b_bits(i),
        r < 0x2000,
{
    assert((((i >> 31u32) & 1u32) << 12u32) | (((i >> 7u32) & 1u32) << 11u32) | (((i >> 25u32) & 0x3Fu32) << 5u32) | (((
        i >> 8u32) & 0xFu32) << 1u32) < 0x2000) by (bit_vector);
    (((i >> 31u32) & 1u32) << 12u32) | (((i >> 7u32) & 1u32) << 11u32) | (((i >> 25u32) & 0x3Fu32) << 5u32) | (((i >> 8u32)
        & 0xFu32) << 1u32)
}

/// The register-writing instructions: ALU, LUI, AUIPC, JAL, JALR, and the all-zero NOP.
fn exec_reg(state: &CpuState, m: &[u8], i: u32) -> (r: StepResult)
    requires
        state.regs@.len() >= 32,
        state.pc as int + 4 <= m@.len(),
        m@.len() <= 0xFFFF_FFFF,
        opc(i) == 0x13 || opc(i) == 0x33 || opc(i) == 0x37 || opc(i) == 0x17 || opc(i) == 0x6F || opc(i) == 0x67 || opc(i) == 0,
    ensures
        r.error is None ==> r.undo_log@ == write_log(*state, r.new_state, if opc(i) == 0 { 0 } else { rd(i) }),
        reports(*state, m@, r, outcome(state.regs@, m@, state.pc, None, i), i),
        r.error is None ==> stage_actions(r.pipeline_stages@) == rv_actions(state.regs@, m@, state.pc, None, i),
        r.error is None ==> faithful(state.regs@, state.pc, m@, r.undo_log@),
        r.error is None ==> replays(state.regs@, state.pc, r.undo_log@, r.new_state) && spares_reg0(r.undo_log@),
        r.cycles_added <= 5,
        r.pipeline_stages@.len() <= 5,
{
    let regs = &state.regs;
    let pc = state.pc;
    let next = pc + 4;
    let op = i & 0x7Fu32;
    let d = rd_f(i);
    let a = rs1_f(i);
    let f3v = f3_f(i);
    let f7v = (i >> 25u32) & 0x7Fu32;
    let result: Option<u32> = if op == 0x13 {
        alu_imm_f(f3v, f7v, regs[a as usize], imm_i_f(i))
    } else if op == 0x33 {
        alu_reg_f(f3v, f7v, regs[a as usize], regs[rs2_f(i) as usize])
    } else if op == 0x37 {
        Some(i & 0xFFFF_F000u32)
    } else if op == 0x17 {
        Some(add_w(pc, i & 0xFFFF_F000u32))
    } else {
        Some(next)
    };
    match result {
        None => {
            let e = if op == 0x13 {
                Text::new().s("Unknown I-type funct7: ").dec(f7v as u64).done()
            } else {
                Text::new().s("Unknown R-type: funct3=").dec(f3v as u64).s(" funct7=").dec(f7v as u64).done()
            };
            error_result(state, Some(i), e)
        },
        Some(v) => {
            let st = writes_reg_stages(op, i, pc, regs, v);
            let target: u32 = if op == 0x6F {
                add_signed(pc, j_bits_f(i), 0x10_0000)
            } else if op == 0x67 {
                add_w(regs[a as usize], imm_i_f(i)) & !1u32
            } else {
                next
            };
            let mut c = Changes::start(regs, pc, m);
            if op != 0 {
                if d > 0 {
                    c.set(d as usize, v);
                }
            }
            c.jump(pc, target);
            let mut ev: Vec<TraceEvent> = Vec::new();
            ev.push(TraceEvent::Fetch);
            ev.push(TraceEvent::Decode);
            ev.push(TraceEvent::Alu);
            if op != 0 {
                ev.push(TraceEvent::RegWrite);
            }
            proof {
                if op != 0 {
                    assert(ev@ =~= base_events().push(TraceEvent::RegWrite));
                } else {
                    assert(ev@ =~= base_events());
                }
            }
            c.finish(target, false, ev, 5, i, None, st)
        },
    }
}

fn load_value_f(f3: u32, m: &[u8], a: u32) -> (r: Result<u32, String>)
    requires
        load_width(f3) > 0,
    ensures
        match r {
            Ok(v) => in_bounds(a, load_width(f3), m@.len()) && v == load_value(f3, m@, a as int),
            Err(e) => !in_bounds(a, load_width(f3), m@.len()) && e@ == oob_message(a, load_width(f3), m@.len()),
        },
{
    if f3 == 0 || f3 == 4 {
        match load8(m, a) {
            Ok(b) => Ok(if f3 == 4 { b as u32 } else if b >= 128 { b as u32 + 0xFFFF_FF00 } else { b as u32 }),
            Err(e) => Err(e),
        }
    } else if f3 == 1 || f3 == 5 {
        match load16(m, a) {
            Ok(h) => Ok(if f3 == 5 { h as u32 } else if h >= 0x8000 { h as u32 + 0xFFFF_0000 } else { h as u32 }),
            Err(e) => Err(e),
        }
    } else {
        load32(m, a)
    }
}

/// LB, LH, LW, LBU, LHU.
fn exec_load(state: &CpuState, m: &[u8], i: u32) -> (r: StepResult)
    requires
        state.regs@.len() >= 32,
        state.pc as int + 4 <= m@.len(),
        m@.len() <= 0xFFFF_FFFF,
        opc(i) == 0x03,
    ensures
        r.error is None ==> r.undo_log@ == write_log(*state, r.new_state, rd(i)),
        reports(*state, m@, r, outcome(state.regs@, m@, state.pc, None, i), i),
        r.error is None ==> stage_actions(r.pipeline_stages@) == rv_actions(state.regs@, m@, state.pc, None, i),
        r.error is None ==> faithful(state.regs@, state.pc, m@, r.undo_log@),
        r.error is None ==> replays(state.regs@, state.pc, r.undo_log@, r.new_state) && spares_reg0(r.undo_log@),
        r.cycles_added <= 5,
        r.pipeline_stages@.len() <= 5,
{
    let regs = &state.regs;
    let pc = state.pc;
    let d = rd_f(i);
    let a = rs1_f(i);
    let f3v = f3_f(i);
    let imm = imm_i_f(i);
    let addr = add_w(regs[a as usize], imm);
    if !(f3v == 0 || f3v == 1 || f3v == 2 || f3v == 4 || f3v == 5) {
        return error_result(state, Some(i), Text::new().s("Unknown load funct3: ").dec(f3v as u64).done());
    }
    match load_value_f(f3v, m, addr) {
        Err(e) => error_result(state, Some(i), e),
        Ok(v) => {
            let si = signed_of(imm);
            let st = stages5(
                i,
                fetch_text(i, pc),
                Text::new().s("Extract rd=x").dec(d as u64).s(", rs1=x").dec(a as u64).s(", imm=").sint(si).done(),
                Text::new().s("Execute: addr = x").dec(a as u64).s(" + ").sint(si).s(" = 0x").hex(addr as u64, 8).done(),
                "",
                reg_eq_text("x", d, " ← ", v as u64),
            );
            let mut st = st;
            let memtext = Text::new().s("Memory: load word from Mem[0x").hex(addr as u64, 8).s("] = ").dec(v as u64).done();
            let cyc = PipelineCycleInfo { stage: lit("Memory"), instruction_bits: Some(i), action: memtext };
            let ghost before = st@;
            st.set(3, cyc);
            assert(stage_names(st@) =~= stage_names(before));
            let mut c = Changes::start(regs, pc, m);
            if d > 0 {
                c.set(d as usize, v);
            }
            c.jump(pc, pc + 4);
            let mut ev: Vec<TraceEvent> = Vec::new();
            ev.push(TraceEvent::Fetch);
            ev.push(TraceEvent::Decode);
            ev.push(TraceEvent::Alu);
            ev.push(TraceEvent::Mem);
            ev.push(TraceEvent::RegWrite);
            assert(ev@ =~= base_events() + seq![TraceEvent::Mem, TraceEvent::RegWrite]);
            c.finish(pc + 4, false, ev, 5, i, None, st)
        },
    }
}

/// SB, SH, SW.
#[verifier::rlimit(60)]
#[verifier::spinoff_prover]
fn exec_store(state: &CpuState, m: &[u8], i: u32) -> (r: StepResult)
    requires
        state.regs@.len() >= 32,
        state.pc as int + 4 <= m@.len(),
        m@.len() <= 0xFFFF_FFFF,
        opc(i) == 0x23,
    ensures
        r.error is None ==> r.undo_log@ == store_log(m@, f3(i), modw(state.regs@[rs1(i) as int] + imm_s(i)), state.regs@[rs2(i) as int],
            state.pc),
        reports(*state, m@, r, outcome(state.regs@, m@, state.pc, None, i), i),
        r.error is None ==> stage_actions(r.pipeline_stages@) == rv_actions(state.regs@, m@, state.pc, None, i),
        r.error is None ==> faithful(state.regs@, state.pc, m@, r.undo_log@),
        r.error is None ==> replays(state.regs@, state.pc, r.undo_log@, r.new_state) && spares_reg0(r.undo_log@),
        r.cycles_added <= 5,
        r.pipeline_stages@.len() <= 5,
{
    let regs = &state.regs;
    let pc = state.pc;
    let a = rs1_f(i);
    let b = rs2_f(i);
    let f3v = f3_f(i);
    let imm: u32 = ((i >> 7u32) & 0x1Fu32) | ((i >> 25u32) << 5u32);
    assert(((i >> 7u32) & 0x1Fu32) | ((i >> 25u32) << 5u32) < 0x1000) by (bit_vector);
    let addr = add_w(regs[a as usize], imm);
    let v = regs[b as usize];
    if f3v > 2 {
        return error_result(state, Some(i), lit("Unknown store funct3"));
    }
    let w: u32 = if f3v == 0 { 1 } else if f3v == 1 { 2 } else { 4 };
    if !((addr as usize) < m.len() && m.len() - (addr as usize) >= w as usize) {
        return error_result(state, Some(i), crate::memory::oob_error(addr, w as usize, m.len()));
    }
    let st = stages5(
        i,
        fetch_text(i, pc),
        Text::new().s("Extract rs1=x").dec(a as u64).s(", rs2=x").dec(b as u64).s(", imm=").dec(imm as u64).done(),
        Text::new().s("Execute: addr = x").dec(a as u64).s(" + ").dec(imm as u64).s(" = 0x").hex(addr as u64, 8).done(),
        "",
        lit("NOP (no register write)"),
    );
    let mut st = st;
    let memtext = Text::new().s("Memory: store ").dec(v as u64).s(" to Mem[0x").hex(addr as u64, 8).s("]").done();
    let ghost before = st@;
    st.set(3, PipelineCycleInfo { stage: lit("Memory"), instruction_bits: Some(i), action: memtext });
    assert(stage_names(st@) =~= stage_names(before));
    let mut c = Changes::start(regs, pc, m);
    let au = addr as usize;
    if f3v == 0 {
        c.write(addr, (v & 0xFFu32) as u8, m[au]);
    } else if f3v == 1 {
        let h = v & 0xFFFFu32;
        c.write(addr, (h % 256) as u8, m[au]);
        c.write(addr + 1, (h / 256) as u8, m[au + 1]);
    } else {
        c.write(addr, (v % 256) as u8, m[au]);
        c.write(addr + 1, ((v / 0x100) % 256) as u8, m[au + 1]);
        c.write(addr + 2, ((v / 0x1_0000) % 256) as u8, m[au + 2]);
        c.write(((addr as u64 + 3) % 0x1_0000_0000) as u32, ((v / 0x100_0000) % 256) as u8, m[au + 3]);
    }
    c.jump(pc, pc + 4);
    let mut ev: Vec<TraceEvent> = Vec::new();
    ev.push(TraceEvent::Fetch);
    ev.push(TraceEvent::Decode);
    ev.push(TraceEvent::Alu);
    ev.push(TraceEvent::Mem);
    assert(ev@ =~= base_events().push(TraceEvent::Mem));
    c.finish(pc + 4, false, ev, 5, i, None, st)
}

fn taken_f(f3: u32, a: u32, b: u32) -> (r: Option<bool>)
    ensures
        r == branch_taken(f3, a, b),
{
    if f3 == 0 {
        Some(a == b)
    } else if f3 == 1 {
        Some(a != b)
    } else if f3 == 4 {
        Some(signed_lt(a, b))
    } else if f3 == 5 {
        Some(!signed_lt(a, b))
    } else if f3 == 6 {
        Some(a < b)
    } else if f3 == 7 {
        Some(a >= b)
    } else {
        None
    }
}

/// BEQ, BNE, BLT, BGE, BLTU, BGEU.
fn exec_branch(state: &CpuState, m: &[u8], i: u32) -> (r: StepResult)
    requires
        state.regs@.len() >= 32,
        state.pc as int + 4 <= m@.len(),
        m@.len() <= 0xFFFF_FFFF,
        opc(i) == 0x63,
    ensures
        reports(*state, m@, r, outcome(state.regs@, m@, state.pc, None, i), i),
        r.error is None ==> stage_actions(r.pipeline_stages@) == rv_actions(state.regs@, m@, state.pc, None, i),
        r.error is None ==> faithful(state.regs@, state.pc, m@, r.undo_log@),
        r.error is None ==> replays(state.regs@, state.pc, r.undo_log@, r.new_state) && spares_reg0(r.undo_log@),
        r.error is None ==> r.undo_log@ == seq![UndoEntry::Pc { old_value: state.pc, new_value: r.new_state.pc }],
        r.cycles_added <= 5,
        r.pipeline_stages@.len() <= 5,
{
    let regs = &state.regs;
    let pc = state.pc;
    let ra = rs1_f(i);
    let rb = rs2_f(i);
    let f3v = f3_f(i);
    let a = regs[ra as usize];
    let b = regs[rb as usize];
    match taken_f(f3v, a, b) {
        None => error_result(state, Some(i), Text::new().s("Unknown B-type funct3: ").dec(f3v as u64).done()),
        Some(t) => {
            let bb = b_bits_f(i);
            let target = add_signed(pc, bb, 0x1000);
            let next = if t { target } else { pc + 4 };
            let name = if f3v == 0 {
                "beq"
            } else if f3v == 1 {
                "bne"
            } else if f3v == 4 {
                "blt"
            } else if f3v == 5 {
                "bge"
            } else if f3v == 6 {
                "bltu"
            } else {
                "bgeu"
            };
            let ex = if t {
                Text::new().s(name).s(": ").dec(a as u64).s(" == ").dec(b as u64).s(" → taken, PC ← 0x").hex(target as u64, 8).done()
            } else {
                Text::new().s(name).s(": ").dec(a as u64).s(" != ").dec(b as u64).s(" → not taken, PC ← 0x").hex((pc + 4) as u64, 8).done()
            };
            let off = signed_of(if bb >= 0x1000 { bb + 0xFFFF_E000 } else { bb });
            let dec = Text::new().s("Extract rs1=x").dec(ra as u64).s(", rs2=x").dec(rb as u64).s(", imm=").sint(off).done();
            let st = stages5(i, fetch_text(i, pc), dec, ex, "NOP (no memory access)", lit("PC updated (no register write)"));
            let mut c = Changes::start(regs, pc, m);
            c.jump(pc, next);
            let mut ev: Vec<TraceEvent> = Vec::new();
            ev.push(TraceEvent::Fetch);
            ev.push(TraceEvent::Decode);
            ev.push(TraceEvent::Alu);
            assert(ev@ =~= base_events());
            c.finish(next, false, ev, 5, i, None, st)
        },
    }
}

proof fn lemma_poke_all_push(m: Seq<u8>, a: u32, b: Seq<u8>, x: u8)
    requires
        b.len() < 0x1_0000_0000,
    ensures
        poke_all(m, a, b.push(x)) == poke(poke_all(m, a, b), modw(a + b.len()) as int, x),
        poke_all(m, a, b).len() == m.len(),
    decreases b.len(),
{
    let b2 = b.push(x);
    if b.len() == 0 {
        assert(b2.drop_first() =~= Seq::<u8>::empty());
        assert(b2[0] == x);
        assert(modw(a + 0) == a);
        assert(poke_all(poke(m, a as int, x), modw(a + 1), b2.drop_first()) == poke(m, a as int, x));
    } else {
        assert(b2.drop_first() =~= b.drop_first().push(x));
        assert(b2[0] == b[0]);
        let a1 = modw(a + 1);
        lemma_poke_all_push(poke(m, a as int, b[0]), a1, b.drop_first(), x);
        let k = b.len() - 1;
        assert(a1 == (a + 1) % 0x1_0000_0000);
        vstd::arithmetic::div_mod::lemma_add_mod_noop(a + 1, k as int, 0x1_0000_0000);
        vstd::arithmetic::div_mod::lemma_small_mod(k as nat, 0x1_0000_0000);
        assert(modw(a1 + k) == modw(a + b.len()));
    }
}

/// Stores the bytes of a string read into the buffer at `buf`, then a zero.
pub fn store_string(c: &mut Changes, m: &[u8], buf: u32, a1: u32, s: &str)
    requires
        old(c).inv(),
        old(c).mem() == m@,
        old(c).mem_kept(),
        m@.len() <= 0xFFFF_FFFF,
    ensures
        final(c).inv(),
        final(c).mem_kept(),
        final(c).mem() == poke_all(m@, buf, read_bytes(s@, a1)),
        final(c).regs@ == old(c).regs@,
        final(c).base_regs == old(c).base_regs,
        final(c).base_pc == old(c).base_pc,
        final(c).base_mem == old(c).base_mem,
        final(c).pc() == old(c).pc(),
        old(c).regs_kept() ==> final(c).regs_kept(),
        old(c).pc_kept() ==> final(c).pc_kept(),
        spares_reg0(old(c).log@) ==> spares_reg0(final(c).log@),
{
    let max_len: usize = if a1 > 1024 { 1024 } else if a1 == 0 { 1 } else { a1 as usize };
    let bytes: &[u8] = s.as_bytes();
    let n: usize = if bytes.len() < max_len - 1 { bytes.len() } else { max_len - 1 };
    let ghost rb = read_bytes(s@, a1);
    assert(bytes@ == vstd::utf8::encode_utf8(s@));
    assert(rb == bytes@.subrange(0, n as int).push(0));
    let mut local = Memory::from_bytes(m);
    let mut k: usize = 0;
    assert(bytes@.subrange(0, 0) =~= Seq::<u8>::empty());
    while k < n
        invariant
            k <= n,
            n <= bytes@.len(),
            n < 1024,
            c.inv(),
            c.mem_kept(),
            local@ == c.mem(),
            c.mem() == poke_all(m@, buf, bytes@.subrange(0, k as int)),
            c.mem().len() == m@.len(),
            c.regs@ == old(c).regs@,
            c.base_regs == old(c).base_regs,
            c.base_pc == old(c).base_pc,
            c.base_mem == old(c).base_mem,
            c.pc() == old(c).pc(),
            old(c).regs_kept() ==> c.regs_kept(),
            old(c).pc_kept() ==> c.pc_kept(),
            spares_reg0(old(c).log@) ==> spares_reg0(c.log@),
        decreases n - k,
    {
        let a = ((buf as u64 + k as u64) % 0x1_0000_0000) as u32;
        let b = bytes[k];
        proof {
            lemma_poke_all_push(m@, buf, bytes@.subrange(0, k as int), b);
            assert(bytes@.subrange(0, k + 1) =~= bytes@.subrange(0, k as int).push(b));
        }
        match local.write_u8(a, b) {
            Ok(old_b) => {
                c.write(a, b, old_b);
            },
            Err(_) => {},
        }
        k = k + 1;
    }
    let a = ((buf as u64 + n as u64) % 0x1_0000_0000) as u32;
    proof {
        lemma_poke_all_push(m@, buf, bytes@.subrange(0, n as int), 0);
    }
    match local.write_u8(a, 0) {
        Ok(old_b) => {
            c.write(a, 0, old_b);
        },
        Err(_) => {},
    }
}

pub fn halt_events_vec() -> (e: Vec<TraceEvent>)
    ensures
        e@ == halt_events(),
{
    let mut e: Vec<TraceEvent> = Vec::new();
    e.push(TraceEvent::Fetch);
    e.push(TraceEvent::Decode);
    e.push(TraceEvent::Halted);
    assert(e@ =~= halt_events());
    e
}

/// ECALL and EBREAK.
#[verifier::spinoff_prover]
#[verifier::rlimit(40)]
fn exec_system(state: &CpuState, m: &[u8], i: u32, input: Option<&str>) -> (r: StepResult)
    requires
        state.regs@.len() >= 32,
        state.pc as int + 4 <= m@.len(),
        m@.len() <= 0xFFFF_FFFF,
        opc(i) == 0x73,
    ensures
        reports(*state, m@, r, outcome(state.regs@, m@, state.pc, input_view(input), i), i),
        r.error is None ==> stage_actions(r.pipeline_stages@) == rv_actions(state.regs@, m@, state.pc, input_view(input), i),
        r.error is None ==> faithful(state.regs@, state.pc, m@, r.undo_log@),
        r.error is None ==> replays(state.regs@, state.pc, r.undo_log@, r.new_state) && spares_reg0(r.undo_log@),
        r.cycles_added <= 5,
        r.pipeline_stages@.len() <= 5,
{
    let regs = &state.regs;
    let pc = state.pc;
    let next = pc + 4;
    let fetch = fetch_text(i, pc);
    let a7 = regs[17];
    let mut c = Changes::start(regs, pc, m);
    if (i >> 20u32) & 0xFFFu32 == 1 || a7 == 10 || a7 == 93 || (!(a7 == 4 || a7 == 11 || a7 == 12 || a7 == 5 || a7 == 8 || a7 == 13) && imm_i_f(i) == 0) {
        let decode = if (i >> 20u32) & 0xFFFu32 == 1 { "Decode: ebreak (breakpoint)" } else { "Decode: ecall (system call)" };
        let st = pipeline_halt(Some(i), fetch, lit(decode), lit("Halted"));
        c.jump(pc, next);
        return c.finish(next, true, halt_events_vec(), 3, i, None, st);
    }
    if !(a7 == 4 || a7 == 11 || a7 == 12 || a7 == 5 || a7 == 8 || a7 == 13) {
        return error_result(state, Some(i), Text::new().s("Unsupported ecall a7=").dec(a7 as u64).done());
    }
    let out: Option<Vec<char>> = if a7 == 4 {
        Some(read_c_string(m, regs[10]))
    } else if a7 == 11 {
        Some(Text::new().sint(signed_of(regs[10])).chars)
    } else if a7 == 12 {
        Some(Text::new().ch((regs[10] as u8) as char).chars)
    } else {
        None
    };
    if a7 == 5 || a7 == 8 || a7 == 13 {
        match input {
            None => {
                let (what, kind, prompt, max): (&str, &str, &str, Option<u32>) = if a7 == 5 {
                    ("ecall 5 (read int) – waiting for input", "int", "Enter an integer", None)
                } else if a7 == 8 {
                    ("ecall 8 (read string) – waiting for input", "string", "Enter a string", Some(regs[11]))
                } else {
                    ("ecall 13 (read char) – waiting for input", "char", "Enter a character", Some(1u32))
                };
                let st = pipeline_wait(Some(i), fetch, lit(what));
                return waiting_result(state, i, st, input_request(kind, prompt, max));
            },
            Some(s) => {
                if a7 == 5 {
                    let cs = chars_of(s);
                    let t = trim_chars(cs.as_slice());
                    let v: u32 = match parse_int(t.as_slice(), 10, -0x8000_0000, 0x7FFF_FFFF) {
                        Some(v) => ((v + 0x1_0000_0000) % 0x1_0000_0000) as u32,
                        None => 0,
                    };
                    c.set(10, v);
                } else if a7 == 8 {
                    store_string(&mut c, m, regs[10], regs[11], s);
                } else {
                    let cs = chars_of(s);
                    let ch = if cs.len() > 0 { cs[0] } else { '\0' };
                    c.set(10, (ch as u32) & 0xFFu32);
                }
            },
        }
    }
    let action = match &out {
        Some(o) => Text::new().s("ecall: print \"").all(escape_nl(o.as_slice()).as_slice()).s("\"").done(),
        None => lit("ecall: halt"),
    };
    let st = pipeline_5(Some(i), fetch, lit("Decode: ecall"), action, lit("NOP"), lit("PC ← PC+4"));
    c.jump(pc, next);
    let mut ev: Vec<TraceEvent> = Vec::new();
    ev.push(TraceEvent::Fetch);
    ev.push(TraceEvent::Decode);
    ev.push(TraceEvent::Alu);
    ev.push(TraceEvent::RegWrite);
    assert(ev@ =~= seq![TraceEvent::Fetch, TraceEvent::Decode, TraceEvent::Alu, TraceEvent::RegWrite]);
    let out_s: Option<String> = match out {
        Some(o) => Some(crate::text::string_of(o.as_slice())),
        None => None,
    };
    c.finish(next, false, ev, 5, i, out_s, st)
}

impl Default for Rv32iPlugin {
    fn default() -> (p: Self) {
        Rv32iPlugin
    }
}

impl Rv32iPlugin {
    pub fn new() -> (p: Self) {
        Rv32iPlugin
    }

    pub fn name(&self) -> (r: &'static str)
        ensures
            r@ == "RV32I"@,
    {
        "RV32I"
    }

    /// PC at 0, all 32 registers cleared.
    pub fn reset(&self, config: &ResetConfig) -> (s: CpuState)
        ensures
            s.pc == 0,
            s.regs@ == Seq::new(32, |k: int| 0u32),
            !s.halted,
    {
        let regs = vec![0u32; 32];
        assert(regs@ =~= Seq::new(32, |k: int| 0u32));
        CpuState { pc: 0, regs, halted: false }
    }

    /// Executes one instruction.
    pub fn step(&self, state: &CpuState, memory: &[u8], mode: StepMode, input: Option<&str>) -> (r: StepResult)
        requires
            state.regs@.len() >= 32,
            memory@.len() <= 0xFFFF_FFFF,
        ensures
            step_post(*state, memory@, input_view(input), r),
            r.cycles_added <= 5,
            r.pipeline_stages@.len() <= 5,
    {
        if state.halted {
            return halted_result(state);
        }
        let i = match load32(memory, state.pc) {
            Ok(v) => v,
            Err(e) => {
                return error_result(state, None, e);
            },
        };
        let op = i & 0x7Fu32;
        if op == 0x13 || op == 0x33 || op == 0x37 || op == 0x17 || op == 0x6F || op == 0x67 || op == 0 {
            exec_reg(state, memory, i)
        } else if op == 0x03 {
            exec_load(state, memory, i)
        } else if op == 0x23 {
            exec_store(state, memory, i)
        } else if op == 0x63 {
            exec_branch(state, memory, i)
        } else if op == 0x73 {
            exec_system(state, memory, i, input)
        } else {
            let e = Text::new().s("Runtime error at PC=0x").hex(state.pc as u64, 8).s(": Unknown opcode 0x").hex(op as u64, 2).s(
                ". Instruction word: 0x",
            ).hex(i as u64, 8).s(
                ". Possible causes: invalid/unsupported instruction, wrong jump target (e.g. jal/j label), or corrupted memory.",
            ).done();
            error_result(state, Some(i), e)
        }
    }
}

// ---------------------------------------------------------------------------
// What the instructions compute
// ---------------------------------------------------------------------------

/// `signed` is the value of a word read as a 32-bit two's complement number.
pub proof fn lemma_signed_is_i32(a: u32, b: u32)
    ensures
        (signed(a) < signed(b)) == ((a as i32) < (b as i32)),
        (signed(a) >= signed(b)) == ((a as i32) >= (b as i32)),
{
    lemma_i32_value(a);
    lemma_i32_value(b);
}

proof fn lemma_i32_value(a: u32)
    by (bit_vector)
    ensures
        (if a >= 0x8000_0000u32 { a as int - 0x1_0000_0000 } else { a as int }) == (a as i32) as int,
{
}

proof fn lemma_sra_bits(a: u32, n: u32)
    by (bit_vector)
    requires
        n < 32u32,
    ensures
        a >= 0x8000_0000u32 ==> !((!a) >> n) == ((a as i32) >> n) as u32,
        a < 0x8000_0000u32 ==> a >> n == ((a as i32) >> n) as u32,
{
}

/// `sra` is the arithmetic right shift of a 32-bit signed value.
pub proof fn lemma_sra_is_i32_shift(a: u32, n: u32)
    requires
        n < 32,
    ensures
        sra(a, n) == ((a as i32) >> n) as u32,
{
    lemma_sra_bits(a, n);
}

/// Adding or subtracting the signed values of two words agrees with adding
/// or subtracting the words themselves, modulo 2^32.
pub proof fn lemma_signed_wraps(a: u32, b: u32)
    ensures
        (signed(a) + signed(b)) % 0x1_0000_0000 == (a + b) % 0x1_0000_0000,
        (signed(a) - signed(b)) % 0x1_0000_0000 == (a - b) % 0x1_0000_0000,
{
    let ka: int = if a >= 0x8000_0000 { 1 } else { 0 };
    let kb: int = if b >= 0x8000_0000 { 1 } else { 0 };
    assert(signed(a) == a - ka * 0x1_0000_0000);
    assert(signed(b) == b - kb * 0x1_0000_0000);
    vstd::arithmetic::div_mod::lemma_mod_sub_multiples_vanish((a + b) as int, 0x1_0000_0000);
    assert((a + b - (ka + kb) * 0x1_0000_0000) % 0x1_0000_0000 == (a + b) % 0x1_0000_0000) by (nonlinear_arith)
        requires
            0 <= ka + kb <= 2,
    ;
    assert((a - b - (ka - kb) * 0x1_0000_0000) % 0x1_0000_0000 == (a - b) % 0x1_0000_0000) by (nonlinear_arith)
        requires
            -1 <= ka - kb <= 1,
    ;
}

/// A register-register instruction (opcode 0x33) writes to rd the sum,
/// difference (both modulo 2^32), exclusive-or, or, and, shifts by the low
/// five bits of rs2, or the signed or unsigned comparison of rs1 and rs2,
/// and moves to the next instruction; any other funct3/funct7 is an error.
pub proof fn lemma_reg_reg_ops(s: CpuState, m: Seq<u8>, input: Option<Seq<char>>, r: StepResult)
    requires
        step_post(s, m, input, r),
        !s.halted,
        s.regs@.len() >= 32,
        in_bounds(s.pc, 4, m.len()),
        opc(read32(m, s.pc as int)) == 0x33,
        rd(read32(m, s.pc as int)) != 0,
    ensures
        ({
            let i = read32(m, s.pc as int);
            let a = s.regs@[rs1(i) as int];
            let b = s.regs@[rs2(i) as int];
            let x = r.new_state.regs@[rd(i) as int];
            let n = b & 31u32;
            &&& (r.error is None <==> (f7(i) == 0 || (f7(i) == 0x20 && (f3(i) == 0 || f3(i) == 5))))
            &&& r.error is None ==> r.new_state.pc == (s.pc + 4) as u32
            &&& f7(i) == 0 && f3(i) == 0 ==> x as int == (a + b) % 0x1_0000_0000
            &&& f7(i) == 0x20 && f3(i) == 0 ==> x as int == (a - b) % 0x1_0000_0000
            &&& f7(i) == 0 && f3(i) == 4 ==> x == a ^ b
            &&& f7(i) == 0 && f3(i) == 6 ==> x == a | b
            &&& f7(i) == 0 && f3(i) == 7 ==> x == a & b
            &&& f7(i) == 0 && f3(i) == 2 ==> x == (if (a as i32) < (b as i32) { 1u32 } else { 0u32 })
            &&& f7(i) == 0 && f3(i) == 3 ==> x == (if a < b { 1u32 } else { 0u32 })
            &&& f7(i) == 0 && f3(i) == 1 ==> x == a << n
            &&& f7(i) == 0 && f3(i) == 5 ==> x == a >> n
            &&& f7(i) == 0x20 && f3(i) == 5 ==> x == ((a as i32) >> n) as u32
        }),
{
    let i = read32(m, s.pc as int);
    let a = s.regs@[rs1(i) as int];
    let b = s.regs@[rs2(i) as int];
    let n = b & 31u32;
    lemma_field_bits(i, b);
    lemma_signed_is_i32(a, b);
    lemma_sra_is_i32_shift(a, n);
    assert(reports(s, m, r, outcome(s.regs@, m, s.pc, input, i), i));
    let next = (s.pc + 4) as u32;
    match alu_reg(f3(i), f7(i), a, b) {
        Some(v) => {
            assert(r.new_state.regs@ == wr(s.regs@, rd(i), v));
            assert(r.new_state.regs@[rd(i) as int] == v);
            assert(r.error is None);
            assert(r.new_state.pc == next);
        },
        None => {
            assert(r.error is Some);
        },
    }
}

/// An immediate ALU instruction (opcode 0x13) writes to rd the sum (modulo
/// 2^32), exclusive-or, or, and, or signed or unsigned comparison of rs1
/// with the sign-extended top twelve bits of the instruction, or rs1
/// shifted by the shift amount in bits 24-20; any other funct7 on a right
/// shift is an error.
pub proof fn lemma_reg_imm_ops(s: CpuState, m: Seq<u8>, input: Option<Seq<char>>, r: StepResult)
    requires
        step_post(s, m, input, r),
        !s.halted,
        s.regs@.len() >= 32,
        in_bounds(s.pc, 4, m.len()),
        opc(read32(m, s.pc as int)) == 0x13,
        rd(read32(m, s.pc as int)) != 0,
    ensures
        ({
            let i = read32(m, s.pc as int);
            let a = s.regs@[rs1(i) as int];
            let imm = ((i as i32) >> 20u32) as u32;
            let n = (i >> 20u32) & 31u32;
            let x = r.new_state.regs@[rd(i) as int];
            &&& (r.error is None <==> (f3(i) != 5 || f7(i) == 0 || f7(i) == 0x20))
            &&& r.error is None ==> r.new_state.pc == (s.pc + 4) as u32
            &&& f3(i) == 0 ==> x as int == (a + imm) % 0x1_0000_0000
            &&& f3(i) == 2 ==> x == (if (a as i32) < (imm as i32) { 1u32 } else { 0u32 })
            &&& f3(i) == 3 ==> x == (if a < imm { 1u32 } else { 0u32 })
            &&& f3(i) == 4 ==> x == a ^ imm
            &&& f3(i) == 6 ==> x == a | imm
            &&& f3(i) == 7 ==> x == a & imm
            &&& f3(i) == 1 ==> x == a << n
            &&& f3(i) == 5 && f7(i) == 0 ==> x == a >> n
            &&& f3(i) == 5 && f7(i) == 0x20 ==> x == ((a as i32) >> n) as u32
        }),
{
    let i = read32(m, s.pc as int);
    let a = s.regs@[rs1(i) as int];
    let imm = ((i as i32) >> 20u32) as u32;
    let n = (i >> 20u32) & 31u32;
    lemma_field_bits(i, i >> 20u32);
    lemma_signed_is_i32(a, imm);
    lemma_sra_is_i32_shift(a, n);
    assert(reports(s, m, r, outcome(s.regs@, m, s.pc, input, i), i));
    match alu_imm(f3(i), f7(i), a, imm_i(i)) {
        Some(v) => {
            assert(r.new_state.regs@ == wr(s.regs@, rd(i), v));
            assert(r.new_state.regs@[rd(i) as int] == v);
        },
        None => {},
    }
}

/// A branch (opcode 0x63) goes to the instruction `imm_b` bytes away when
/// its condition holds (equal, not equal, signed less, signed greater or
/// equal, unsigned less, unsigned greater or equal for funct3 0, 1, 4, 5,
/// 6, 7), else to the next instruction, and changes no register; funct3 2
/// and 3 are errors.
pub proof fn lemma_branches(s: CpuState, m: Seq<u8>, input: Option<Seq<char>>, r: StepResult)
    requires
        step_post(s, m, input, r),
        !s.halted,
        s.regs@.len() >= 32,
        in_bounds(s.pc, 4, m.len()),
        opc(read32(m, s.pc as int)) == 0x63,
    ensures
        ({
            let i = read32(m, s.pc as int);
            let a = s.regs@[rs1(i) as int];
            let b = s.regs@[rs2(i) as int];
            let c = f3(i);
            let taken = (c == 0 && a == b) || (c == 1 && a != b) || (c == 4 && (a as i32) < (b as i32))
                || (c == 5 && (a as i32) >= (b as i32)) || (c == 6 && a < b) || (c == 7 && a >= b);
            &&& (r.error is None <==> (c != 2 && c != 3))
            &&& r.error is None ==> r.new_state.regs@ == s.regs@
            &&& r.error is None && taken ==> r.new_state.pc as int == (s.pc + imm_b(i)) % 0x1_0000_0000
            &&& r.error is None && !taken ==> r.new_state.pc == (s.pc + 4) as u32
        }),
{
    let i = read32(m, s.pc as int);
    let a = s.regs@[rs1(i) as int];
    let b = s.regs@[rs2(i) as int];
    lemma_field_bits(i, 0);
    lemma_signed_is_i32(a, b);
    assert(reports(s, m, r, outcome(s.regs@, m, s.pc, input, i), i));
}

/// LUI (0x37) writes to rd the upper twenty bits of the instruction with
/// twelve zero bits below, AUIPC (0x17) that value plus the pc (modulo
/// 2^32), and both go to the next instruction. JAL (0x6F) and JALR (0x67)
/// write to rd the address of the next instruction; JAL goes to the pc plus
/// the 21-bit two's complement offset made of instruction bits 31, 19-12,
/// 20 and 30-21 (offset bits 20, 19-12, 11 and 10-1), JALR to rs1 plus the
/// sign-extended bits 31-20, modulo 2^32, with bit 0 cleared.
pub proof fn lemma_upper_and_jumps(s: CpuState, m: Seq<u8>, input: Option<Seq<char>>, r: StepResult)
    requires
        step_post(s, m, input, r),
        !s.halted,
        s.regs@.len() >= 32,
        in_bounds(s.pc, 4, m.len()),
        ({
            let op = opc(read32(m, s.pc as int));
            op == 0x37 || op == 0x17 || op == 0x6F || op == 0x67
        }),
        rd(read32(m, s.pc as int)) != 0,
    ensures
        ({
            let i = read32(m, s.pc as int);
            let op = i & 0x7Fu32;
            let x = r.new_state.regs@[rd(i) as int];
            let upper = i & 0xFFFF_F000u32;
            let jb = (((i >> 31u32) & 1u32) << 20u32) | (((i >> 12u32) & 0xFFu32) << 12u32) | (((i >> 20u32) & 1u32)
                << 11u32) | (((i >> 21u32) & 0x3FFu32) << 1u32);
            let joff: int = if jb >= 0x10_0000 { jb - 0x20_0000 } else { jb as int };
            let base = s.regs@[rs1(i) as int];
            let imm = ((i as i32) >> 20u32) as u32;
            &&& r.error is None
            &&& op == 0x37 ==> x == upper && r.new_state.pc == (s.pc + 4) as u32
            &&& op == 0x17 ==> x as int == (s.pc + upper) % 0x1_0000_0000 && r.new_state.pc == (s.pc + 4) as u32
            &&& op == 0x6F ==> x == (s.pc + 4) as u32 && r.new_state.pc as int == (s.pc + joff)
                % 0x1_0000_0000
            &&& op == 0x67 ==> x == (s.pc + 4) as u32 && r.new_state.pc == (((base + imm)
                % 0x1_0000_0000) as u32) & 0xFFFF_FFFEu32
        }),
{
    let i = read32(m, s.pc as int);
    let base = s.regs@[rs1(i) as int];
    let t = modw(base + imm_i(i));
    lemma_field_bits(i, t);
    assert(reports(s, m, r, outcome(s.regs@, m, s.pc, input, i), i));
}

/// A load (opcode 0x03) from rs1 plus the sign-extended bits 31-20 (modulo
/// 2^32) writes to rd the byte there sign-extended (LB, funct3 0) or
/// zero-extended (LBU, 4), the little-endian halfword sign-extended (LH, 1)
/// or zero-extended (LHU, 5), or the little-endian word (LW, 2), and goes
/// to the next instruction. Another funct3, or an access past the end of
/// memory, is an error.
pub proof fn lemma_loads(s: CpuState, m: Seq<u8>, input: Option<Seq<char>>, r: StepResult)
    requires
        step_post(s, m, input, r),
        !s.halted,
        s.regs@.len() >= 32,
        in_bounds(s.pc, 4, m.len()),
        opc(read32(m, s.pc as int)) == 0x03,
        rd(read32(m, s.pc as int)) != 0,
    ensures
        ({
            let i = read32(m, s.pc as int);
            let k = f3(i);
            let imm = ((i as i32) >> 20u32) as u32;
            let a = (s.regs@[rs1(i) as int] + imm) % 0x1_0000_0000;
            let width: int = if k == 0 || k == 4 { 1 } else if k == 1 || k == 5 { 2 } else { 4 };
            let x = r.new_state.regs@[rd(i) as int] as int;
            let b0 = m[a] as int;
            let h = m[a] as int + 256 * m[a + 1] as int;
            &&& r.error is None <==> ((k == 0 || k == 1 || k == 2 || k == 4 || k == 5) && a + width <= m.len())
            &&& r.error is None ==> r.new_state.pc == (s.pc + 4) as u32
            &&& r.error is None && k == 0 ==> x == (if b0 >= 128 { b0 + 0xFFFF_FF00 } else { b0 })
            &&& r.error is None && k == 4 ==> x == b0
            &&& r.error is None && k == 1 ==> x == (if h >= 0x8000 { h + 0xFFFF_0000 } else { h })
            &&& r.error is None && k == 5 ==> x == h
            &&& r.error is None && k == 2 ==> x == h + 0x1_0000 * m[a + 2] as int + 0x100_0000 * m[a + 3] as int
        }),
{
    let i = read32(m, s.pc as int);
    lemma_field_bits(i, 0);
    let a = modw(s.regs@[rs1(i) as int] + imm_i(i));
    assert(reports(s, m, r, outcome(s.regs@, m, s.pc, input, i), i));
    if r.error is None {
        let v = load_value(f3(i), m, a as int);
        assert(r.new_state.regs@ == wr(s.regs@, rd(i), v));
        assert(r.new_state.regs@[rd(i) as int] == v);
    }
}

/// A store (opcode 0x23) to rs1 plus the twelve-bit offset made of bits
/// 31-25 and 11-7 (taken as an unsigned number), modulo 2^32, writes the
/// low byte (SB, funct3 0), the low halfword (SH, 1) or the whole word
/// (SW, 2) of rs2 there, least significant byte first, changes no
/// register and goes to the next instruction. Another funct3, or an access
/// past the end of memory, is an error.
pub proof fn lemma_stores(s: CpuState, m: Seq<u8>, input: Option<Seq<char>>, r: StepResult)
    requires
        step_post(s, m, input, r),
        !s.halted,
        s.regs@.len() >= 32,
        in_bounds(s.pc, 4, m.len()),
        m.len() <= 0xFFFF_FFFF,
        opc(read32(m, s.pc as int)) == 0x23,
    ensures
        ({
            let i = read32(m, s.pc as int);
            let k = f3(i);
            let off = ((i >> 25u32) << 5u32) | ((i >> 7u32) & 0x1Fu32);
            let a = (s.regs@[rs1(i) as int] + off) % 0x1_0000_0000;
            let v = s.regs@[rs2(i) as int];
            let width: int = if k == 0 { 1 } else if k == 1 { 2 } else { 4 };
            let after = fwd_mem(m, r.undo_log@);
            &&& r.error is None <==> (k <= 2 && a + width <= m.len())
            &&& r.error is None ==> r.new_state.regs@ == s.regs@ && r.new_state.pc == (s.pc + 4) as u32
            &&& r.error is None && k == 0 ==> after == m.update(a, (v % 256) as u8)
            &&& r.error is None && k == 1 ==> after == m.update(a, (v % 256) as u8).update(a + 1, ((v / 256) % 256) as u8)
            &&& r.error is None && k == 2 ==> after == m.update(a, (v % 256) as u8).update(a + 1, ((v / 0x100) % 256) as u8)
                .update(a + 2, ((v / 0x1_0000) % 256) as u8).update(a + 3, ((v / 0x100_0000) % 256) as u8)
        }),
{
    let i = read32(m, s.pc as int);
    let v = s.regs@[rs2(i) as int];
    lemma_field_bits(i, v);
    let a = modw(s.regs@[rs1(i) as int] + imm_s(i));
    assert(reports(s, m, r, outcome(s.regs@, m, s.pc, input, i), i));
    if r.error is None && f3(i) == 2 {
        assert(modw(a + 3) == a + 3);
    }
}

} // verus!

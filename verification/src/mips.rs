//! MIPS32: registers $0-$31 with HI at 32 and LO at 33 (a shorter register
//! file is padded with zeros), 32-bit instructions fetched little-endian.
use vstd::prelude::*;
use crate::plugin::{
    CpuState, UndoEntry, ResetConfig, StepMode, StepResult, TraceEvent, PipelineCycleInfo, input_view, stays_halted, failed,
    five_stages, halt_stages, error_result, halted_result, waiting_result, input_request, pipeline_5, pipeline_halt,
    pipeline_wait, stage_names, stage_actions, all_carry,
};
use crate::effects::{Effect, Outcome, Changes, reports, poke, load8, load16, load32};
use crate::memory::{in_bounds, oob_message, oob_error, read16, read32};
use crate::text::{chars_of, hex_text, dec_text, int_text, trim, trim_chars, parse_signed, parse_int, string_of};
use crate::fmt::{Text, lit, escape_nl, escape_newlines};
use crate::lc3::{c_string, first_char, read_c_string};
use crate::rv32i::{
    modw, signed, sra, sx8, sx16, poke_all, read_bytes, halt_events, base_events, store_string, fetch_text, signed_of,
    sra_f, add_w, low5, halt_events_vec, stages5, signed_lt, fetch_line, lemma_signed_is_i32, lemma_signed_wraps,
    lemma_sra_is_i32_shift,
};
use crate::undo::{faithful, replays, spares_reg0, lemma_faithful_prefix};

verus! {

pub struct MipsPlugin;

// ---------------------------------------------------------------------------
// Semantics
// ---------------------------------------------------------------------------

pub open spec fn opcode(i: u32) -> u32 { i >> 26u32 }
pub open spec fn rs(i: u32) -> u32 { (i >> 21u32) & 0x1Fu32 }
pub open spec fn rt(i: u32) -> u32 { (i >> 16u32) & 0x1Fu32 }
pub open spec fn rd(i: u32) -> u32 { (i >> 11u32) & 0x1Fu32 }
pub open spec fn shamt(i: u32) -> u32 { (i >> 6u32) & 0x1Fu32 }
pub open spec fn funct(i: u32) -> u32 { i & 0x3Fu32 }

/// The 16-bit immediate, sign-extended to a word.
pub open spec fn imm(i: u32) -> u32 {
    let v = i & 0xFFFFu32;
    if v >= 0x8000 {
        (v + 0xFFFF_0000) as u32
    } else {
        v
    }
}

/// The register file padded with zeros to HI and LO.
pub open spec fn padded(r: Seq<u32>) -> Seq<u32> {
    if r.len() >= 34 {
        r
    } else {
        r + Seq::new((34 - r.len()) as nat, |k: int| 0u32)
    }
}

pub open spec fn abs(v: int) -> int {
    if v < 0 {
        -v
    } else {
        v
    }
}

/// Division rounding towards zero.
pub open spec fn tdiv(a: int, b: int) -> int {
    if (a < 0) != (b < 0) {
        -(abs(a) / abs(b))
    } else {
        abs(a) / abs(b)
    }
}

/// The remainder of division rounding towards zero (sign of the dividend).
pub open spec fn trem(a: int, b: int) -> int {
    if a < 0 {
        -(abs(a) % abs(b))
    } else {
        abs(a) % abs(b)
    }
}

/// HI and LO after MULT, MULTU, DIV or DIVU of `a` and `b`.
pub open spec fn hi_lo(f: u32, a: u32, b: u32) -> (u32, u32) {
    if f == 0x18 {
        let p = signed(a) * signed(b);
        (modw(p / 0x1_0000_0000), modw(p))
    } else if f == 0x19 {
        let p = a * b;
        (modw(p / 0x1_0000_0000), modw(p))
    } else if f == 0x1A {
        if b == 0 {
            (a, 0)
        } else {
            (modw(trem(signed(a), signed(b))), modw(tdiv(signed(a), signed(b))))
        }
    } else {
        if b == 0 {
            (a, 0)
        } else {
            ((a % b) as u32, (a / b) as u32)
        }
    }
}

/// The value an R-type ALU instruction writes to rd (`None` for functs that do not).
pub open spec fn r_value(f: u32, sh: u32, a: u32, b: u32, r: Seq<u32>, next: u32) -> Option<u32> {
    let v = a & 0x1Fu32;
    if f == 0x20 {
        Some(modw(signed(a) + signed(b)))
    } else if f == 0x22 {
        Some(modw(signed(a) - signed(b)))
    } else if f == 0x24 {
        Some(a & b)
    } else if f == 0x25 {
        Some(a | b)
    } else if f == 0x2A {
        Some(if signed(a) < signed(b) { 1u32 } else { 0u32 })
    } else if f == 0x2B {
        Some(if a < b { 1u32 } else { 0u32 })
    } else if f == 0x26 {
        Some(a ^ b)
    } else if f == 0x27 {
        Some(!(a | b))
    } else if f == 0x00 {
        Some(b << sh)
    } else if f == 0x02 {
        Some(b >> sh)
    } else if f == 0x03 {
        Some(sra(b, sh))
    } else if f == 0x04 {
        Some(b << v)
    } else if f == 0x06 {
        Some(b >> v)
    } else if f == 0x07 {
        Some(sra(b, v))
    } else if f == 0x09 {
        Some(next)
    } else if f == 0x10 {
        Some(r[32])
    } else if f == 0x12 {
        Some(r[33])
    } else {
        None
    }
}

/// Register `d` written with `v` ($0 stays).
pub open spec fn wr(r: Seq<u32>, d: u32, v: u32) -> Seq<u32> {
    if d > 0 {
        r.update(d as int, v)
    } else {
        r
    }
}

pub open spec fn run5(regs: Seq<u32>, pc: u32, mem: Seq<u8>, events: Seq<TraceEvent>, out: Option<Seq<char>>) -> Outcome {
    Outcome::Run(Effect { regs, pc, halted: false, mem, events, cycles: 5, out }, five_stages())
}

pub open spec fn ev_w() -> Seq<TraceEvent> {
    base_events().push(TraceEvent::RegWrite)
}

/// SYSCALL: $v0 selects the service, $a0 and $a1 are its arguments.
pub open spec fn syscall_outcome(r: Seq<u32>, m: Seq<u8>, pc: u32, input: Option<Seq<char>>) -> Outcome {
    let next = (pc + 4) as u32;
    let v0 = r[2];
    let a0 = r[4];
    let a1 = r[5];
    if v0 == 10 || v0 == 17 {
        Outcome::Run(Effect { regs: r, pc: next, halted: true, mem: m, events: halt_events(), cycles: 3, out: None }, halt_stages())
    } else if v0 == 4 {
        run5(r, next, m, base_events(), Some(c_string(m, a0 as int)))
    } else if v0 == 1 {
        run5(r, next, m, base_events(), Some(int_text(signed(a0))))
    } else if v0 == 11 {
        run5(r, next, m, base_events(), Some(seq![(a0 as u8) as char]))
    } else if v0 == 5 {
        match input {
            None => Outcome::Wait("int"@, "Enter an integer"@, None),
            Some(s) => {
                let v = match parse_signed(trim(s), 10, -0x8000_0000, 0x7FFF_FFFF) {
                    Some(v) => modw(v),
                    None => 0u32,
                };
                run5(r.update(2, v), next, m, ev_w(), None)
            },
        }
    } else if v0 == 12 {
        match input {
            None => Outcome::Wait("char"@, "Enter a character"@, Some(1)),
            Some(s) => run5(r.update(2, (first_char(s) as u32) & 0xFFu32), next, m, ev_w(), None),
        }
    } else if v0 == 8 {
        match input {
            None => Outcome::Wait("string"@, "Enter a string"@, Some(a1)),
            Some(s) => run5(r, next, poke_all(m, a0, read_bytes(s, a1)), base_events().push(TraceEvent::Mem), None),
        }
    } else {
        Outcome::Fail("Unsupported syscall $v0="@ + dec_text(v0 as nat))
    }
}

/// R-type instructions (opcode 0).
pub open spec fn r_outcome(r: Seq<u32>, m: Seq<u8>, pc: u32, input: Option<Seq<char>>, i: u32) -> Outcome {
    let next = (pc + 4) as u32;
    let f = funct(i);
    let a = r[rs(i) as int];
    let b = r[rt(i) as int];
    if f == 0x0C {
        syscall_outcome(r, m, pc, input)
    } else if f == 0x08 {
        run5(r, a, m, base_events(), None)
    } else if f == 0x18 || f == 0x19 || f == 0x1A || f == 0x1B {
        let hl = hi_lo(f, a, b);
        run5(r.update(32, hl.0).update(33, hl.1), next, m, ev_w(), None)
    } else {
        match r_value(f, shamt(i), a, b, r, next) {
            Some(v) => run5(wr(r, rd(i), v), if f == 0x09 { a } else { next }, m, ev_w(), None),
            None => Outcome::Fail("Unknown MIPS R-type funct 0x"@ + hex_text(f as nat, 2)),
        }
    }
}

/// Memory after a store of `width` bytes of `v` at `a`.
pub open spec fn stored(m: Seq<u8>, width: nat, a: u32, v: u32) -> Seq<u8> {
    if width == 1 {
        poke(m, a as int, (v & 0xFFu32) as u8)
    } else if width == 2 {
        let h = v & 0xFFFFu32;
        poke(poke(m, a as int, (h % 256) as u8), a + 1, (h / 256) as u8)
    } else {
        poke(
            poke(poke(poke(m, a as int, (v % 256) as u8), a + 1, ((v / 0x100) % 256) as u8), a + 2, ((v / 0x1_0000) % 256) as u8),
            a + 3,
            ((v / 0x100_0000) % 256) as u8,
        )
    }
}

/// What executing the instruction `i` fetched at `pc` comes to, on the padded registers `r`.
pub open spec fn outcome(r: Seq<u32>, m: Seq<u8>, pc: u32, input: Option<Seq<char>>, i: u32) -> Outcome {
    let op = opcode(i);
    let next = (pc + 4) as u32;
    let a = r[rs(i) as int];
    let t = rt(i);
    let addr = modw(a + imm(i));
    if op == 0 {
        r_outcome(r, m, pc, input, i)
    } else if op == 0x0F {
        run5(wr(r, t, (imm(i) & 0xFFFFu32) << 16u32), next, m, ev_w(), None)
    } else if op == 0x0A {
        run5(wr(r, t, if signed(a) < signed(imm(i)) { 1u32 } else { 0u32 }), next, m, ev_w(), None)
    } else if op == 0x0B {
        run5(wr(r, t, if a < (imm(i) & 0xFFFFu32) { 1u32 } else { 0u32 }), next, m, ev_w(), None)
    } else if op == 0x0E {
        run5(wr(r, t, a ^ (imm(i) & 0xFFFFu32)), next, m, ev_w(), None)
    } else if op == 0x08 || op == 0x09 {
        run5(wr(r, t, modw(signed(a) + signed(imm(i)))), next, m, ev_w(), None)
    } else if op == 0x20 || op == 0x21 || op == 0x23 {
        let w: nat = if op == 0x20 { 1 } else if op == 0x21 { 2 } else { 4 };
        if !in_bounds(addr, w, m.len()) {
            Outcome::Fail(oob_message(addr, w, m.len()))
        } else {
            let v = if op == 0x20 { sx8(m[addr as int]) } else if op == 0x21 { sx16(read16(m, addr as int)) } else { read32(m, addr as int) };
            run5(wr(r, t, v), next, m, base_events() + seq![TraceEvent::Mem, TraceEvent::RegWrite], None)
        }
    } else if op == 0x28 || op == 0x29 || op == 0x2B {
        let w: nat = if op == 0x28 { 1 } else if op == 0x29 { 2 } else { 4 };
        if !in_bounds(addr, w, m.len()) {
            Outcome::Fail(oob_message(addr, w, m.len()))
        } else {
            run5(r, next, stored(m, w, addr, r[t as int]), base_events().push(TraceEvent::Mem), None)
        }
    } else if op == 0x04 || op == 0x05 {
        let take = if op == 0x04 { a == r[t as int] } else { a != r[t as int] };
        run5(r, if take { modw(pc + 4 + 4 * signed(imm(i))) } else { next }, m, base_events(), None)
    } else if op == 0x02 {
        run5(r, (pc & 0xF000_0000u32) | ((i & 0x03FF_FFFFu32) << 2u32), m, base_events(), None)
    } else if op == 0x03 {
        run5(r.update(31, next), (pc & 0xF000_0000u32) | ((i & 0x03FF_FFFFu32) << 2u32), m, ev_w(), None)
    } else {
        Outcome::Fail("Unknown MIPS opcode 0x"@ + hex_text(op as nat, 2) + " at PC=0x"@ + hex_text(pc as nat, 8))
    }
}

/// `prefix` followed by the register `$<r>`.
pub open spec fn dl(prefix: Seq<char>, r: u32) -> Seq<char> {
    prefix + "$"@ + dec_text(r as nat)
}

/// The stage texts of an R-type instruction other than SYSCALL, `v` being
/// the value written (or the jump target).
pub open spec fn r_actions(pc: u32, i: u32, v: u32) -> Seq<Seq<char>> {
    let f = funct(i);
    let s = rs(i);
    let t = rt(i);
    let d = rd(i);
    let sh = shamt(i) as nat;
    let fetch = fetch_line(i, pc);
    let wb = dl(""@, d) + " ← "@ + dec_text(v as nat);
    let vv = dec_text(v as nat);
    let st = |dec: Seq<char>, ex: Seq<char>, w: Seq<char>| seq![fetch, dec, ex, "NOP"@, w];
    if f == 0x20 {
        st("Decode ADD $"@ + dec_text(d as nat) + ", $"@ + dec_text(s as nat) + ", $"@ + dec_text(t as nat),
            dl("ALU: "@, s) + " + $"@ + dec_text(t as nat) + " = "@ + vv, wb)
    } else if f == 0x22 {
        st("Decode SUB"@, dl("ALU: "@, s) + " - $"@ + dec_text(t as nat) + " = "@ + vv, wb)
    } else if f == 0x24 {
        st("Decode AND"@, dl("ALU: "@, s) + " & $"@ + dec_text(t as nat) + " = "@ + vv, wb)
    } else if f == 0x25 {
        st("Decode OR"@, dl("ALU: "@, s) + " | $"@ + dec_text(t as nat) + " = "@ + vv, wb)
    } else if f == 0x2A {
        st("Decode SLT"@, dl("ALU: ("@, s) + " < $"@ + dec_text(t as nat) + ") ? 1 : 0 = "@ + vv, wb)
    } else if f == 0x2B {
        st("Decode SLTU"@, dl("ALU: ("@, s) + " < $"@ + dec_text(t as nat) + " unsigned) ? 1 : 0 = "@ + vv, wb)
    } else if f == 0x26 {
        st("Decode XOR"@, dl("ALU: "@, s) + " ^ $"@ + dec_text(t as nat) + " = "@ + vv, wb)
    } else if f == 0x27 {
        st("Decode NOR"@, dl("ALU: ~("@, s) + " | $"@ + dec_text(t as nat) + ") = "@ + vv, wb)
    } else if f == 0x00 || f == 0x02 || f == 0x03 {
        let name = if f == 0x00 { "Decode SLL $"@ } else if f == 0x02 { "Decode SRL $"@ } else { "Decode SRA $"@ };
        let op = if f == 0x00 { " << "@ } else { " >> "@ };
        let tail = if f == 0x00 { " = "@ } else if f == 0x02 { " (logical) = "@ } else { " (arithmetic) = "@ };
        st(name + dec_text(d as nat) + ", $"@ + dec_text(t as nat) + ", "@ + dec_text(sh), dl("ALU: "@, t) + op + dec_text(sh) + tail + vv, wb)
    } else if f == 0x04 {
        st("Decode SLLV $"@ + dec_text(d as nat) + ", $"@ + dec_text(t as nat) + ", $"@ + dec_text(s as nat),
            dl("ALU: "@, t) + " << ($"@ + dec_text(s as nat) + " & 0x1F) = "@ + vv, wb)
    } else if f == 0x06 {
        st("Decode SRLV"@, dl("ALU: "@, t) + " >> ($"@ + dec_text(s as nat) + " & 0x1F) = "@ + vv, wb)
    } else if f == 0x07 {
        st("Decode SRAV"@, dl("ALU: "@, t) + " >> ($"@ + dec_text(s as nat) + " & 0x1F) (arith) = "@ + vv, wb)
    } else if f == 0x08 {
        st(dl("Decode JR "@, s), dl("PC ← "@, s) + " = 0x"@ + hex_text(v as nat, 8), "PC updated"@)
    } else if f == 0x09 {
        st("Decode JALR $"@ + dec_text(d as nat) + ", $"@ + dec_text(s as nat),
            dl(""@, d) + " ← PC+4, PC ← $"@ + dec_text(s as nat) + " = 0x"@ + hex_text(v as nat, 8), "PC updated"@)
    } else if f == 0x10 {
        st("Decode MFHI"@, dl(""@, d) + " ← HI = 0x"@ + hex_text(v as nat, 8), wb)
    } else if f == 0x12 {
        st("Decode MFLO"@, dl(""@, d) + " ← LO = 0x"@ + hex_text(v as nat, 8), wb)
    } else if f == 0x18 {
        st("Decode MULT"@, dl("(HI, LO) ← "@, s) + " * $"@ + dec_text(t as nat) + " (signed)"@, "HI, LO updated"@)
    } else if f == 0x19 {
        st("Decode MULTU"@, dl("(HI, LO) ← "@, s) + " * $"@ + dec_text(t as nat) + " (unsigned)"@, "HI, LO updated"@)
    } else if f == 0x1A {
        st("Decode DIV"@, dl("LO = "@, s) + "/$"@ + dec_text(t as nat) + ", HI = $"@ + dec_text(s as nat) + "%$"@ + dec_text(t as nat),
            "HI, LO updated"@)
    } else {
        st("Decode DIVU"@, dl("LO = "@, s) + "/$"@ + dec_text(t as nat) + ", HI = $"@ + dec_text(s as nat) + "%$"@ + dec_text(t as nat)
            + " (unsigned)"@, "HI, LO updated"@)
    }
}

/// The stage texts of LUI, SLTI, SLTIU, XORI, ADDI and ADDIU writing `v`.
pub open spec fn imm_actions(pc: u32, i: u32, v: u32) -> Seq<Seq<char>> {
    let op = opcode(i);
    let s = rs(i);
    let t = rt(i);
    let im = imm(i);
    let si = signed(im);
    let fetch = fetch_line(i, pc);
    let wb = dl(""@, t) + " ← "@ + dec_text(v as nat);
    if op == 0x0F {
        seq![fetch, dl("Decode LUI "@, t) + ", 0x"@ + hex_text((im & 0xFFFFu32) as nat, 4), "ALU: imm << 16 = 0x"@ + hex_text(v as nat, 8),
            "NOP"@, dl(""@, t) + " ← 0x"@ + hex_text(v as nat, 8)]
    } else if op == 0x0A {
        seq![fetch, dl("Decode SLTI "@, t) + ", $"@ + dec_text(s as nat) + ", "@ + int_text(si),
            dl("ALU: ("@, s) + " < "@ + int_text(si) + ") ? 1 : 0 = "@ + dec_text(v as nat), "NOP"@, wb]
    } else if op == 0x0B {
        seq![fetch, dl("Decode SLTIU "@, t) + ", $"@ + dec_text(s as nat) + ", "@ + dec_text((im & 0xFFFFu32) as nat),
            dl("ALU: ("@, s) + " < "@ + dec_text((im & 0xFFFFu32) as nat) + " unsigned) ? 1 : 0 = "@ + dec_text(v as nat), "NOP"@, wb]
    } else if op == 0x0E {
        seq![fetch, dl("Decode XORI "@, t) + ", $"@ + dec_text(s as nat) + ", 0x"@ + hex_text((im & 0xFFFFu32) as nat, 4),
            dl("ALU: "@, s) + " ^ 0x"@ + hex_text((im & 0xFFFFu32) as nat, 4) + " = "@ + dec_text(v as nat), "NOP"@, wb]
    } else {
        let name = if op == 0x09 { "Decode ADDIU "@ } else { "Decode ADDI "@ };
        seq![fetch, dl(name, t) + ", $"@ + dec_text(s as nat) + ", "@ + int_text(si),
            dl("ALU: "@, s) + " + "@ + int_text(si) + " = "@ + dec_text(v as nat), "NOP"@, wb]
    }
}

/// The stage texts of a load or store at `addr` with the given memory and write-back texts.
pub open spec fn mem_actions(pc: u32, i: u32, addr: u32, mem: Seq<char>, wb: Seq<char>) -> Seq<Seq<char>> {
    let op = opcode(i);
    let si = signed(imm(i));
    let name = if op == 0x20 {
        "Decode LB $"@
    } else if op == 0x21 {
        "Decode LH $"@
    } else if op == 0x23 {
        "Decode LW $"@
    } else if op == 0x2B {
        "Decode SW $"@
    } else if op == 0x28 {
        "Decode SB $"@
    } else {
        "Decode SH $"@
    };
    seq![fetch_line(i, pc), name + dec_text(rt(i) as nat) + ", "@ + int_text(si) + "($"@ + dec_text(rs(i) as nat) + ")"@,
        dl("addr = "@, rs(i)) + " + "@ + int_text(si) + " = 0x"@ + hex_text(addr as nat, 8), mem, wb]
}

/// The stage texts of a load.
pub open spec fn load_actions(r: Seq<u32>, m: Seq<u8>, pc: u32, i: u32) -> Seq<Seq<char>> {
    let op = opcode(i);
    let t = rt(i);
    let addr = modw(r[rs(i) as int] + imm(i));
    if op == 0x20 {
        let b = m[addr as int];
        let v = sx8(b);
        mem_actions(pc, i, addr, "Mem[0x"@ + hex_text(addr as nat, 8) + "] (byte) = 0x"@ + hex_text(b as nat, 2) + " → sign-ext → 0x"@
            + hex_text(v as nat, 8), dl(""@, t) + " ← 0x"@ + hex_text(v as nat, 8))
    } else if op == 0x21 {
        let h = read16(m, addr as int);
        let v = sx16(h);
        mem_actions(pc, i, addr, "Mem[0x"@ + hex_text(addr as nat, 8) + "] (half) = 0x"@ + hex_text(h as nat, 4) + " → sign-ext → 0x"@
            + hex_text(v as nat, 8), dl(""@, t) + " ← 0x"@ + hex_text(v as nat, 8))
    } else {
        let w = read32(m, addr as int);
        mem_actions(pc, i, addr, "Mem[0x"@ + hex_text(addr as nat, 8) + "] = "@ + dec_text(w as nat), dl(""@, t) + " ← "@ + dec_text(w as nat))
    }
}

/// The stage texts of a store.
pub open spec fn store_actions(r: Seq<u32>, pc: u32, i: u32) -> Seq<Seq<char>> {
    let op = opcode(i);
    let addr = modw(r[rs(i) as int] + imm(i));
    let v = r[rt(i) as int];
    let mem = if op == 0x2B {
        "Mem[0x"@ + hex_text(addr as nat, 8) + "] ← "@ + dec_text(v as nat)
    } else if op == 0x28 {
        "Mem[0x"@ + hex_text(addr as nat, 8) + "] ← 0x"@ + hex_text((v & 0xFFu32) as nat, 2)
    } else {
        "Mem[0x"@ + hex_text(addr as nat, 8) + "] ← 0x"@ + hex_text((v & 0xFFFFu32) as nat, 4)
    };
    mem_actions(pc, i, addr, mem, "NOP"@)
}

/// The stage texts of BEQ, BNE, J and JAL.
pub open spec fn jump_actions(r: Seq<u32>, pc: u32, i: u32) -> Seq<Seq<char>> {
    let op = opcode(i);
    let fetch = fetch_line(i, pc);
    let to = (pc & 0xF000_0000u32) | ((i & 0x03FF_FFFFu32) << 2u32);
    if op == 0x04 || op == 0x05 {
        let s = rs(i);
        let t = rt(i);
        let take = if op == 0x04 { r[s as int] == r[t as int] } else { r[s as int] != r[t as int] };
        let target = modw(pc + 4 + 4 * signed(imm(i)));
        let (name, eq, ne) = if op == 0x04 { ("BEQ: $"@, " == $"@, " != $"@) } else { ("BNE: $"@, " != $"@, " == $"@) };
        let ex = if take {
            name + dec_text(s as nat) + eq + dec_text(t as nat) + " → taken, PC ← 0x"@ + hex_text(target as nat, 8)
        } else {
            name + dec_text(s as nat) + ne + dec_text(t as nat) + " → not taken"@
        };
        seq![fetch, if op == 0x04 { "Decode BEQ"@ } else { "Decode BNE"@ }, ex, "NOP"@, "PC updated"@]
    } else if op == 0x02 {
        seq![fetch, "Decode J"@, "PC ← 0x"@ + hex_text(to as nat, 8), "NOP"@, "PC updated"@]
    } else {
        seq![fetch, "Decode JAL"@, "$ra ← PC+4, PC ← 0x"@ + hex_text(to as nat, 8), "NOP"@, "$ra, PC updated"@]
    }
}

/// The execute text of a printing system call.
pub open spec fn print_line(o: Seq<char>) -> Seq<char> {
    "syscall: print \""@ + escape_newlines(o) + "\""@
}

/// The stage texts of SYSCALL.
pub open spec fn syscall_actions(r: Seq<u32>, m: Seq<u8>, pc: u32, input: Option<Seq<char>>, i: u32) -> Seq<Seq<char>> {
    let v0 = r[2];
    let a0 = r[4];
    let fetch = fetch_line(i, pc);
    if v0 == 10 || v0 == 17 {
        seq![fetch, "Decode: syscall 10 (exit)"@, "Halted"@]
    } else if (v0 == 5 || v0 == 12 || v0 == 8) && input is None {
        seq![fetch, if v0 == 5 {
            "syscall 5 (read int) – waiting for input"@
        } else if v0 == 12 {
            "syscall 12 (read char) – waiting for input"@
        } else {
            "syscall 8 (read string) – waiting for input"@
        }]
    } else {
        let action = if v0 == 4 {
            print_line(c_string(m, a0 as int))
        } else if v0 == 1 {
            print_line(int_text(signed(a0)))
        } else if v0 == 11 {
            print_line(seq![(a0 as u8) as char])
        } else {
            "syscall 10: exit"@
        };
        seq![fetch, "Decode syscall"@, action, "NOP"@, "PC ← PC+4"@]
    }
}

/// The stage texts of a step that executed the instruction `i` at `pc` (or
/// waits for input), on the padded registers `r`.
pub open spec fn mips_actions(r: Seq<u32>, m: Seq<u8>, pc: u32, input: Option<Seq<char>>, i: u32) -> Seq<Seq<char>> {
    let op = opcode(i);
    let f = funct(i);
    let a = r[rs(i) as int];
    let b = r[rt(i) as int];
    let next = (pc + 4) as u32;
    if op == 0 {
        if f == 0x0C {
            syscall_actions(r, m, pc, input, i)
        } else if f == 0x08 || f == 0x09 {
            r_actions(pc, i, a)
        } else if f == 0x18 || f == 0x19 || f == 0x1A || f == 0x1B {
            r_actions(pc, i, 0)
        } else {
            r_actions(pc, i, r_value(f, shamt(i), a, b, r, next).unwrap())
        }
    } else if op == 0x0F {
        imm_actions(pc, i, (imm(i) & 0xFFFFu32) << 16u32)
    } else if op == 0x0A {
        imm_actions(pc, i, if signed(a) < signed(imm(i)) { 1u32 } else { 0u32 })
    } else if op == 0x0B {
        imm_actions(pc, i, if a < (imm(i) & 0xFFFFu32) { 1u32 } else { 0u32 })
    } else if op == 0x0E {
        imm_actions(pc, i, a ^ (imm(i) & 0xFFFFu32))
    } else if op == 0x08 || op == 0x09 {
        imm_actions(pc, i, modw(signed(a) + signed(imm(i))))
    } else if op == 0x20 || op == 0x21 || op == 0x23 {
        load_actions(r, m, pc, i)
    } else if op == 0x28 || op == 0x29 || op == 0x2B {
        store_actions(r, pc, i)
    } else {
        jump_actions(r, pc, i)
    }
}

/// The log of an instruction that writes register `d` (nothing for $0) of
/// the register file `r` and moves the program counter from `pc`: the
/// register's old and new value, then the step to `new.pc`.
pub open spec fn write_log(r: Seq<u32>, pc: u32, new: CpuState, d: u32) -> Seq<UndoEntry> {
    (if d != 0 {
        seq![UndoEntry::RegWrite { reg: d as usize, old_value: r[d as int], new_value: new.regs@[d as int] }]
    } else {
        Seq::empty()
    }) + seq![UndoEntry::Pc { old_value: pc, new_value: new.pc }]
}

/// The log of SB, SH or SW (opcode `op`) of `v` at `a` by the instruction at
/// `pc`: each byte written, low byte first, then the step to the next
/// instruction.
pub open spec fn store_log(m: Seq<u8>, op: u32, a: u32, v: u32, pc: u32) -> Seq<UndoEntry> {
    let bytes = if op == 0x28 {
        seq![UndoEntry::MemWrite { addr: a, old_value: m[a as int], new_value: (v & 0xFFu32) as u8 }]
    } else if op == 0x29 {
        let h = v & 0xFFFFu32;
        seq![
            UndoEntry::MemWrite { addr: a, old_value: m[a as int], new_value: (h % 256) as u8 },
            UndoEntry::MemWrite { addr: (a + 1) as u32, old_value: m[a + 1], new_value: (h / 256) as u8 },
        ]
    } else {
        seq![
            UndoEntry::MemWrite { addr: a, old_value: m[a as int], new_value: (v % 256) as u8 },
            UndoEntry::MemWrite { addr: (a + 1) as u32, old_value: m[a + 1], new_value: ((v / 0x100) % 256) as u8 },
            UndoEntry::MemWrite { addr: (a + 2) as u32, old_value: m[a + 2], new_value: ((v / 0x1_0000) % 256) as u8 },
            UndoEntry::MemWrite { addr: (a + 3) as u32, old_value: m[a + 3], new_value: ((v / 0x100_0000) % 256) as u8 },
        ]
    };
    bytes + seq![UndoEntry::Pc { old_value: pc, new_value: (pc + 4) as u32 }]
}

/// The contract of one MIPS step.
pub open spec fn step_post(s: CpuState, m: Seq<u8>, input: Option<Seq<char>>, r: StepResult) -> bool {
    if s.halted {
        stays_halted(s, r)
    } else if !in_bounds(s.pc, 4, m.len()) {
        failed(s, r, None) && (r.error matches Some(e) && e@ == oob_message(s.pc, 4, m.len()))
    } else {
        let i = read32(m, s.pc as int);
        &&& reports(s, m, r, outcome(padded(s.regs@), m, s.pc, input, i), i)
        &&& r.error is None ==> stage_actions(r.pipeline_stages@) == mips_actions(padded(s.regs@), m, s.pc, input, i)
        &&& r.error is None ==> faithful(s.regs@, s.pc, m, r.undo_log@)
        &&& r.error is None && r.io_input_requested is None ==> replays(padded(s.regs@), s.pc, r.undo_log@, r.new_state)
        &&& r.error is None ==> spares_reg0(r.undo_log@)
        &&& (opcode(i) == 0x04 || opcode(i) == 0x05 || opcode(i) == 0x02) && r.error is None ==> r.undo_log@ == seq![UndoEntry::Pc { old_value: s.pc, new_value: r.new_state.pc }]
        &&& r.error is None && (opcode(i) == 0x0F || opcode(i) == 0x0A || opcode(i) == 0x0B || opcode(i) == 0x0E || opcode(i) == 0x08
            || opcode(i) == 0x09 || opcode(i) == 0x20 || opcode(i) == 0x21 || opcode(i) == 0x23) ==> r.undo_log@ == write_log(
            padded(s.regs@), s.pc, r.new_state, rt(i))
        &&& r.error is None && opcode(i) == 0x03 ==> r.undo_log@ == write_log(padded(s.regs@), s.pc, r.new_state, 31)
        &&& r.error is None && (opcode(i) == 0x28 || opcode(i) == 0x29 || opcode(i) == 0x2B) ==> r.undo_log@ == store_log(m, opcode(i),
            modw(padded(s.regs@)[rs(i) as int] + imm(i)), padded(s.regs@)[rt(i) as int], s.pc)
    }
}

// ---------------------------------------------------------------------------
// Executor
// ---------------------------------------------------------------------------

/// Bounds of the fields of an instruction word `i`, its sign-extended
/// immediate, and the bound of the low five bits of `x`.
proof fn lemma_field_bits(i: u32, x: u32)
    by (bit_vector)
    ensures
        rs(i) < 32,
        rt(i) < 32,
        rd(i) < 32,
        shamt(i) < 32,
        x & 31u32 < 32,
        i & 0xFFFFu32 <= 0xFFFF,
        imm(i) == ((i as i16) as i32) as u32,
        imm(i) & 0xFFFFu32 == i & 0xFFFFu32,
        signed(imm(i)) == (i as i16) as int,
{
}

fn rs_f(i: u32) -> (r: u32)
    ensures
        r == rs(i),
        r < 32,
{
    proof {
        lemma_field_bits(i, 0);
    }
    (i >> 21u32) & 0x1Fu32
}

fn rt_f(i: u32) -> (r: u32)
    ensures
        r == rt(i),
        r < 32,
{
    proof {
        lemma_field_bits(i, 0);
    }
    (i >> 16u32) & 0x1Fu32
}

fn rd_f(i: u32) -> (r: u32)
    ensures
        r == rd(i),
        r < 32,
{
    proof {
        lemma_field_bits(i, 0);
    }
    (i >> 11u32) & 0x1Fu32
}

fn shamt_f(i: u32) -> (r: u32)
    ensures
        r == shamt(i),
        r < 32,
{
    proof {
        lemma_field_bits(i, 0);
    }
    (i >> 6u32) & 0x1Fu32
}

fn imm_f(i: u32) -> (r: u32)
    ensures
        r == imm(i),
{
    let v = i & 0xFFFFu32;
    proof {
        lemma_field_bits(i, 0);
    }
    if v >= 0x8000 { v + 0xFFFF_0000 } else { v }
}

/// The registers padded with zeros up to HI and LO.
fn pad_regs(regs: &Vec<u32>) -> (r: Vec<u32>)
    ensures
        r@ == padded(regs@),
        r@.len() >= 34,
{
    let mut r = regs.clone();
    assert(r@ =~= regs@);
    let n = r.len();
    while r.len() < 34
        invariant
            n == regs@.len(),
            r@.len() >= n,
            r@.len() <= 34 || r@.len() == n,
            r@ =~= regs@ + Seq::new((r@.len() - n) as nat, |k: int| 0u32),
        decreases 34 - r@.len(),
    {
        r.push(0);
        assert(r@ =~= regs@ + Seq::new((r@.len() - n) as nat, |k: int| 0u32));
    }
    proof {
        if n >= 34 {
            assert(r@ =~= regs@);
        }
    }
    r
}

fn tq_word(v: i64) -> (w: u32)
    requires
        -0x2_0000_0000 < v < 0x2_0000_0000,
    ensures
        w == modw(v as int),
{
    (((v + 0x2_0000_0000) as u64) % 0x1_0000_0000) as u32
}

fn hi_lo_f(f: u32, a: u32, b: u32) -> (r: (u32, u32))
    requires
        f == 0x18 || f == 0x19 || f == 0x1A || f == 0x1B,
    ensures
        r == hi_lo(f, a, b),
{
    if f == 0x18 {
        let sa = signed_of(a);
        let sb = signed_of(b);
        assert(-0x4000_0000_0000_0000 <= sa * sb <= 0x4000_0000_0000_0000) by (nonlinear_arith)
            requires
                -0x8000_0000 <= sa <= 0x8000_0000,
                -0x8000_0000 <= sb <= 0x8000_0000,
        ;
        let p: i64 = sa * sb;
        let off: u128 = (p as i128 + 0x1_0000_0000_0000_0000) as u128;
        proof {
            let d: int = 0x1_0000_0000;
            vstd::arithmetic::div_mod::lemma_mod_multiples_vanish(d, p as int, d);
            vstd::arithmetic::div_mod::lemma_hoist_over_denominator(p as int, d, d as nat);
            vstd::arithmetic::div_mod::lemma_mod_multiples_vanish(1, (p as int) / d, d);
            assert(off as int == d * d + p);
        }
        (((off / 0x1_0000_0000) % 0x1_0000_0000) as u32, (off % 0x1_0000_0000) as u32)
    } else if f == 0x19 {
        assert((a as u64) * (b as u64) <= 0xFFFF_FFFE_0000_0001) by (nonlinear_arith)
            requires
                a <= 0xFFFF_FFFF,
                b <= 0xFFFF_FFFF,
        ;
        let p: u64 = (a as u64) * (b as u64);
        assert(p / 0x1_0000_0000 < 0x1_0000_0000) by (nonlinear_arith)
            requires
                p <= 0xFFFF_FFFE_0000_0001,
        ;
        ((p / 0x1_0000_0000) as u32, (p % 0x1_0000_0000) as u32)
    } else if f == 0x1A {
        if b == 0 {
            (a, 0)
        } else {
            let sa = signed_of(a);
            let sb = signed_of(b);
            let ua: u64 = if sa < 0 { (-sa) as u64 } else { sa as u64 };
            let ub: u64 = if sb < 0 { (-sb) as u64 } else { sb as u64 };
            let q = ua / ub;
            let rm = ua % ub;
            assert(q <= ua) by (nonlinear_arith)
                requires
                    ub >= 1,
                    q == ua / ub,
            ;
            let tq: i64 = if (sa < 0) != (sb < 0) { -(q as i64) } else { q as i64 };
            let tr: i64 = if sa < 0 { -(rm as i64) } else { rm as i64 };
            (tq_word(tr), tq_word(tq))
        }
    } else {
        if b == 0 {
            (a, 0)
        } else {
            (a % b, a / b)
        }
    }
}

fn r_value_f(f: u32, sh: u32, a: u32, b: u32, r: &Vec<u32>, next: u32) -> (v: Option<u32>)
    requires
        sh < 32,
        r@.len() >= 34,
    ensures
        v == r_value(f, sh, a, b, r@, next),
{
    let vs = low5(a);
    if f == 0x20 {
        Some(tq_word(signed_of(a) + signed_of(b)))
    } else if f == 0x22 {
        Some(tq_word(signed_of(a) - signed_of(b)))
    } else if f == 0x24 {
        Some(a & b)
    } else if f == 0x25 {
        Some(a | b)
    } else if f == 0x2A {
        Some(if signed_lt(a, b) { 1u32 } else { 0u32 })
    } else if f == 0x2B {
        Some(if a < b { 1u32 } else { 0u32 })
    } else if f == 0x26 {
        Some(a ^ b)
    } else if f == 0x27 {
        Some(!(a | b))
    } else if f == 0x00 {
        Some(b << sh)
    } else if f == 0x02 {
        Some(b >> sh)
    } else if f == 0x03 {
        Some(sra_f(b, sh))
    } else if f == 0x04 {
        Some(b << vs)
    } else if f == 0x06 {
        Some(b >> vs)
    } else if f == 0x07 {
        Some(sra_f(b, vs))
    } else if f == 0x09 {
        Some(next)
    } else if f == 0x10 {
        Some(r[32])
    } else if f == 0x12 {
        Some(r[33])
    } else {
        None
    }
}

fn dollar(prefix: &str, r: u32) -> (t: Text)
    ensures
        t.chars@ == dl(prefix@, r),
{
    Text::new().s(prefix).s("$").dec(r as u64)
}

fn r_stages(i: u32, pc: u32, v: u32, hl: bool) -> (st: Vec<PipelineCycleInfo>)
    ensures
        stage_actions(st@) == r_actions(pc, i, v),
        stage_names(st@) == five_stages(),
        all_carry(st@, Some(i)),
        st@.len() == 5,
{
    let f = i & 0x3Fu32;
    let s = rs_f(i);
    let t = rt_f(i);
    let d = rd_f(i);
    let sh = shamt_f(i);
    let fetch = fetch_text(i, pc);
    let wb = dollar("", d).s(" ← ").dec(v as u64).done();
    let nop = "NOP";
    if f == 0x20 {
        let dec = Text::new().s("Decode ADD $").dec(d as u64).s(", $").dec(s as u64).s(", $").dec(t as u64).done();
        stages5(i, fetch, dec, dollar("ALU: ", s).s(" + $").dec(t as u64).s(" = ").dec(v as u64).done(), nop, wb)
    } else if f == 0x22 {
        stages5(i, fetch, lit("Decode SUB"), dollar("ALU: ", s).s(" - $").dec(t as u64).s(" = ").dec(v as u64).done(), nop, wb)
    } else if f == 0x24 {
        stages5(i, fetch, lit("Decode AND"), dollar("ALU: ", s).s(" & $").dec(t as u64).s(" = ").dec(v as u64).done(), nop, wb)
    } else if f == 0x25 {
        stages5(i, fetch, lit("Decode OR"), dollar("ALU: ", s).s(" | $").dec(t as u64).s(" = ").dec(v as u64).done(), nop, wb)
    } else if f == 0x2A {
        stages5(i, fetch, lit("Decode SLT"), dollar("ALU: (", s).s(" < $").dec(t as u64).s(") ? 1 : 0 = ").dec(v as u64).done(), nop, wb)
    } else if f == 0x2B {
        stages5(i, fetch, lit("Decode SLTU"), dollar("ALU: (", s).s(" < $").dec(t as u64).s(" unsigned) ? 1 : 0 = ").dec(v as u64).done(), nop, wb)
    } else if f == 0x26 {
        stages5(i, fetch, lit("Decode XOR"), dollar("ALU: ", s).s(" ^ $").dec(t as u64).s(" = ").dec(v as u64).done(), nop, wb)
    } else if f == 0x27 {
        stages5(i, fetch, lit("Decode NOR"), dollar("ALU: ~(", s).s(" | $").dec(t as u64).s(") = ").dec(v as u64).done(), nop, wb)
    } else if f == 0x00 || f == 0x02 || f == 0x03 {
        let name = if f == 0x00 { "Decode SLL $" } else if f == 0x02 { "Decode SRL $" } else { "Decode SRA $" };
        let dec = Text::new().s(name).dec(d as u64).s(", $").dec(t as u64).s(", ").dec(sh as u64).done();
        let op = if f == 0x00 { " << " } else { " >> " };
        let tail = if f == 0x00 { " = " } else if f == 0x02 { " (logical) = " } else { " (arithmetic) = " };
        stages5(i, fetch, dec, dollar("ALU: ", t).s(op).dec(sh as u64).s(tail).dec(v as u64).done(), nop, wb)
    } else if f == 0x04 {
        let dec = Text::new().s("Decode SLLV $").dec(d as u64).s(", $").dec(t as u64).s(", $").dec(s as u64).done();
        stages5(i, fetch, dec, dollar("ALU: ", t).s(" << ($").dec(s as u64).s(" & 0x1F) = ").dec(v as u64).done(), nop, wb)
    } else if f == 0x06 {
        stages5(i, fetch, lit("Decode SRLV"), dollar("ALU: ", t).s(" >> ($").dec(s as u64).s(" & 0x1F) = ").dec(v as u64).done(), nop, wb)
    } else if f == 0x07 {
        stages5(i, fetch, lit("Decode SRAV"), dollar("ALU: ", t).s(" >> ($").dec(s as u64).s(" & 0x1F) (arith) = ").dec(v as u64).done(), nop, wb)
    } else if f == 0x08 {
        stages5(i, fetch, dollar("Decode JR ", s).done(), dollar("PC ← ", s).s(" = 0x").hex(v as u64, 8).done(), nop, lit("PC updated"))
    } else if f == 0x09 {
        let dec = Text::new().s("Decode JALR $").dec(d as u64).s(", $").dec(s as u64).done();
        stages5(i, fetch, dec, dollar("", d).s(" ← PC+4, PC ← $").dec(s as u64).s(" = 0x").hex(v as u64, 8).done(), nop, lit("PC updated"))
    } else if f == 0x10 {
        stages5(i, fetch, lit("Decode MFHI"), dollar("", d).s(" ← HI = 0x").hex(v as u64, 8).done(), nop, wb)
    } else if f == 0x12 {
        stages5(i, fetch, lit("Decode MFLO"), dollar("", d).s(" ← LO = 0x").hex(v as u64, 8).done(), nop, wb)
    } else if f == 0x18 {
        stages5(i, fetch, lit("Decode MULT"), dollar("(HI, LO) ← ", s).s(" * $").dec(t as u64).s(" (signed)").done(), nop, lit("HI, LO updated"))
    } else if f == 0x19 {
        stages5(i, fetch, lit("Decode MULTU"), dollar("(HI, LO) ← ", s).s(" * $").dec(t as u64).s(" (unsigned)").done(), nop, lit("HI, LO updated"))
    } else if f == 0x1A {
        let ex = dollar("LO = ", s).s("/$").dec(t as u64).s(", HI = $").dec(s as u64).s("%$").dec(t as u64).done();
        stages5(i, fetch, lit("Decode DIV"), ex, nop, lit("HI, LO updated"))
    } else {
        let ex = dollar("LO = ", s).s("/$").dec(t as u64).s(", HI = $").dec(s as u64).s("%$").dec(t as u64).s(" (unsigned)").done();
        stages5(i, fetch, lit("Decode DIVU"), ex, nop, lit("HI, LO updated"))
    }
}

fn ev_of(mem: bool, write: bool) -> (e: Vec<TraceEvent>)
    ensures
        e@ == (if mem && write { base_events() + seq![TraceEvent::Mem, TraceEvent::RegWrite] } else if mem {
            base_events().push(TraceEvent::Mem)
        } else if write {
            ev_w()
        } else {
            base_events()
        }),
{
    let mut e: Vec<TraceEvent> = Vec::new();
    e.push(TraceEvent::Fetch);
    e.push(TraceEvent::Decode);
    e.push(TraceEvent::Alu);
    if mem {
        e.push(TraceEvent::Mem);
    }
    if write {
        e.push(TraceEvent::RegWrite);
    }
    proof {
        if mem && write {
            assert(e@ =~= base_events() + seq![TraceEvent::Mem, TraceEvent::RegWrite]);
        } else if mem {
            assert(e@ =~= base_events().push(TraceEvent::Mem));
        } else if write {
            assert(e@ =~= ev_w());
        } else {
            assert(e@ =~= base_events());
        }
    }
    e
}

/// R-type instructions other than SYSCALL.
fn exec_r(state: &CpuState, regs: &Vec<u32>, m: &[u8], i: u32) -> (r: StepResult)
    requires
        regs@.len() >= 34,
        state.pc as int + 4 <= m@.len(),
        m@.len() <= 0xFFFF_FFFF,
        opcode(i) == 0,
        funct(i) != 0x0C,
    ensures
        reports(*state, m@, r, outcome(regs@, m@, state.pc, None, i), i),
        r.error is None ==> stage_actions(r.pipeline_stages@) == mips_actions(regs@, m@, state.pc, None, i),
        r.error is None ==> faithful(regs@, state.pc, m@, r.undo_log@),
        r.error is None && r.io_input_requested is None ==> replays(regs@, state.pc, r.undo_log@, r.new_state),
        r.error is None ==> spares_reg0(r.undo_log@),
        r.cycles_added <= 5,
        r.pipeline_stages@.len() <= 5,
{
    let pc = state.pc;
    let next = pc + 4;
    let f = i & 0x3Fu32;
    let a = regs[rs_f(i) as usize];
    let b = regs[rt_f(i) as usize];
    let mut c = Changes::start(regs, pc, m);
    if f == 0x08 {
        let st = r_stages(i, pc, a, false);
        c.jump(pc, a);
        c.finish(a, false, ev_of(false, false), 5, i, None, st)
    } else if f == 0x18 || f == 0x19 || f == 0x1A || f == 0x1B {
        let (hi, lo) = hi_lo_f(f, a, b);
        let st = r_stages(i, pc, 0, true);
        c.set(32, hi);
        c.set(33, lo);
        c.jump(pc, next);
        c.finish(next, false, ev_of(false, true), 5, i, None, st)
    } else {
        match r_value_f(f, shamt_f(i), a, b, regs, next) {
            None => error_result(state, Some(i), Text::new().s("Unknown MIPS R-type funct 0x").hex(f as u64, 2).done()),
            Some(v) => {
                let to = if f == 0x09 { a } else { next };
                let st = r_stages(i, pc, if f == 0x09 { a } else { v }, false);
                let d = rd_f(i);
                if d > 0 {
                    c.set(d as usize, v);
                }
                c.jump(pc, to);
                c.finish(to, false, ev_of(false, true), 5, i, None, st)
            },
        }
    }
}

/// SYSCALL.
fn exec_syscall(state: &CpuState, regs: &Vec<u32>, m: &[u8], i: u32, input: Option<&str>) -> (r: StepResult)
    requires
        regs@.len() >= 34,
        state.pc as int + 4 <= m@.len(),
        m@.len() <= 0xFFFF_FFFF,
        opcode(i) == 0,
        funct(i) == 0x0C,
    ensures
        reports(*state, m@, r, outcome(regs@, m@, state.pc, input_view(input), i), i),
        r.error is None ==> stage_actions(r.pipeline_stages@) == mips_actions(regs@, m@, state.pc, input_view(input), i),
        r.error is None ==> faithful(regs@, state.pc, m@, r.undo_log@),
        r.error is None && r.io_input_requested is None ==> replays(regs@, state.pc, r.undo_log@, r.new_state),
        r.error is None ==> spares_reg0(r.undo_log@),
        r.cycles_added <= 5,
        r.pipeline_stages@.len() <= 5,
{
    let pc = state.pc;
    let next = pc + 4;
    let fetch = fetch_text(i, pc);
    let v0 = regs[2];
    let a0 = regs[4];
    let a1 = regs[5];
    let mut c = Changes::start(regs, pc, m);
    if v0 == 10 || v0 == 17 {
        let st = pipeline_halt(Some(i), fetch, lit("Decode: syscall 10 (exit)"), lit("Halted"));
        c.jump(pc, next);
        return c.finish(next, true, halt_events_vec(), 3, i, None, st);
    }
    if !(v0 == 4 || v0 == 1 || v0 == 11 || v0 == 5 || v0 == 12 || v0 == 8) {
        return error_result(state, Some(i), Text::new().s("Unsupported syscall $v0=").dec(v0 as u64).done());
    }
    let out: Option<Vec<char>> = if v0 == 4 {
        Some(read_c_string(m, a0))
    } else if v0 == 1 {
        Some(Text::new().sint(signed_of(a0)).chars)
    } else if v0 == 11 {
        Some(Text::new().ch((a0 as u8) as char).chars)
    } else {
        None
    };
    let mut mem_ev = false;
    let mut write_ev = false;
    if v0 == 5 || v0 == 12 || v0 == 8 {
        match input {
            None => {
                let (what, kind, prompt, max): (&str, &str, &str, Option<u32>) = if v0 == 5 {
                    ("syscall 5 (read int) – waiting for input", "int", "Enter an integer", None)
                } else if v0 == 12 {
                    ("syscall 12 (read char) – waiting for input", "char", "Enter a character", Some(1u32))
                } else {
                    ("syscall 8 (read string) – waiting for input", "string", "Enter a string", Some(a1))
                };
                let st = pipeline_wait(Some(i), fetch, lit(what));
                return waiting_result(state, i, st, input_request(kind, prompt, max));
            },
            Some(s) => {
                if v0 == 5 {
                    let cs = chars_of(s);
                    let t = trim_chars(cs.as_slice());
                    let v: u32 = match parse_int(t.as_slice(), 10, -0x8000_0000, 0x7FFF_FFFF) {
                        Some(v) => tq_word(v),
                        None => 0,
                    };
                    c.set(2, v);
                    write_ev = true;
                } else if v0 == 12 {
                    let cs = chars_of(s);
                    let ch = if cs.len() > 0 { cs[0] } else { '\0' };
                    c.set(2, (ch as u32) & 0xFFu32);
                    write_ev = true;
                } else {
                    store_string(&mut c, m, a0, a1, s);
                    mem_ev = true;
                }
            },
        }
    }
    let action = match &out {
        Some(o) => Text::new().s("syscall: print \"").all(escape_nl(o.as_slice()).as_slice()).s("\"").done(),
        None => lit("syscall 10: exit"),
    };
    let st = pipeline_5(Some(i), fetch, lit("Decode syscall"), action, lit("NOP"), lit("PC ← PC+4"));
    c.jump(pc, next);
    let out_s: Option<String> = match out {
        Some(o) => Some(string_of(o.as_slice())),
        None => None,
    };
    c.finish(next, false, ev_of(mem_ev, write_ev), 5, i, out_s, st)
}

fn imm_stages(i: u32, pc: u32, v: u32) -> (st: Vec<PipelineCycleInfo>)
    ensures
        stage_actions(st@) == imm_actions(pc, i, v),
        stage_names(st@) == five_stages(),
        all_carry(st@, Some(i)),
        st@.len() == 5,
{
    let op = i >> 26u32;
    let s = rs_f(i);
    let t = rt_f(i);
    let im = imm_f(i);
    let si = signed_of(im);
    let fetch = fetch_text(i, pc);
    let wb = dollar("", t).s(" ← ").dec(v as u64).done();
    if op == 0x0F {
        let dec = dollar("Decode LUI ", t).s(", 0x").hex((im & 0xFFFFu32) as u64, 4).done();
        let wbx = dollar("", t).s(" ← 0x").hex(v as u64, 8).done();
        stages5(i, fetch, dec, Text::new().s("ALU: imm << 16 = 0x").hex(v as u64, 8).done(), "NOP", wbx)
    } else if op == 0x0A {
        let dec = dollar("Decode SLTI ", t).s(", $").dec(s as u64).s(", ").sint(si).done();
        stages5(i, fetch, dec, dollar("ALU: (", s).s(" < ").sint(si).s(") ? 1 : 0 = ").dec(v as u64).done(), "NOP", wb)
    } else if op == 0x0B {
        let dec = dollar("Decode SLTIU ", t).s(", $").dec(s as u64).s(", ").dec((im & 0xFFFFu32) as u64).done();
        stages5(i, fetch, dec, dollar("ALU: (", s).s(" < ").dec((im & 0xFFFFu32) as u64).s(" unsigned) ? 1 : 0 = ").dec(v as u64).done(), "NOP", wb)
    } else if op == 0x0E {
        let dec = dollar("Decode XORI ", t).s(", $").dec(s as u64).s(", 0x").hex((im & 0xFFFFu32) as u64, 4).done();
        stages5(i, fetch, dec, dollar("ALU: ", s).s(" ^ 0x").hex((im & 0xFFFFu32) as u64, 4).s(" = ").dec(v as u64).done(), "NOP", wb)
    } else {
        let name = if op == 0x09 { "Decode ADDIU " } else { "Decode ADDI " };
        let dec = dollar(name, t).s(", $").dec(s as u64).s(", ").sint(si).done();
        stages5(i, fetch, dec, dollar("ALU: ", s).s(" + ").sint(si).s(" = ").dec(v as u64).done(), "NOP", wb)
    }
}

/// LUI, SLTI, SLTIU, XORI, ADDI and ADDIU.
fn exec_imm(state: &CpuState, regs: &Vec<u32>, m: &[u8], i: u32) -> (r: StepResult)
    requires
        regs@.len() >= 34,
        state.pc as int + 4 <= m@.len(),
        m@.len() <= 0xFFFF_FFFF,
        opcode(i) == 0x0F || opcode(i) == 0x0A || opcode(i) == 0x0B || opcode(i) == 0x0E || opcode(i) == 0x08 || opcode(i) == 0x09,
    ensures
        r.error is None ==> r.undo_log@ == write_log(regs@, state.pc, r.new_state, rt(i)),
        reports(*state, m@, r, outcome(regs@, m@, state.pc, None, i), i),
        r.error is None ==> stage_actions(r.pipeline_stages@) == mips_actions(regs@, m@, state.pc, None, i),
        r.error is None ==> faithful(regs@, state.pc, m@, r.undo_log@),
        r.error is None && r.io_input_requested is None ==> replays(regs@, state.pc, r.undo_log@, r.new_state),
        r.error is None ==> spares_reg0(r.undo_log@),
        r.cycles_added <= 5,
        r.pipeline_stages@.len() <= 5,
{
    let pc = state.pc;
    let next = pc + 4;
    let op = i >> 26u32;
    let a = regs[rs_f(i) as usize];
    let im = imm_f(i);
    let v: u32 = if op == 0x0F {
        (im & 0xFFFFu32) << 16u32
    } else if op == 0x0A {
        if signed_lt(a, im) { 1 } else { 0 }
    } else if op == 0x0B {
        if a < (im & 0xFFFFu32) { 1 } else { 0 }
    } else if op == 0x0E {
        a ^ (im & 0xFFFFu32)
    } else {
        tq_word(signed_of(a) + signed_of(im))
    };
    let st = imm_stages(i, pc, v);
    let mut c = Changes::start(regs, pc, m);
    let t = rt_f(i);
    if t > 0 {
        c.set(t as usize, v);
    }
    c.jump(pc, next);
    c.finish(next, false, ev_of(false, true), 5, i, None, st)
}

fn mem_stages(i: u32, pc: u32, addr: u32, mem: String, wb: String) -> (st: Vec<PipelineCycleInfo>)
    ensures
        stage_actions(st@) == mem_actions(pc, i, addr, mem@, wb@),
        stage_names(st@) == five_stages(),
        all_carry(st@, Some(i)),
        st@.len() == 5,
{
    let op = i >> 26u32;
    let s = rs_f(i);
    let t = rt_f(i);
    let si = signed_of(imm_f(i));
    let name = if op == 0x20 {
        "Decode LB $"
    } else if op == 0x21 {
        "Decode LH $"
    } else if op == 0x23 {
        "Decode LW $"
    } else if op == 0x2B {
        "Decode SW $"
    } else if op == 0x28 {
        "Decode SB $"
    } else {
        "Decode SH $"
    };
    let dec = Text::new().s(name).dec(t as u64).s(", ").sint(si).s("($").dec(s as u64).s(")").done();
    let ex = dollar("addr = ", s).s(" + ").sint(si).s(" = 0x").hex(addr as u64, 8).done();
    pipeline_5(Some(i), fetch_text(i, pc), dec, ex, mem, wb)
}

/// LB, LH and LW.
fn exec_load(state: &CpuState, regs: &Vec<u32>, m: &[u8], i: u32) -> (r: StepResult)
    requires
        regs@.len() >= 34,
        state.pc as int + 4 <= m@.len(),
        m@.len() <= 0xFFFF_FFFF,
        opcode(i) == 0x20 || opcode(i) == 0x21 || opcode(i) == 0x23,
    ensures
        r.error is None ==> r.undo_log@ == write_log(regs@, state.pc, r.new_state, rt(i)),
        reports(*state, m@, r, outcome(regs@, m@, state.pc, None, i), i),
        r.error is None ==> stage_actions(r.pipeline_stages@) == mips_actions(regs@, m@, state.pc, None, i),
        r.error is None ==> faithful(regs@, state.pc, m@, r.undo_log@),
        r.error is None && r.io_input_requested is None ==> replays(regs@, state.pc, r.undo_log@, r.new_state),
        r.error is None ==> spares_reg0(r.undo_log@),
        r.cycles_added <= 5,
        r.pipeline_stages@.len() <= 5,
{
    let pc = state.pc;
    let next = pc + 4;
    let op = i >> 26u32;
    let addr = add_w(regs[rs_f(i) as usize], imm_f(i));
    let t = rt_f(i);
    let (v, memtext, wbtext): (u32, String, String) = if op == 0x20 {
        match load8(m, addr) {
            Err(e) => {
                return error_result(state, Some(i), e);
            },
            Ok(b) => {
                let v = if b >= 128 { b as u32 + 0xFFFF_FF00 } else { b as u32 };
                let mt = Text::new().s("Mem[0x").hex(addr as u64, 8).s("] (byte) = 0x").hex(b as u64, 2).s(" → sign-ext → 0x").hex(v as u64, 8).done();
                (v, mt, dollar("", t).s(" ← 0x").hex(v as u64, 8).done())
            },
        }
    } else if op == 0x21 {
        match load16(m, addr) {
            Err(e) => {
                return error_result(state, Some(i), e);
            },
            Ok(h) => {
                let v = if h >= 0x8000 { h as u32 + 0xFFFF_0000 } else { h as u32 };
                let mt = Text::new().s("Mem[0x").hex(addr as u64, 8).s("] (half) = 0x").hex(h as u64, 4).s(" → sign-ext → 0x").hex(v as u64, 8).done();
                (v, mt, dollar("", t).s(" ← 0x").hex(v as u64, 8).done())
            },
        }
    } else {
        match load32(m, addr) {
            Err(e) => {
                return error_result(state, Some(i), e);
            },
            Ok(w) => {
                let mt = Text::new().s("Mem[0x").hex(addr as u64, 8).s("] = ").dec(w as u64).done();
                (w, mt, dollar("", t).s(" ← ").dec(w as u64).done())
            },
        }
    };
    let st = mem_stages(i, pc, addr, memtext, wbtext);
    let mut c = Changes::start(regs, pc, m);
    if t > 0 {
        c.set(t as usize, v);
    }
    c.jump(pc, next);
    c.finish(next, false, ev_of(true, true), 5, i, None, st)
}

/// SB, SH and SW.
fn exec_store(state: &CpuState, regs: &Vec<u32>, m: &[u8], i: u32) -> (r: StepResult)
    requires
        regs@.len() >= 34,
        state.pc as int + 4 <= m@.len(),
        m@.len() <= 0xFFFF_FFFF,
        opcode(i) == 0x28 || opcode(i) == 0x29 || opcode(i) == 0x2B,
    ensures
        r.error is None ==> r.undo_log@ == store_log(m@, opcode(i), modw(regs@[rs(i) as int] + imm(i)), regs@[rt(i) as int], state.pc),
        reports(*state, m@, r, outcome(regs@, m@, state.pc, None, i), i),
        r.error is None ==> stage_actions(r.pipeline_stages@) == mips_actions(regs@, m@, state.pc, None, i),
        r.error is None ==> faithful(regs@, state.pc, m@, r.undo_log@),
        r.error is None && r.io_input_requested is None ==> replays(regs@, state.pc, r.undo_log@, r.new_state),
        r.error is None ==> spares_reg0(r.undo_log@),
        r.cycles_added <= 5,
        r.pipeline_stages@.len() <= 5,
{
    let pc = state.pc;
    let next = pc + 4;
    let op = i >> 26u32;
    let addr = add_w(regs[rs_f(i) as usize], imm_f(i));
    let v = regs[rt_f(i) as usize];
    let w: u32 = if op == 0x28 { 1 } else if op == 0x29 { 2 } else { 4 };
    if !((addr as usize) < m.len() && m.len() - (addr as usize) >= w as usize) {
        return error_result(state, Some(i), oob_error(addr, w as usize, m.len()));
    }
    let memtext = if op == 0x2B {
        Text::new().s("Mem[0x").hex(addr as u64, 8).s("] ← ").dec(v as u64).done()
    } else if op == 0x28 {
        Text::new().s("Mem[0x").hex(addr as u64, 8).s("] ← 0x").hex((v & 0xFFu32) as u64, 2).done()
    } else {
        Text::new().s("Mem[0x").hex(addr as u64, 8).s("] ← 0x").hex((v & 0xFFFFu32) as u64, 4).done()
    };
    let st = mem_stages(i, pc, addr, memtext, lit("NOP"));
    let mut c = Changes::start(regs, pc, m);
    let au = addr as usize;
    if op == 0x28 {
        c.write(addr, (v & 0xFFu32) as u8, m[au]);
    } else if op == 0x29 {
        let h = v & 0xFFFFu32;
        c.write(addr, (h % 256) as u8, m[au]);
        c.write(addr + 1, (h / 256) as u8, m[au + 1]);
    } else {
        c.write(addr, (v % 256) as u8, m[au]);
        c.write(addr + 1, ((v / 0x100) % 256) as u8, m[au + 1]);
        c.write(addr + 2, ((v / 0x1_0000) % 256) as u8, m[au + 2]);
        c.write(addr + 3, ((v / 0x100_0000) % 256) as u8, m[au + 3]);
    }
    c.jump(pc, next);
    c.finish(next, false, ev_of(true, false), 5, i, None, st)
}

/// BEQ, BNE, J and JAL.
#[verifier::rlimit(80)]
#[verifier::spinoff_prover]
fn exec_jump(state: &CpuState, regs: &Vec<u32>, m: &[u8], i: u32) -> (r: StepResult)
    requires
        regs@.len() >= 34,
        state.pc as int + 4 <= m@.len(),
        m@.len() <= 0xFFFF_FFFF,
        opcode(i) == 0x04 || opcode(i) == 0x05 || opcode(i) == 0x02 || opcode(i) == 0x03,
    ensures
        reports(*state, m@, r, outcome(regs@, m@, state.pc, None, i), i),
        r.error is None ==> stage_actions(r.pipeline_stages@) == mips_actions(regs@, m@, state.pc, None, i),
        r.error is None ==> faithful(regs@, state.pc, m@, r.undo_log@),
        r.error is None && r.io_input_requested is None ==> replays(regs@, state.pc, r.undo_log@, r.new_state),
        r.error is None ==> spares_reg0(r.undo_log@),
        opcode(i) == 0x04 || opcode(i) == 0x05 || opcode(i) == 0x02 ==> r.undo_log@ == seq![UndoEntry::Pc { old_value: state.pc, new_value: r.new_state.pc }],
        opcode(i) == 0x03 ==> r.undo_log@ == write_log(regs@, state.pc, r.new_state, 31),
        r.cycles_added <= 5,
        r.pipeline_stages@.len() <= 5,
{
    let pc = state.pc;
    let next = pc + 4;
    let op = i >> 26u32;
    let fetch = fetch_text(i, pc);
    let mut c = Changes::start(regs, pc, m);
    if op == 0x04 || op == 0x05 {
        let s = rs_f(i);
        let t = rt_f(i);
        let take = if op == 0x04 { regs[s as usize] == regs[t as usize] } else { regs[s as usize] != regs[t as usize] };
        let si = signed_of(imm_f(i));
        let target = tq_word((pc as i64 + 4 + 4 * si) % 0x1_0000_0000);
        let to = if take { target } else { next };
        let (name, eq, ne) = if op == 0x04 { ("BEQ: $", " == $", " != $") } else { ("BNE: $", " != $", " == $") };
        let ex = if take {
            Text::new().s(name).dec(s as u64).s(eq).dec(t as u64).s(" → taken, PC ← 0x").hex(target as u64, 8).done()
        } else {
            Text::new().s(name).dec(s as u64).s(ne).dec(t as u64).s(" → not taken").done()
        };
        let st = stages5(i, fetch, lit(if op == 0x04 { "Decode BEQ" } else { "Decode BNE" }), ex, "NOP", lit("PC updated"));
        c.jump(pc, to);
        c.finish(to, false, ev_of(false, false), 5, i, None, st)
    } else {
        let to = (pc & 0xF000_0000u32) | ((i & 0x03FF_FFFFu32) << 2u32);
        if op == 0x02 {
            let st = stages5(i, fetch, lit("Decode J"), Text::new().s("PC ← 0x").hex(to as u64, 8).done(), "NOP", lit("PC updated"));
            c.jump(pc, to);
            c.finish(to, false, ev_of(false, false), 5, i, None, st)
        } else {
            let st = stages5(i, fetch, lit("Decode JAL"), Text::new().s("$ra ← PC+4, PC ← 0x").hex(to as u64, 8).done(), "NOP", lit("$ra, PC updated"));
            c.set(31, next);
            c.jump(pc, to);
            c.finish(to, false, ev_of(false, true), 5, i, None, st)
        }
    }
}

impl Default for MipsPlugin {
    fn default() -> (p: Self) {
        MipsPlugin
    }
}

/// The conventional name of register `$<i>`.
pub open spec fn mips_reg_name(i: int) -> Seq<char> {
    if i == 0 {
        "zero"@
    } else if i == 1 {
        "at"@
    } else if i == 2 {
        "v0"@
    } else if i == 3 {
        "v1"@
    } else if i == 4 {
        "a0"@
    } else if i == 5 {
        "a1"@
    } else if i == 6 {
        "a2"@
    } else if i == 7 {
        "a3"@
    } else if i == 8 {
        "t0"@
    } else if i == 9 {
        "t1"@
    } else if i == 10 {
        "t2"@
    } else if i == 11 {
        "t3"@
    } else if i == 12 {
        "t4"@
    } else if i == 13 {
        "t5"@
    } else if i == 14 {
        "t6"@
    } else if i == 15 {
        "t7"@
    } else if i == 16 {
        "s0"@
    } else if i == 17 {
        "s1"@
    } else if i == 18 {
        "s2"@
    } else if i == 19 {
        "s3"@
    } else if i == 20 {
        "s4"@
    } else if i == 21 {
        "s5"@
    } else if i == 22 {
        "s6"@
    } else if i == 23 {
        "s7"@
    } else if i == 24 {
        "t8"@
    } else if i == 25 {
        "t9"@
    } else if i == 26 {
        "k0"@
    } else if i == 27 {
        "k1"@
    } else if i == 28 {
        "gp"@
    } else if i == 29 {
        "sp"@
    } else if i == 30 {
        "s8"@
    } else {
        "ra"@
    }
}

fn reg_name(i: usize) -> (r: &'static str)
    ensures
        r@ == mips_reg_name(i as int),
{
    if i == 0 {
        "zero"
    } else if i == 1 {
        "at"
    } else if i == 2 {
        "v0"
    } else if i == 3 {
        "v1"
    } else if i == 4 {
        "a0"
    } else if i == 5 {
        "a1"
    } else if i == 6 {
        "a2"
    } else if i == 7 {
        "a3"
    } else if i == 8 {
        "t0"
    } else if i == 9 {
        "t1"
    } else if i == 10 {
        "t2"
    } else if i == 11 {
        "t3"
    } else if i == 12 {
        "t4"
    } else if i == 13 {
        "t5"
    } else if i == 14 {
        "t6"
    } else if i == 15 {
        "t7"
    } else if i == 16 {
        "s0"
    } else if i == 17 {
        "s1"
    } else if i == 18 {
        "s2"
    } else if i == 19 {
        "s3"
    } else if i == 20 {
        "s4"
    } else if i == 21 {
        "s5"
    } else if i == 22 {
        "s6"
    } else if i == 23 {
        "s7"
    } else if i == 24 {
        "t8"
    } else if i == 25 {
        "t9"
    } else if i == 26 {
        "k0"
    } else if i == 27 {
        "k1"
    } else if i == 28 {
        "gp"
    } else if i == 29 {
        "sp"
    } else if i == 30 {
        "s8"
    } else {
        "ra"
    }
}

impl MipsPlugin {
    pub fn new() -> (p: Self) {
        MipsPlugin
    }

    pub fn name(&self) -> (r: &'static str)
        ensures
            r@ == "MIPS"@,
    {
        "MIPS"
    }

    /// PC at 0; $0-$31, HI and LO cleared.
    pub fn reset(&self, config: &ResetConfig) -> (s: CpuState)
        ensures
            s.pc == 0,
            s.regs@ == Seq::new(34, |k: int| 0u32),
            !s.halted,
    {
        let regs = vec![0u32; 34];
        assert(regs@ =~= Seq::new(34, |k: int| 0u32));
        CpuState { pc: 0, regs, halted: false }
    }

    /// Executes one instruction.
    pub fn step(&self, state: &CpuState, memory: &[u8], mode: StepMode, input: Option<&str>) -> (r: StepResult)
        requires
            memory@.len() <= 0xFFFF_FFFF,
        ensures
            step_post(*state, memory@, input_view(input), r),
            r.cycles_added <= 5,
            r.pipeline_stages@.len() <= 5,
    {
        if state.halted {
            return halted_result(state);
        }
        let regs = pad_regs(&state.regs);
        let i = match load32(memory, state.pc) {
            Ok(v) => v,
            Err(e) => {
                return error_result(state, None, e);
            },
        };
        let op = i >> 26u32;
        let r = if op == 0 {
            if i & 0x3Fu32 == 0x0C {
                exec_syscall(state, &regs, memory, i, input)
            } else {
                exec_r(state, &regs, memory, i)
            }
        } else if op == 0x0F || op == 0x0A || op == 0x0B || op == 0x0E || op == 0x08 || op == 0x09 {
            exec_imm(state, &regs, memory, i)
        } else if op == 0x20 || op == 0x21 || op == 0x23 {
            exec_load(state, &regs, memory, i)
        } else if op == 0x28 || op == 0x29 || op == 0x2B {
            exec_store(state, &regs, memory, i)
        } else if op == 0x04 || op == 0x05 || op == 0x02 || op == 0x03 {
            exec_jump(state, &regs, memory, i)
        } else {
            let e = Text::new().s("Unknown MIPS opcode 0x").hex(op as u64, 2).s(" at PC=0x").hex(state.pc as u64, 8).done();
            error_result(state, Some(i), e)
        };
        proof {
            if state.regs@.len() >= 34 {
                assert(regs@ == state.regs@);
            } else if r.error is None {
                lemma_faithful_prefix(regs@, state.regs@, state.pc, memory@, r.undo_log@);
            }
        }
        r
    }

    /// Register names for display: `$<i> (<name>)`, then HI and LO.
    pub fn register_schema(&self) -> (s: crate::plugin::RegisterSchema)
        ensures
            s.pc_name@ == "PC"@,
            s.reg_names@.len() == 34,
            forall|i: int| 0 <= i < 32 ==> (#[trigger] s.reg_names@[i])@ == "$"@ + dec_text(i as nat) + " ("@ + mips_reg_name(i) + ")"@,
            s.reg_names@[32]@ == "HI"@,
            s.reg_names@[33]@ == "LO"@,
    {
        let mut out: Vec<String> = Vec::new();
        let mut k: usize = 0;
        while k < 32
            invariant
                k <= 32,
                out@.len() == k,
                forall|j: int| 0 <= j < k ==> (#[trigger] out@[j])@ == "$"@ + dec_text(j as nat) + " ("@ + mips_reg_name(j) + ")"@,
            decreases 32 - k,
        {
            out.push(Text::new().s("$").dec(k as u64).s(" (").s(reg_name(k)).s(")").done());
            k = k + 1;
        }
        out.push(lit("HI"));
        out.push(lit("LO"));
        crate::plugin::RegisterSchema { pc_name: lit("PC"), reg_names: out }
    }
}

// ---------------------------------------------------------------------------
// What the instructions compute
// ---------------------------------------------------------------------------

/// An R-type instruction (opcode 0) other than SYSCALL, JR, JALR, the
/// multiplications and divisions and MFHI/MFLO writes to rd the sum or
/// difference of rs and rt modulo 2^32, their and, or, exclusive-or or
/// nor, their signed or unsigned comparison, or rt shifted by the shift
/// amount (bits 10-6) or by the low five bits of rs; MFHI and MFLO copy HI
/// and LO. Each moves to the next instruction.
pub proof fn lemma_r_type_ops(s: CpuState, m: Seq<u8>, input: Option<Seq<char>>, r: StepResult)
    requires
        step_post(s, m, input, r),
        !s.halted,
        s.regs@.len() >= 34,
        in_bounds(s.pc, 4, m.len()),
        opcode(read32(m, s.pc as int)) == 0,
        rd(read32(m, s.pc as int)) != 0,
        ({
            let f = read32(m, s.pc as int) & 0x3Fu32;
            f == 0x20 || f == 0x22 || f == 0x24 || f == 0x25 || f == 0x26 || f == 0x27 || f == 0x2A || f == 0x2B
                || f == 0x00 || f == 0x02 || f == 0x03 || f == 0x04 || f == 0x06 || f == 0x07 || f == 0x10 || f == 0x12
        }),
    ensures
        ({
            let i = read32(m, s.pc as int);
            let f = i & 0x3Fu32;
            let a = s.regs@[rs(i) as int];
            let b = s.regs@[rt(i) as int];
            let sh = (i >> 6u32) & 31u32;
            let n = a & 31u32;
            let x = r.new_state.regs@[rd(i) as int];
            &&& r.error is None
            &&& r.new_state.pc == (s.pc + 4) as u32
            &&& f == 0x20 ==> x as int == (a + b) % 0x1_0000_0000
            &&& f == 0x22 ==> x as int == (a - b) % 0x1_0000_0000
            &&& f == 0x24 ==> x == a & b
            &&& f == 0x25 ==> x == a | b
            &&& f == 0x26 ==> x == a ^ b
            &&& f == 0x27 ==> x == !(a | b)
            &&& f == 0x2A ==> x == (if (a as i32) < (b as i32) { 1u32 } else { 0u32 })
            &&& f == 0x2B ==> x == (if a < b { 1u32 } else { 0u32 })
            &&& f == 0x00 ==> x == b << sh
            &&& f == 0x02 ==> x == b >> sh
            &&& f == 0x03 ==> x == ((b as i32) >> sh) as u32
            &&& f == 0x04 ==> x == b << n
            &&& f == 0x06 ==> x == b >> n
            &&& f == 0x07 ==> x == ((b as i32) >> n) as u32
            &&& f == 0x10 ==> x == s.regs@[32]
            &&& f == 0x12 ==> x == s.regs@[33]
        }),
{
    let i = read32(m, s.pc as int);
    let a = s.regs@[rs(i) as int];
    let b = s.regs@[rt(i) as int];
    let sh = (i >> 6u32) & 31u32;
    let n = a & 31u32;
    lemma_field_bits(i, a);
    assert(padded(s.regs@) == s.regs@);
    lemma_signed_is_i32(a, b);
    lemma_signed_wraps(a, b);
    lemma_sra_is_i32_shift(b, sh);
    lemma_sra_is_i32_shift(b, n);
    assert(reports(s, m, r, outcome(padded(s.regs@), m, s.pc, input, i), i));
    let next = (s.pc + 4) as u32;
    match r_value(funct(i), shamt(i), a, b, s.regs@, next) {
        Some(v) => {
            assert(r.new_state.regs@ == wr(s.regs@, rd(i), v));
            assert(r.new_state.regs@[rd(i) as int] == v);
        },
        None => {},
    }
}

/// ADDI and ADDIU add the sign-extended immediate to rs (modulo 2^32);
/// SLTI and SLTIU compare rs with the sign-extended and the zero-extended
/// immediate, signed and unsigned; XORI takes the exclusive-or with the
/// zero-extended immediate; LUI puts the immediate in the upper half. The
/// result goes to rt and the step moves to the next instruction.
pub proof fn lemma_immediate_ops(s: CpuState, m: Seq<u8>, input: Option<Seq<char>>, r: StepResult)
    requires
        step_post(s, m, input, r),
        !s.halted,
        s.regs@.len() >= 34,
        in_bounds(s.pc, 4, m.len()),
        ({
            let op = read32(m, s.pc as int) >> 26u32;
            op == 0x08 || op == 0x09 || op == 0x0A || op == 0x0B || op == 0x0E || op == 0x0F
        }),
        rt(read32(m, s.pc as int)) != 0,
    ensures
        ({
            let i = read32(m, s.pc as int);
            let op = i >> 26u32;
            let a = s.regs@[rs(i) as int];
            let z = i & 0xFFFFu32;
            let se = ((i as i16) as i32) as u32;
            let x = r.new_state.regs@[rt(i) as int];
            &&& r.error is None
            &&& r.new_state.pc == (s.pc + 4) as u32
            &&& (op == 0x08 || op == 0x09) ==> x as int == (a + se) % 0x1_0000_0000
            &&& op == 0x0A ==> x == (if (a as i32) < (se as i32) { 1u32 } else { 0u32 })
            &&& op == 0x0B ==> x == (if a < z { 1u32 } else { 0u32 })
            &&& op == 0x0E ==> x == a ^ z
            &&& op == 0x0F ==> x == z << 16u32
        }),
{
    let i = read32(m, s.pc as int);
    let a = s.regs@[rs(i) as int];
    let z = i & 0xFFFFu32;
    let se = ((i as i16) as i32) as u32;
    lemma_field_bits(i, 0);
    assert(padded(s.regs@) == s.regs@);
    lemma_signed_is_i32(a, se);
    lemma_signed_wraps(a, se);
    assert(reports(s, m, r, outcome(padded(s.regs@), m, s.pc, input, i), i));
}

/// BEQ and BNE go `4 * offset` bytes past the next instruction (offset the
/// sign-extended immediate) when rs and rt are equal, resp. differ, and to
/// the next instruction otherwise; no register changes.
pub proof fn lemma_branches(s: CpuState, m: Seq<u8>, input: Option<Seq<char>>, r: StepResult)
    requires
        step_post(s, m, input, r),
        !s.halted,
        s.regs@.len() >= 34,
        in_bounds(s.pc, 4, m.len()),
        (read32(m, s.pc as int) >> 26u32) == 0x04 || (read32(m, s.pc as int) >> 26u32) == 0x05,
    ensures
        ({
            let i = read32(m, s.pc as int);
            let a = s.regs@[rs(i) as int];
            let b = s.regs@[rt(i) as int];
            let off = (i as i16) as int;
            let taken = if (i >> 26u32) == 0x04 { a == b } else { a != b };
            &&& r.error is None
            &&& r.new_state.regs@ == s.regs@
            &&& taken ==> r.new_state.pc as int == (s.pc + 4 + 4 * off) % 0x1_0000_0000
            &&& !taken ==> r.new_state.pc == (s.pc + 4) as u32
        }),
{
    let i = read32(m, s.pc as int);
    lemma_field_bits(i, 0);
    assert(padded(s.regs@) == s.regs@);
    assert(reports(s, m, r, outcome(padded(s.regs@), m, s.pc, input, i), i));
}

/// J (opcode 2) goes to the upper four bits of the pc followed by the low
/// 26 bits of the instruction times four; JAL (3) does the same and writes
/// the address of the next instruction to $31. Loads (LB 0x20, LH 0x21, LW
/// 0x23) from rs plus the sign-extended immediate, modulo 2^32, write to rt
/// the byte or little-endian halfword there sign-extended, or the
/// little-endian word, and go to the next instruction; an access past the
/// end of memory is an error.
pub proof fn lemma_jumps_and_loads(s: CpuState, m: Seq<u8>, input: Option<Seq<char>>, r: StepResult)
    requires
        step_post(s, m, input, r),
        !s.halted,
        s.regs@.len() >= 34,
        in_bounds(s.pc, 4, m.len()),
        ({
            let op = read32(m, s.pc as int) >> 26u32;
            op == 0x02 || op == 0x03 || op == 0x20 || op == 0x21 || op == 0x23
        }),
        rt(read32(m, s.pc as int)) != 0,
    ensures
        ({
            let i = read32(m, s.pc as int);
            let op = i >> 26u32;
            let target = (s.pc & 0xF000_0000u32) | ((i & 0x03FF_FFFFu32) << 2u32);
            let imm = ((i as i16) as i32) as u32;
            let a = (s.regs@[rs(i) as int] + imm) % 0x1_0000_0000;
            let width: int = if op == 0x20 { 1 } else if op == 0x21 { 2 } else { 4 };
            let x = r.new_state.regs@[rt(i) as int] as int;
            let b0 = m[a] as int;
            let h = m[a] as int + 256 * m[a + 1] as int;
            &&& op == 0x02 ==> r.error is None && r.new_state.pc == target && r.new_state.regs@ == s.regs@
            &&& op == 0x03 ==> r.error is None && r.new_state.pc == target && r.new_state.regs@ == s.regs@.update(31, (s.pc
                + 4) as u32)
            &&& (op == 0x20 || op == 0x21 || op == 0x23) ==> (r.error is None <==> a + width <= m.len())
            &&& (op == 0x20 || op == 0x21 || op == 0x23) && r.error is None ==> r.new_state.pc == (s.pc + 4) as u32
            &&& op == 0x20 && r.error is None ==> x == (if b0 >= 128 { b0 + 0xFFFF_FF00 } else { b0 })
            &&& op == 0x21 && r.error is None ==> x == (if h >= 0x8000 { h + 0xFFFF_0000 } else { h })
            &&& op == 0x23 && r.error is None ==> x == h + 0x1_0000 * m[a + 2] as int + 0x100_0000 * m[a + 3] as int
        }),
{
    let i = read32(m, s.pc as int);
    lemma_field_bits(i, 0);
    assert(padded(s.regs@) == s.regs@);
    assert(reports(s, m, r, outcome(padded(s.regs@), m, s.pc, input, i), i));
    let t = rt(i);
    if r.error is None && ((i >> 26u32) == 0x20 || (i >> 26u32) == 0x21 || (i >> 26u32) == 0x23) {
        assert(r.new_state.regs@[t as int] == r.new_state.regs@[rt(i) as int]);
    }
}

} // verus!

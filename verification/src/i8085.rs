//! Intel 8085: registers A, B, C, D, E, H, L at indices 0-6, SP at 7 and the
//! flags S Z AC P C as bits 4-0 of register 8; a 16-bit program counter.
//! An operand code (bits 5-3 or 2-0 of an opcode) names B, C, D, E, H, L,
//! the byte at HL or A, in that order.
use vstd::prelude::*;
use crate::plugin::{
    CpuState, ResetConfig, StepMode, StepResult, TraceEvent, PipelineCycleInfo, RegisterSchema,
    failed, stays_halted, three_stages, error_result, halted_result, pipeline_3, stage_names, stage_actions,
    all_carry,
};
use crate::effects::{Effect, Changes, produced, peek, poke, peek_at};
use crate::memory::{in_bounds, oob_message, oob_error};
use crate::text::hex_text;
use crate::fmt::{Text, lit};
use crate::undo::{faithful, faithful_mem};

verus! {

pub struct I8085Plugin;

// ---------------------------------------------------------------------------
// Semantics
// ---------------------------------------------------------------------------

/// The 16-bit value of a register pair.
pub open spec fn pair(hi: u32, lo: u32) -> u16 {
    ((hi as u16) << 8u16) | (lo as u16)
}

pub open spec fn hl(r: Seq<u32>) -> u16 {
    pair(r[5], r[6])
}

pub open spec fn sp_of(r: Seq<u32>) -> u32 {
    r[7] & 0xFFFFu32
}

/// `v` modulo 2^16.
pub open spec fn wrap16(v: int) -> u16 {
    (v % 0x10000) as u16
}

/// The little-endian 16-bit address stored at `a`.
pub open spec fn word_at(m: Seq<u8>, a: int) -> u32 {
    (peek(m, a) as u32) | ((peek(m, a + 1) as u32) << 8u32)
}

/// The register index of a register operand code (every code but 6).
pub open spec fn code_reg(code: int) -> int {
    if code == 7 {
        0
    } else {
        code + 1
    }
}

/// The 8-bit operand named by `code`.
pub open spec fn operand(r: Seq<u32>, m: Seq<u8>, code: int) -> u8 {
    if code == 6 {
        peek(m, hl(r) as int)
    } else {
        r[code_reg(code)] as u8
    }
}

/// Registers and memory after writing `v` to the operand named by `code`.
pub open spec fn put8(r: Seq<u32>, m: Seq<u8>, code: int, v: u8) -> (Seq<u32>, Seq<u8>) {
    if code == 6 {
        (r, poke(m, hl(r) as int, v))
    } else {
        (r.update(code_reg(code), v as u32), m)
    }
}

/// The number of one bits.
pub open spec fn ones(x: u8) -> nat
    decreases x,
{
    if x == 0 {
        0
    } else {
        (x % 2) as nat + ones(x / 2)
    }
}

/// The S, Z and P flags of a result.
pub open spec fn szp_bits(v: u8) -> u32 {
    (if v >= 128 { 16u32 } else { 0u32 }) | (if v == 0 { 8u32 } else { 0u32 }) | (if ones(v) % 2 == 0 { 2u32 } else { 0u32 })
}

/// `f` with S, Z and P set from `v`.
pub open spec fn with_szp(f: u32, v: u8) -> u32 {
    (f & !26u32) | szp_bits(v)
}

pub open spec fn carry_in(f: u32) -> u8 {
    if f & 1u32 != 0 {
        1
    } else {
        0
    }
}

/// Flags after `a + b + c`.
pub open spec fn add_flags(f: u32, a: u8, b: u8, c: u8) -> u32 {
    with_szp(f & !31u32, ((a + b + c) % 256) as u8) | (if a + b + c > 255 { 1u32 } else { 0u32 })
        | (if (a & 15u8) + (b & 15u8) + c > 15 { 4u32 } else { 0u32 })
}

/// Flags after `a - b - c` (carry set on borrow).
pub open spec fn sub_flags(f: u32, a: u8, b: u8, c: u8) -> u32 {
    with_szp(f & !31u32, ((a - b - c) % 256) as u8) | (if a - b - c < 0 { 1u32 } else { 0u32 })
        | (if (a & 15u8) - (b & 15u8) - c < 0 { 4u32 } else { 0u32 })
}

/// The accumulator operation of kind `k`: ADD, ADC, SUB, SBB, ANA, XRA, ORA, CMP.
pub open spec fn alu_result(k: int, a: u8, b: u8, f: u32) -> u8 {
    if k == 0 {
        ((a + b) % 256) as u8
    } else if k == 1 {
        ((a + b + carry_in(f)) % 256) as u8
    } else if k == 3 {
        ((a - b - carry_in(f)) % 256) as u8
    } else if k == 4 {
        a & b
    } else if k == 5 {
        a ^ b
    } else if k == 6 {
        a | b
    } else {
        ((a - b) % 256) as u8
    }
}

pub open spec fn alu_flags(k: int, a: u8, b: u8, f: u32) -> u32 {
    if k == 0 {
        add_flags(f, a, b, 0)
    } else if k == 1 {
        add_flags(f, a, b, carry_in(f))
    } else if k == 3 {
        sub_flags(f, a, b, carry_in(f))
    } else if k == 4 {
        with_szp((f & !31u32) | 4u32, a & b)
    } else if k == 5 {
        with_szp(f & !31u32, a ^ b)
    } else if k == 6 {
        with_szp(f & !31u32, a | b)
    } else {
        sub_flags(f, a, b, 0)
    }
}

/// Flags after INR of `old` (carry kept).
pub open spec fn inr_flags(f: u32, old: u8) -> u32 {
    with_szp(f & 1u32, ((old + 1) % 256) as u8) | (if (old & 15u8) + 1 > 15 { 4u32 } else { 0u32 })
}

/// Flags after DCR of `old` (carry kept).
pub open spec fn dcr_flags(f: u32, old: u8) -> u32 {
    with_szp(f & 1u32, ((old - 1) % 256) as u8) | (if (old & 15u8) - 1 < 0 { 4u32 } else { 0u32 })
}

/// The condition of a conditional jump, call or return: NZ, Z, NC, C, PO, PE, P, M.
pub open spec fn cond(f: u32, k: int) -> bool {
    if k == 0 {
        f & 8u32 == 0
    } else if k == 1 {
        f & 8u32 != 0
    } else if k == 2 {
        f & 1u32 == 0
    } else if k == 3 {
        f & 1u32 != 0
    } else if k == 4 {
        f & 2u32 == 0
    } else if k == 5 {
        f & 2u32 != 0
    } else if k == 6 {
        f & 16u32 == 0
    } else {
        f & 16u32 != 0
    }
}

/// The flags byte pushed by PUSH PSW.
pub open spec fn packed_flags(f: u8) -> u8 {
    (if f & 16u8 != 0 { 0x80u8 } else { 0u8 }) | (if f & 8u8 != 0 { 0x40u8 } else { 0u8 }) | (if f & 4u8 != 0 {
        0x10u8
    } else {
        0u8
    }) | (if f & 2u8 != 0 { 4u8 } else { 0u8 }) | 2u8 | (if f & 1u8 != 0 { 1u8 } else { 0u8 })
}

/// The flags register loaded by POP PSW.
pub open spec fn unpacked_flags(b: u8) -> u32 {
    (if b & 0x80u8 != 0 { 16u32 } else { 0u32 }) | (if b & 0x40u8 != 0 { 8u32 } else { 0u32 }) | (if b & 0x10u8 != 0 {
        4u32
    } else {
        0u32
    }) | (if b & 4u8 != 0 { 2u32 } else { 0u32 }) | (if b & 1u8 != 0 { 1u32 } else { 0u32 })
}

/// DAA: the adjustment, the new carry, the result and the flags.
pub open spec fn daa_adjust(a: u8, f: u32) -> u8 {
    (if (a & 15u8) > 9 || f & 4u32 != 0 { 6u8 } else { 0u8 }) | (if a > 0x99 || f & 1u32 != 0 { 0x60u8 } else { 0u8 })
}

pub open spec fn daa_flags(a: u8, f: u32) -> u32 {
    let adj = daa_adjust(a, f);
    let res = ((a + adj) % 256) as u8;
    let f1 = with_szp(f & !30u32, res);
    let f2 = if a > 0x99 || f & 1u32 != 0 { f1 | 1u32 } else { f1 & !1u32 };
    if (a & 15u8) + (adj & 15u8) > 15 {
        f2 | 4u32
    } else {
        f2
    }
}

/// RLC, RRC, RAL, RAR (`k` = 0..3): the result and the carry out.
pub open spec fn rotated(k: int, a: u8, f: u32) -> (u8, u8) {
    if k == 0 {
        (((a << 1u8) | ((a >> 7u8) & 1u8)) as u8, (a >> 7u8) & 1u8)
    } else if k == 1 {
        ((((a & 1u8) << 7u8) | (a >> 1u8)) as u8, a & 1u8)
    } else if k == 2 {
        (((a << 1u8) | carry_in(f)) as u8, (a >> 7u8) & 1u8)
    } else {
        (((a >> 1u8) | (carry_in(f) << 7u8)) as u8, a & 1u8)
    }
}

pub open spec fn base_events() -> Seq<TraceEvent> {
    seq![TraceEvent::Fetch, TraceEvent::Decode, TraceEvent::Alu]
}

pub open spec fn ev_w() -> Seq<TraceEvent> {
    base_events().push(TraceEvent::RegWrite)
}

pub open spec fn ev_m() -> Seq<TraceEvent> {
    base_events().push(TraceEvent::Mem)
}

pub open spec fn ev_mw() -> Seq<TraceEvent> {
    base_events().push(TraceEvent::Mem).push(TraceEvent::RegWrite)
}

pub open spec fn fx(regs: Seq<u32>, pc: int, mem: Seq<u8>, events: Seq<TraceEvent>, cycles: u64) -> Effect {
    Effect { regs, pc: pc as u32, halted: false, mem, events, cycles, out: None }
}

/// The stack pointer after pushing two bytes (32-bit wrap-around).
pub open spec fn sp_down(sp: u32) -> u32 {
    if sp >= 2 {
        (sp - 2) as u32
    } else {
        (sp + 0xFFFF_FFFE) as u32
    }
}

pub open spec fn next_addr(a: u32) -> u32 {
    if a == 0xFFFF_FFFF {
        0
    } else {
        (a + 1) as u32
    }
}

/// Memory after pushing the 16-bit value `hi:lo` below the stack pointer.
pub open spec fn pushed(r: Seq<u32>, m: Seq<u8>, hi: u8, lo: u8) -> Seq<u8> {
    let s = sp_down(sp_of(r));
    poke(poke(m, s as int, lo), next_addr(s) as int, hi)
}

/// Registers after a push moves the stack pointer down.
pub open spec fn sp_pushed(r: Seq<u32>) -> Seq<u32> {
    r.update(7, (sp_down(sp_of(r)) as u16) as u32)
}

/// Registers after a pop moves the stack pointer up.
pub open spec fn sp_popped(r: Seq<u32>) -> Seq<u32> {
    r.update(7, ((sp_of(r) + 2) as u16) as u32)
}

/// Opcodes this simulator does not execute.
pub open spec fn unknown(op: u8) -> bool {
    op == 0x08 || op == 0x10 || op == 0x18 || op == 0x28 || op == 0x38 || op == 0xCB || op == 0xD9 || op == 0xDD
        || op == 0xED || op == 0xFD
}

pub open spec fn is_rst(op: u8) -> bool { op & 0xC7u8 == 0xC7u8 }
pub open spec fn is_jcc(op: u8) -> bool { op & 0xC7u8 == 0xC2u8 }
pub open spec fn is_ccc(op: u8) -> bool { op & 0xC7u8 == 0xC4u8 }
pub open spec fn is_rcc(op: u8) -> bool { op & 0xC7u8 == 0xC0u8 }
pub open spec fn is_push(op: u8) -> bool { op & 0xCFu8 == 0xC5u8 }
pub open spec fn is_pop(op: u8) -> bool { op & 0xCFu8 == 0xC1u8 }

/// MOV, MVI, loads, stores, exchanges and LXI.
pub open spec fn move_effect(r: Seq<u32>, m: Seq<u8>, pc: int, op: u8) -> Effect {
    let a16 = word_at(m, pc + 1);
    if 0x40 <= op <= 0x7F {
        let w = put8(r, m, ((op >> 3u8) & 7u8) as int, operand(r, m, (op & 7u8) as int));
        fx(w.0, pc + 1, w.1, ev_w(), 1)
    } else if op & 0xC7u8 == 0x06u8 {
        let w = put8(r, m, ((op >> 3u8) & 7u8) as int, peek(m, pc + 1));
        fx(w.0, pc + 2, w.1, ev_w(), 2)
    } else if op == 0x3A {
        fx(r.update(0, peek(m, a16 as int) as u32), pc + 3, m, ev_mw(), 3)
    } else if op == 0x0A || op == 0x1A {
        let a = if op == 0x0A { pair(r[1], r[2]) } else { pair(r[3], r[4]) };
        fx(r.update(0, peek(m, a as int) as u32), pc + 1, m, ev_mw(), 1)
    } else if op == 0x32 {
        fx(r, pc + 3, poke(m, a16 as int, r[0] as u8), ev_m(), 3)
    } else if op == 0x02 || op == 0x12 {
        let a = if op == 0x02 { pair(r[1], r[2]) } else { pair(r[3], r[4]) };
        fx(r, pc + 1, poke(m, a as int, r[0] as u8), ev_m(), 1)
    } else if op == 0x2A {
        fx(r.update(6, peek(m, a16 as int) as u32).update(5, peek(m, a16 + 1) as u32), pc + 3, m, ev_mw(), 3)
    } else if op == 0x22 {
        fx(r, pc + 3, poke(poke(m, a16 as int, r[6] as u8), a16 + 1, r[5] as u8), ev_m(), 3)
    } else if op == 0xEB {
        fx(r.update(3, r[5]).update(4, r[6]).update(5, r[3]).update(6, r[4]), pc + 1, m, ev_w(), 1)
    } else if op == 0xE3 {
        let s = sp_of(r);
        fx(
            r.update(6, peek(m, s as int) as u32).update(5, peek(m, s + 1) as u32),
            pc + 1,
            poke(poke(m, s as int, r[6] as u8), s + 1, r[5] as u8),
            ev_mw(),
            1,
        )
    } else if op == 0xF9 {
        fx(r.update(7, hl(r) as u32), pc + 1, m, ev_w(), 1)
    } else {
        let v = (peek(m, pc + 1) as u16) | ((peek(m, pc + 2) as u16) << 8u16);
        let r2 = if op == 0x01 {
            r.update(1, (v >> 8u16) as u32).update(2, (v & 0xFFu16) as u32)
        } else if op == 0x11 {
            r.update(3, (v >> 8u16) as u32).update(4, (v & 0xFFu16) as u32)
        } else if op == 0x21 {
            r.update(5, (v >> 8u16) as u32).update(6, (v & 0xFFu16) as u32)
        } else {
            r.update(7, v as u32)
        };
        fx(r2, pc + 3, m, ev_w(), 3)
    }
}

/// Accumulator arithmetic and logic, INR and DCR.
pub open spec fn alu_effect(r: Seq<u32>, m: Seq<u8>, pc: int, op: u8) -> Effect {
    let f = r[8];
    let a = r[0] as u8;
    let k = ((op >> 3u8) & 7u8) as int;
    if 0x80 <= op <= 0xBF || op & 0xC7u8 == 0xC6u8 {
        let imm = op >= 0xC0;
        let b = if imm { peek(m, pc + 1) } else { operand(r, m, (op & 7u8) as int) };
        let r1 = r.update(8, alu_flags(k, a, b, f));
        let r2 = if k == 7 { r1 } else { r1.update(0, alu_result(k, a, b, f) as u32) };
        fx(r2, if imm { pc + 2 } else { pc + 1 }, m, ev_w(), if imm { 2 } else { 1 })
    } else {
        let old = operand(r, m, k);
        let inr = op & 7u8 == 4u8;
        let v = if inr { ((old + 1) % 256) as u8 } else { ((old - 1) % 256) as u8 };
        let w = put8(r.update(8, if inr { inr_flags(f, old) } else { dcr_flags(f, old) }), m, k, v);
        fx(w.0, pc + 1, w.1, ev_w(), 1)
    }
}

/// INX, DCX and DAD.
pub open spec fn pair_effect(r: Seq<u32>, m: Seq<u8>, pc: int, op: u8) -> Effect {
    let rp = ((op >> 4u8) & 3u8) as int;
    let cur = if rp == 0 { pair(r[1], r[2]) } else if rp == 1 { pair(r[3], r[4]) } else if rp == 2 { hl(r) } else { sp_of(r) as u16 };
    if op & 0xCFu8 == 0x09u8 {
        let sum = hl(r) + cur;
        let res = wrap16(sum);
        let f = if sum > 0xFFFF { r[8] | 1u32 } else { r[8] & !1u32 };
        fx(r.update(8, f).update(5, (res >> 8u16) as u32).update(6, (res & 0xFFu16) as u32), pc + 1, m, ev_w(), 1)
    } else {
        let v = if op & 0xCFu8 == 0x03u8 { wrap16(cur + 1) } else { wrap16(cur + 0xFFFF) };
        let r2 = if rp == 0 {
            r.update(1, (v >> 8u16) as u32).update(2, (v & 0xFFu16) as u32)
        } else if rp == 1 {
            r.update(3, (v >> 8u16) as u32).update(4, (v & 0xFFu16) as u32)
        } else if rp == 2 {
            r.update(5, (v >> 8u16) as u32).update(6, (v & 0xFFu16) as u32)
        } else {
            r.update(7, v as u32)
        };
        fx(r2, pc + 1, m, ev_w(), 1)
    }
}

/// DAA, CMA, CMC, STC, rotations, IN, OUT, the no-operations, HLT and PCHL.
pub open spec fn misc_effect(r: Seq<u32>, m: Seq<u8>, pc: int, op: u8) -> Effect {
    let f = r[8];
    let a = r[0] as u8;
    if op == 0x27 {
        fx(r.update(8, daa_flags(a, f)).update(0, ((a + daa_adjust(a, f)) % 256) as u32), pc + 1, m, ev_w(), 1)
    } else if op == 0x2F {
        fx(r.update(0, (!a) as u32), pc + 1, m, ev_w(), 1)
    } else if op == 0x3F {
        fx(r.update(8, if f & 1u32 != 0 { f & !1u32 } else { f | 1u32 }), pc + 1, m, base_events(), 1)
    } else if op == 0x37 {
        fx(r.update(8, f | 1u32), pc + 1, m, base_events(), 1)
    } else if op & 0xE7u8 == 0x07u8 {
        let rot = rotated(((op >> 3u8) & 3u8) as int, a, f);
        fx(r.update(8, (f & !1u32) | (if rot.1 != 0 { 1u32 } else { 0u32 })).update(0, rot.0 as u32), pc + 1, m, ev_w(), 1)
    } else if op == 0xDB {
        fx(r.update(0, 0), pc + 2, m, ev_w(), 2)
    } else if op == 0xD3 {
        fx(r, pc + 2, m, base_events(), 2)
    } else if op == 0x76 {
        Effect { regs: r, pc: pc as u32, halted: true, mem: m, events: base_events(), cycles: 1, out: None }
    } else if op == 0xE9 {
        fx(r, hl(r) as int, m, base_events(), 1)
    } else {
        fx(r, pc + 1, m, base_events(), 1)
    }
}

/// Jumps, calls, restarts and returns.
pub open spec fn jump_effect(r: Seq<u32>, m: Seq<u8>, pc: int, op: u8) -> Effect {
    let target = word_at(m, pc + 1);
    let k = ((op >> 3u8) & 7u8) as int;
    let s = sp_of(r);
    let ret_to = (peek(m, s as int) as u32) | ((peek(m, s + 1) as u32) << 8u32);
    if is_rst(op) || op == 0xCD || (is_ccc(op) && cond(r[8], k)) {
        let ret = if is_rst(op) { pc + 1 } else { pc + 3 };
        let to = if is_rst(op) { (op & 0x38u8) as int } else { target as int };
        fx(sp_pushed(r), to, pushed(r, m, (ret as u32 >> 8u32) as u8, (ret as u32 & 0xFFu32) as u8), ev_m(), if is_rst(op) { 1 } else { 3 })
    } else if op == 0xC9 || (is_rcc(op) && cond(r[8], k)) {
        fx(sp_popped(r), ret_to as int, m, ev_m(), 1)
    } else if is_rcc(op) {
        fx(r, pc + 1, m, base_events(), 1)
    } else if op == 0xC3 || (is_jcc(op) && cond(r[8], k)) {
        fx(r, target as int, m, base_events(), 3)
    } else {
        fx(r, pc + 3, m, base_events(), 3)
    }
}

/// PUSH and POP.
pub open spec fn stack_effect(r: Seq<u32>, m: Seq<u8>, pc: int, op: u8) -> Effect {
    let s = sp_of(r);
    let lo = peek(m, s as int);
    let hi = peek(m, s + 1);
    if is_push(op) {
        let (h, l) = if op == 0xC5 {
            (r[1] as u8, r[2] as u8)
        } else if op == 0xD5 {
            (r[3] as u8, r[4] as u8)
        } else if op == 0xE5 {
            (r[5] as u8, r[6] as u8)
        } else {
            (r[0] as u8, packed_flags(r[8] as u8))
        };
        fx(sp_pushed(r), pc + 1, pushed(r, m, h, l), ev_m(), 1)
    } else {
        let r1 = sp_popped(r);
        let r2 = if op == 0xC1 {
            r1.update(2, lo as u32).update(1, hi as u32)
        } else if op == 0xD1 {
            r1.update(4, lo as u32).update(3, hi as u32)
        } else if op == 0xE1 {
            r1.update(6, lo as u32).update(5, hi as u32)
        } else {
            r1.update(0, hi as u32).update(8, unpacked_flags(lo))
        };
        fx(r2, pc + 1, m, ev_mw(), 1)
    }
}

pub open spec fn is_move(op: u8) -> bool {
    (0x40 <= op <= 0x7F && op != 0x76) || op & 0xC7u8 == 0x06u8 || op == 0x3A || op == 0x0A || op == 0x1A || op == 0x32
        || op == 0x02 || op == 0x12 || op == 0x2A || op == 0x22 || op == 0xEB || op == 0xE3 || op == 0xF9 || op & 0xCFu8
        == 0x01u8
}

pub open spec fn is_alu(op: u8) -> bool {
    0x80 <= op <= 0xBF || op & 0xC7u8 == 0xC6u8 || op & 0xC6u8 == 0x04u8
}

pub open spec fn is_pair(op: u8) -> bool {
    op & 0xCFu8 == 0x03u8 || op & 0xCFu8 == 0x0Bu8 || op & 0xCFu8 == 0x09u8
}

pub open spec fn is_jump(op: u8) -> bool {
    is_rst(op) || op == 0xCD || is_ccc(op) || op == 0xC9 || is_rcc(op) || op == 0xC3 || is_jcc(op)
}

/// What executing `op` at `pc` does.
pub open spec fn effect(r: Seq<u32>, m: Seq<u8>, pc: int, op: u8) -> Effect {
    if is_move(op) {
        move_effect(r, m, pc, op)
    } else if is_alu(op) {
        alu_effect(r, m, pc, op)
    } else if is_pair(op) {
        pair_effect(r, m, pc, op)
    } else if is_jump(op) {
        jump_effect(r, m, pc, op)
    } else if is_push(op) || is_pop(op) {
        stack_effect(r, m, pc, op)
    } else {
        misc_effect(r, m, pc, op)
    }
}

pub open spec fn unknown_text(op: u8, pc: u32) -> Seq<char> {
    "Unknown 8085 opcode 0x"@ + hex_text(op as nat, 2) + " at PC=0x"@ + hex_text(pc as nat, 4)
}

/// The name of register `idx` in the trace.
pub open spec fn reg_label(idx: int) -> Seq<char> {
    if idx == 0 {
        "A"@
    } else if idx == 1 {
        "B"@
    } else if idx == 2 {
        "C"@
    } else if idx == 3 {
        "D"@
    } else if idx == 4 {
        "E"@
    } else if idx == 5 {
        "H"@
    } else if idx == 6 {
        "L"@
    } else {
        "?"@
    }
}

/// The name of an operand code in the trace (M for memory).
pub open spec fn operand_label(code: int) -> Seq<char> {
    if code == 6 {
        "M"@
    } else {
        reg_label(code_reg(code))
    }
}

pub open spec fn taken_label(taken: bool) -> Seq<char> {
    if taken {
        "Taken"@
    } else {
        "Not taken"@
    }
}

/// The fetch and execute texts of MOV, MVI, loads, stores, exchanges and LXI.
pub open spec fn move_texts(r: Seq<u32>, m: Seq<u8>, pc: int, op: u8) -> (Seq<char>, Seq<char>) {
    let a16 = word_at(m, pc + 1);
    if 0x40 <= op <= 0x7F {
        let dst = ((op >> 3u8) & 7u8) as int;
        let val = operand(r, m, (op & 7u8) as int);
        ("Fetch 0x"@ + hex_text(op as nat, 2) + ""@, "MOV: "@ + operand_label(dst) + " ← 0x"@ + hex_text(val as nat, 2))
    } else if op & 0xC7u8 == 0x06u8 {
        ("Fetch MVI"@, "Load 0x"@ + hex_text(peek(m, pc + 1) as nat, 2) + ""@)
    } else if op == 0x3A {
        ("Fetch LDA"@, "A ← Mem[0x"@ + hex_text(a16 as nat, 4) + "] = 0x"@ + hex_text(peek(m, a16 as int) as nat, 2))
    } else if op == 0x0A || op == 0x1A {
        let a = if op == 0x0A { pair(r[1], r[2]) } else { pair(r[3], r[4]) };
        ("Fetch LDAX"@, "A ← Mem[0x"@ + hex_text(a as nat, 4) + "]=0x"@ + hex_text(peek(m, a as int) as nat, 2))
    } else if op == 0x32 || op == 0x02 || op == 0x12 {
        let a = if op == 0x32 { a16 } else if op == 0x02 { pair(r[1], r[2]) as u32 } else { pair(r[3], r[4]) as u32 };
        (
            if op == 0x32 { "Fetch STA"@ } else { "Fetch STAX"@ },
            "Mem[0x"@ + hex_text(a as nat, 4) + "] ← 0x"@ + hex_text((r[0] as u8) as nat, 2),
        )
    } else if op == 0x2A {
        ("Fetch LHLD"@, "HL ← Mem[addr..addr+1]"@)
    } else if op == 0x22 {
        ("Fetch SHLD"@, "Mem[addr..] ← HL"@)
    } else if op == 0xEB {
        ("Fetch XCHG"@, "Swap DE <-> HL"@)
    } else if op == 0xE3 {
        ("Fetch XTHL"@, "Exchange HL with (SP)"@)
    } else if op == 0xF9 {
        ("Fetch SPHL"@, "SP ← HL"@)
    } else {
        let v = (peek(m, pc + 1) as u16) | ((peek(m, pc + 2) as u16) << 8u16);
        if op == 0x31 {
            ("Fetch LXI SP"@, "SP ← 0x"@ + hex_text(v as nat, 4) + ""@)
        } else {
            ("Fetch LXI"@, "rp ← 0x"@ + hex_text(v as nat, 4) + ""@)
        }
    }
}

/// The fetch and execute texts of accumulator arithmetic and logic, INR and DCR.
pub open spec fn alu_texts(r: Seq<u32>, m: Seq<u8>, pc: int, op: u8) -> (Seq<char>, Seq<char>) {
    let k = ((op >> 3u8) & 7u8) as int;
    let a = r[0] as u8;
    if 0x80 <= op <= 0xBF {
        let code = (op & 7u8) as int;
        let b = operand(r, m, code);
        if k == 0 {
            ("Fetch ADD"@, "A ← A + 0x"@ + hex_text(b as nat, 2) + " = 0x"@ + hex_text(alu_result(k, a, b, r[8]) as nat, 2))
        } else if k == 1 {
            ("Fetch ADC"@, "A ← A + "@ + operand_label(code) + " + C"@)
        } else if k == 2 {
            ("Fetch SUB"@, "A ← A - 0x"@ + hex_text(b as nat, 2) + ""@)
        } else if k == 3 {
            ("Fetch SBB"@, "A ← A - r - C"@)
        } else if k == 4 {
            ("Fetch ANA"@, "A ← A & r"@)
        } else if k == 5 {
            ("Fetch XRA"@, "A ← A ^ r"@)
        } else if k == 6 {
            ("Fetch ORA"@, "A ← A | r"@)
        } else {
            ("Fetch CMP"@, "Compare A with r"@)
        }
    } else if op & 0xC7u8 == 0xC6u8 {
        let imm = peek(m, pc + 1);
        if k == 0 {
            ("Fetch ADI"@, "A ← A + 0x"@ + hex_text(imm as nat, 2) + ""@)
        } else if k == 1 {
            ("Fetch ACI"@, "A ← A + d8 + C"@)
        } else if k == 2 {
            ("Fetch SUI"@, "A ← A - 0x"@ + hex_text(imm as nat, 2) + ""@)
        } else if k == 3 {
            ("Fetch SBI"@, "A ← A - d8 - C"@)
        } else if k == 4 {
            ("Fetch ANI"@, "A ← A & d8"@)
        } else if k == 5 {
            ("Fetch XRI"@, "A ← A ^ d8"@)
        } else if k == 6 {
            ("Fetch ORI"@, "A ← A | d8"@)
        } else {
            ("Fetch CPI"@, "Compare A with d8"@)
        }
    } else {
        let n = operand_label(k);
        if op & 7u8 == 4u8 {
            ("Fetch INR"@, n + " ← "@ + n + "+1"@)
        } else {
            ("Fetch DCR"@, n + " ← "@ + n + "-1"@)
        }
    }
}

/// The fetch and execute texts of INX, DCX and DAD.
pub open spec fn pair_texts(op: u8) -> (Seq<char>, Seq<char>) {
    if op & 0xCFu8 == 0x09u8 {
        ("Fetch DAD"@, "HL ← HL + rp"@)
    } else if op & 0xCFu8 == 0x03u8 {
        ("Fetch INX"@, "rp ← rp+1"@)
    } else {
        ("Fetch DCX"@, "rp ← rp-1"@)
    }
}

/// The fetch and execute texts of jumps, calls, restarts and returns.
pub open spec fn jump_texts(r: Seq<u32>, m: Seq<u8>, pc: int, op: u8) -> (Seq<char>, Seq<char>) {
    let target = word_at(m, pc + 1);
    let k = ((op >> 3u8) & 7u8) as int;
    let s = sp_of(r);
    let ok = cond(r[8], k);
    if is_rst(op) || op == 0xCD || (is_ccc(op) && ok) {
        if is_rst(op) {
            ("Fetch RST"@, "Call 0x"@ + hex_text((op & 0x38u8) as nat, 2) + ""@)
        } else if op == 0xCD {
            ("Fetch CALL"@, "Push 0x"@ + hex_text((pc + 3) as nat, 4) + ", PC ← 0x"@ + hex_text(target as nat, 4))
        } else {
            ("Fetch Ccc"@, taken_label(true))
        }
    } else if op == 0xC9 || (is_rcc(op) && ok) {
        let to = (peek(m, s as int) as u32) | ((peek(m, s + 1) as u32) << 8u32);
        if op == 0xC9 {
            ("Fetch RET"@, "PC ← 0x"@ + hex_text(to as nat, 4) + ""@)
        } else {
            ("Fetch RETcc"@, taken_label(true))
        }
    } else if is_rcc(op) {
        ("Fetch RETcc"@, taken_label(false))
    } else if op == 0xC3 || (is_jcc(op) && ok) {
        if op == 0xC3 {
            ("Fetch JMP"@, "PC ← 0x"@ + hex_text(target as nat, 4) + ""@)
        } else {
            ("Fetch Jcc"@, taken_label(true))
        }
    } else if is_ccc(op) {
        ("Fetch Ccc"@, taken_label(false))
    } else {
        ("Fetch Jcc"@, taken_label(false))
    }
}

/// The fetch and execute texts of DAA, CMA, CMC, STC, rotations, IN, OUT,
/// the no-operations, HLT and PCHL.
pub open spec fn misc_texts(op: u8) -> (Seq<char>, Seq<char>) {
    if op == 0x27 {
        ("Fetch DAA"@, "Decimal adjust A"@)
    } else if op == 0x2F {
        ("Fetch CMA"@, "A ← ~A"@)
    } else if op == 0x3F {
        ("Fetch CMC"@, "C ← ~C"@)
    } else if op == 0x37 {
        ("Fetch STC"@, "C ← 1"@)
    } else if op & 0xE7u8 == 0x07u8 {
        ("Fetch ROT"@, "Rotate A"@)
    } else if op == 0xDB {
        ("Fetch IN"@, "A ← IN(port)=0"@)
    } else if op == 0xD3 {
        ("Fetch OUT"@, "OUT ignored"@)
    } else if op == 0x76 {
        ("Fetch HLT"@, "Halt"@)
    } else if op == 0xE9 {
        ("Fetch PCHL"@, "PC ← HL"@)
    } else if op == 0x00 {
        ("Fetch NOP"@, "NOP"@)
    } else {
        ("Fetch"@, "NOP"@)
    }
}

/// The texts shown for the fetch and execute stages of `op` at `pc`.
pub open spec fn stage_texts(r: Seq<u32>, m: Seq<u8>, pc: int, op: u8) -> (Seq<char>, Seq<char>) {
    if is_move(op) {
        move_texts(r, m, pc, op)
    } else if is_alu(op) {
        alu_texts(r, m, pc, op)
    } else if is_pair(op) {
        pair_texts(op)
    } else if is_jump(op) {
        jump_texts(r, m, pc, op)
    } else if is_push(op) {
        ("Fetch PUSH"@, "Push rp"@)
    } else if is_pop(op) {
        ("Fetch POP"@, "Pop rp"@)
    } else {
        misc_texts(op)
    }
}

/// The contract of one 8085 step.
pub open spec fn step_post(s: CpuState, m: Seq<u8>, r: StepResult) -> bool {
    let pc = s.pc & 0xFFFFu32;
    if s.halted {
        stays_halted(s, r)
    } else if !in_bounds(pc, 1, m.len()) {
        failed(s, r, None) && (r.error matches Some(e) && e@ == oob_message(pc, 1, m.len()))
    } else if unknown(m[pc as int]) {
        failed(s, r, Some(m[pc as int] as u32)) && (r.error matches Some(e) && e@ == unknown_text(m[pc as int], pc))
    } else {
        &&& produced(r, m, effect(s.regs@, m, pc as int, m[pc as int]), m[pc as int] as u32, three_stages())
        &&& stage_actions(r.pipeline_stages@) == acts3(stage_texts(s.regs@, m, pc as int, m[pc as int]))
        &&& faithful_mem(m, r.undo_log@)
        &&& faithful(s.regs@, s.pc, m, r.undo_log@)
    }
}

// ---------------------------------------------------------------------------
// Executor
// ---------------------------------------------------------------------------

proof fn lemma_ones_bound(x: u8)
    ensures
        ones(x) <= x,
    decreases x,
{
    if x > 0 {
        lemma_ones_bound(x / 2);
    }
}

/// Bit facts of the executor: the fields of an opcode byte `x`, the low
/// sixteen bits of a word `w`, and the word that two bytes make.
proof fn lemma_bits(x: u8, w: u32, lo: u8, hi: u8)
    by (bit_vector)
    ensures
        x & 7u8 < 8,
        (x >> 3u8) & 7u8 < 8,
        (x >> 4u8) & 3u8 < 4,
        w & 0xFFFFu32 <= 0xFFFF,
        w <= 0xFFFF ==> w & 0xFFFFu32 == w,
        (lo as u32) | ((hi as u32) << 8u32) <= 0xFFFF,
        (lo as u32) | ((hi as u32) << 8u32) == lo as u32 + 256 * (hi as u32),
{
}

/// The low three bits.
fn low3(x: u8) -> (r: u8)
    ensures
        r == x & 7u8,
        r < 8,
{
    proof {
        lemma_bits(x, 0, 0, 0);
    }
    x & 7u8
}

/// Bits 3 to 5.
fn mid3(x: u8) -> (r: u8)
    ensures
        r == (x >> 3u8) & 7u8,
        r < 8,
{
    proof {
        lemma_bits(x, 0, 0, 0);
    }
    (x >> 3u8) & 7u8
}

fn sp_val(regs: &Vec<u32>) -> (s: u32)
    requires
        regs@.len() >= 9,
    ensures
        s == sp_of(regs@),
        s <= 0xFFFF,
{
    let x = regs[7];
    proof {
        lemma_bits(0, x, 0, 0);
    }
    x & 0xFFFFu32
}

fn pair_of(hi: u32, lo: u32) -> (v: u16)
    ensures
        v == pair(hi, lo),
{
    ((hi as u16) << 8u16) | (lo as u16)
}

fn word_of(m: &[u8], a: u32) -> (w: u32)
    requires
        a < 0xFFFF_FFFF,
    ensures
        w == word_at(m@, a as int),
        w <= 0xFFFF,
{
    let lo = peek_at(m, a);
    let hi = peek_at(m, a + 1);
    proof {
        lemma_bits(0, 0, lo, hi);
    }
    (lo as u32) | ((hi as u32) << 8u32)
}

/// Whether `x` has an even number of one bits.
fn parity_even(x: u8) -> (b: bool)
    ensures
        b == (ones(x) % 2 == 0),
{
    let mut v: u8 = x;
    let mut n: u32 = 0;
    proof { lemma_ones_bound(x); }
    while v != 0
        invariant
            n + ones(v) == ones(x),
            ones(x) <= 255,
        decreases v,
    {
        n = n + (v % 2) as u32;
        v = v / 2;
    }
    n % 2 == 0
}

fn szp_of(v: u8) -> (b: u32)
    ensures
        b == szp_bits(v),
{
    (if v >= 128 { 16u32 } else { 0u32 }) | (if v == 0 { 8u32 } else { 0u32 }) | (if parity_even(v) { 2u32 } else { 0u32 })
}

fn set_szp(f: u32, v: u8) -> (r: u32)
    ensures
        r == with_szp(f, v),
{
    (f & !26u32) | szp_of(v)
}

fn flags_add(f: u32, a: u8, b: u8, c: u8) -> (r: u32)
    requires
        c <= 1,
    ensures
        r == add_flags(f, a, b, c),
{
    let sum: u16 = a as u16 + b as u16 + c as u16;
    let res: u8 = (sum % 256) as u8;
    set_szp(f & !31u32, res) | (if sum > 255 { 1u32 } else { 0u32 })
        | (if ((a & 15u8) as u16 + (b & 15u8) as u16 + c as u16) > 15 { 4u32 } else { 0u32 })
}

fn flags_sub(f: u32, a: u8, b: u8, c: u8) -> (r: u32)
    requires
        c <= 1,
    ensures
        r == sub_flags(f, a, b, c),
{
    let diff: i16 = a as i16 - b as i16 - c as i16;
    let res: u8 = ((diff + 512) % 256) as u8;
    set_szp(f & !31u32, res) | (if diff < 0 { 1u32 } else { 0u32 })
        | (if ((a & 15u8) as i16 - (b & 15u8) as i16 - c as i16) < 0 { 4u32 } else { 0u32 })
}

fn cin_of(f: u32) -> (c: u8)
    ensures
        c == carry_in(f),
        c <= 1,
{
    if f & 1u32 != 0 { 1 } else { 0 }
}

#[verifier::spinoff_prover]
#[verifier::rlimit(40)]
fn alu_of(k: u8, a: u8, b: u8, f: u32) -> (r: (u8, u32))
    ensures
        r.0 == alu_result(k as int, a, b, f),
        r.1 == alu_flags(k as int, a, b, f),
{
    let c = cin_of(f);
    if k == 0 {
        (((a as u16 + b as u16) % 256) as u8, flags_add(f, a, b, 0))
    } else if k == 1 {
        (((a as u16 + b as u16 + c as u16) % 256) as u8, flags_add(f, a, b, c))
    } else if k == 3 {
        (((a as i16 - b as i16 - c as i16 + 512) % 256) as u8, flags_sub(f, a, b, c))
    } else if k == 4 {
        (a & b, set_szp((f & !31u32) | 4u32, a & b))
    } else if k == 5 {
        (a ^ b, set_szp(f & !31u32, a ^ b))
    } else if k == 6 {
        (a | b, set_szp(f & !31u32, a | b))
    } else {
        (((a as i16 - b as i16 + 512) % 256) as u8, flags_sub(f, a, b, 0))
    }
}

pub fn ev(mem: bool, write: bool) -> (e: Vec<TraceEvent>)
    ensures
        e@ == (if mem && write { ev_mw() } else if mem { ev_m() } else if write { ev_w() } else { base_events() }),
{
    let mut e: Vec<TraceEvent> = Vec::new();
    e.push(TraceEvent::Fetch);
    e.push(TraceEvent::Decode);
    e.push(TraceEvent::Alu);
    if mem {
        e.push(TraceEvent::Mem);
    }
    if write {
        e.push(TraceEvent::RegWrite);
    }
    proof {
        if mem && write {
            assert(e@ =~= ev_mw());
        } else if mem {
            assert(e@ =~= ev_m());
        } else if write {
            assert(e@ =~= ev_w());
        } else {
            assert(e@ =~= base_events());
        }
    }
    e
}

/// The actions of a three-stage step with the given fetch and execute texts.
pub open spec fn acts3(t: (Seq<char>, Seq<char>)) -> Seq<Seq<char>> {
    seq![t.0, "Decode"@, t.1]
}

pub fn stages(op: u8, fetch: String, execute: String) -> (st: Vec<PipelineCycleInfo>)
    ensures
        stage_names(st@) == three_stages(),
        stage_actions(st@) == acts3((fetch@, execute@)),
        all_carry(st@, Some(op as u32)),
        st@.len() == 3,
{
    pipeline_3(Some(op as u32), fetch, lit("Decode"), execute)
}

fn reg_name(idx: u8) -> (r: &'static str)
    ensures
        r@ == reg_label(idx as int),
{
    if idx == 0 {
        "A"
    } else if idx == 1 {
        "B"
    } else if idx == 2 {
        "C"
    } else if idx == 3 {
        "D"
    } else if idx == 4 {
        "E"
    } else if idx == 5 {
        "H"
    } else if idx == 6 {
        "L"
    } else {
        "?"
    }
}

/// The name of an operand code in the trace (M for memory).
fn operand_name(code: u8) -> (r: &'static str)
    requires
        code < 8,
    ensures
        r@ == operand_label(code as int),
{
    if code == 6 {
        "M"
    } else {
        reg_name(reg_of_code(code))
    }
}

/// Writes `v` to the operand named by `code`.
fn write_r(c: &mut Changes, m: &[u8], code: u8, v: u8)
    requires
        old(c).inv(),
        old(c).mem() == m@,
        code < 8,
        old(c).regs@.len() >= 9,
    ensures
        final(c).regs@ == put8(old(c).regs@, m@, code as int, v).0,
        final(c).mem() == put8(old(c).regs@, m@, code as int, v).1,
        final(c).inv(),
        final(c).base_regs == old(c).base_regs,
        final(c).base_pc == old(c).base_pc,
        final(c).base_mem == old(c).base_mem,
        final(c).pc() == old(c).pc(),
        old(c).regs_kept() ==> final(c).regs_kept(),
        old(c).pc_kept() ==> final(c).pc_kept(),
        old(c).mem_kept() ==> final(c).mem_kept(),
{
    if code == 6 {
        let a = pair_of(c.regs[5], c.regs[6]) as u32;
        let b = peek_at(m, a);
        c.write(a, v, b);
    } else {
        c.set(reg_of_code(code) as usize, v as u32);
    }
}

/// Reads the operand named by `code`.
fn read_r(regs: &Vec<u32>, m: &[u8], code: u8) -> (v: u8)
    requires
        code < 8,
        regs@.len() >= 9,
    ensures
        v == operand(regs@, m@, code as int),
{
    if code == 6 {
        peek_at(m, pair_of(regs[5], regs[6]) as u32)
    } else {
        regs[reg_of_code(code) as usize] as u8
    }
}

/// The register index of a register operand code.
fn reg_of_code(code: u8) -> (r: u8)
    requires
        code < 8,
        code != 6,
    ensures
        r as int == code_reg(code as int),
        r < 7,
{
    if code == 7 {
        0
    } else {
        code + 1
    }
}

fn hex_text_of(prefix: &str, v: u64, width: usize, suffix: &str) -> (r: String)
    ensures
        r@ == prefix@ + hex_text(v as nat, width as nat) + suffix@,
{
    Text::new().s(prefix).hex(v, width).s(suffix).done()
}

fn move_stages(op: u8, regs: &Vec<u32>, m: &[u8], pc: u32) -> (st: Vec<PipelineCycleInfo>)
    requires
        regs@.len() >= 9,
        pc <= 0xFFFF,
    ensures
        stage_actions(st@) == acts3(move_texts(regs@, m@, pc as int, op)),
        stage_names(st@) == three_stages(),
        all_carry(st@, Some(op as u32)),
        st@.len() == 3,
{
    let a16 = word_of(m, pc + 1);
    if 0x40 <= op && op <= 0x7F {
        let dst = mid3(op);
        let val = read_r(regs, m, low3(op));
        let t = Text::new().s("MOV: ").s(operand_name(dst)).s(" ← 0x").hex(val as u64, 2).done();
        stages(op, hex_text_of("Fetch 0x", op as u64, 2, ""), t)
    } else if op & 0xC7u8 == 0x06u8 {
        stages(op, lit("Fetch MVI"), hex_text_of("Load 0x", peek_at(m, pc + 1) as u64, 2, ""))
    } else if op == 0x3A {
        let t = Text::new().s("A ← Mem[0x").hex(a16 as u64, 4).s("] = 0x").hex(peek_at(m, a16) as u64, 2).done();
        stages(op, lit("Fetch LDA"), t)
    } else if op == 0x0A || op == 0x1A {
        let a = if op == 0x0A { pair_of(regs[1], regs[2]) } else { pair_of(regs[3], regs[4]) } as u32;
        let t = Text::new().s("A ← Mem[0x").hex(a as u64, 4).s("]=0x").hex(peek_at(m, a) as u64, 2).done();
        stages(op, lit("Fetch LDAX"), t)
    } else if op == 0x32 || op == 0x02 || op == 0x12 {
        let a = if op == 0x32 { a16 } else if op == 0x02 { pair_of(regs[1], regs[2]) as u32 } else { pair_of(regs[3], regs[4]) as u32 };
        let t = Text::new().s("Mem[0x").hex(a as u64, 4).s("] ← 0x").hex((regs[0] as u8) as u64, 2).done();
        stages(op, lit(if op == 0x32 { "Fetch STA" } else { "Fetch STAX" }), t)
    } else if op == 0x2A {
        stages(op, lit("Fetch LHLD"), lit("HL ← Mem[addr..addr+1]"))
    } else if op == 0x22 {
        stages(op, lit("Fetch SHLD"), lit("Mem[addr..] ← HL"))
    } else if op == 0xEB {
        stages(op, lit("Fetch XCHG"), lit("Swap DE <-> HL"))
    } else if op == 0xE3 {
        stages(op, lit("Fetch XTHL"), lit("Exchange HL with (SP)"))
    } else if op == 0xF9 {
        stages(op, lit("Fetch SPHL"), lit("SP ← HL"))
    } else {
        let v = (peek_at(m, pc + 1) as u16) | ((peek_at(m, pc + 2) as u16) << 8u16);
        if op == 0x31 {
            stages(op, lit("Fetch LXI SP"), hex_text_of("SP ← 0x", v as u64, 4, ""))
        } else {
            stages(op, lit("Fetch LXI"), hex_text_of("rp ← 0x", v as u64, 4, ""))
        }
    }
}

/// MOV, MVI, loads, stores, exchanges and LXI.
fn exec_move(state: &CpuState, m: &[u8], pc: u32, op: u8) -> (r: StepResult)
    requires
        state.regs@.len() >= 9,
        pc <= 0xFFFF,
        is_move(op),
    ensures
        produced(r, m@, move_effect(state.regs@, m@, pc as int, op), op as u32, three_stages()),
        stage_actions(r.pipeline_stages@) == acts3(move_texts(state.regs@, m@, pc as int, op)),
        faithful_mem(m@, r.undo_log@),
        faithful(state.regs@, state.pc, m@, r.undo_log@),
        r.cycles_added <= 3,
        r.pipeline_stages@.len() == 3,
{
    let st = move_stages(op, &state.regs, m, pc);
    let regs = &state.regs;
    let mut c = Changes::start(regs, state.pc, m);
    let a16 = word_of(m, pc + 1);
    if 0x40 <= op && op <= 0x7F {
        let val = read_r(regs, m, low3(op));
        write_r(&mut c, m, mid3(op), val);
        c.finish(pc + 1, false, ev(false, true), 1, op as u32, None, st)
    } else if op & 0xC7u8 == 0x06u8 {
        write_r(&mut c, m, mid3(op), peek_at(m, pc + 1));
        c.finish(pc + 2, false, ev(false, true), 2, op as u32, None, st)
    } else if op == 0x3A {
        c.set(0, peek_at(m, a16) as u32);
        c.finish(pc + 3, false, ev(true, true), 3, op as u32, None, st)
    } else if op == 0x0A || op == 0x1A {
        let a = if op == 0x0A { pair_of(regs[1], regs[2]) } else { pair_of(regs[3], regs[4]) };
        c.set(0, peek_at(m, a as u32) as u32);
        c.finish(pc + 1, false, ev(true, true), 1, op as u32, None, st)
    } else if op == 0x32 {
        c.write(a16, regs[0] as u8, peek_at(m, a16));
        c.finish(pc + 3, false, ev(true, false), 3, op as u32, None, st)
    } else if op == 0x02 || op == 0x12 {
        let a = if op == 0x02 { pair_of(regs[1], regs[2]) } else { pair_of(regs[3], regs[4]) };
        c.write(a as u32, regs[0] as u8, peek_at(m, a as u32));
        c.finish(pc + 1, false, ev(true, false), 1, op as u32, None, st)
    } else if op == 0x2A {
        c.set(6, peek_at(m, a16) as u32);
        c.set(5, peek_at(m, a16 + 1) as u32);
        c.finish(pc + 3, false, ev(true, true), 3, op as u32, None, st)
    } else if op == 0x22 {
        c.write(a16, regs[6] as u8, peek_at(m, a16));
        c.write(a16 + 1, regs[5] as u8, peek_at(m, a16 + 1));
        c.finish(pc + 3, false, ev(true, false), 3, op as u32, None, st)
    } else if op == 0xEB {
        c.set(3, regs[5]);
        c.set(4, regs[6]);
        c.set(5, regs[3]);
        c.set(6, regs[4]);
        c.finish(pc + 1, false, ev(false, true), 1, op as u32, None, st)
    } else if op == 0xE3 {
        let sp = sp_val(regs);
        let lo = peek_at(m, sp);
        let hi = peek_at(m, sp + 1);
        c.write(sp, regs[6] as u8, lo);
        c.write(sp + 1, regs[5] as u8, hi);
        c.set(6, lo as u32);
        c.set(5, hi as u32);
        c.finish(pc + 1, false, ev(true, true), 1, op as u32, None, st)
    } else if op == 0xF9 {
        c.set(7, pair_of(regs[5], regs[6]) as u32);
        c.finish(pc + 1, false, ev(false, true), 1, op as u32, None, st)
    } else {
        let v = (peek_at(m, pc + 1) as u16) | ((peek_at(m, pc + 2) as u16) << 8u16);
        if op == 0x01 {
            c.set(1, (v >> 8u16) as u32);
            c.set(2, (v & 0xFFu16) as u32);
        } else if op == 0x11 {
            c.set(3, (v >> 8u16) as u32);
            c.set(4, (v & 0xFFu16) as u32);
        } else if op == 0x21 {
            c.set(5, (v >> 8u16) as u32);
            c.set(6, (v & 0xFFu16) as u32);
        } else {
            c.set(7, v as u32);
        }
        c.finish(pc + 3, false, ev(false, true), 3, op as u32, None, st)
    }
}

fn alu_stages(op: u8, regs: &Vec<u32>, m: &[u8], pc: u32) -> (st: Vec<PipelineCycleInfo>)
    requires
        regs@.len() >= 9,
        pc <= 0xFFFF,
    ensures
        stage_actions(st@) == acts3(alu_texts(regs@, m@, pc as int, op)),
        stage_names(st@) == three_stages(),
        all_carry(st@, Some(op as u32)),
        st@.len() == 3,
{
    let k = mid3(op);
    let a = regs[0] as u8;
    if 0x80 <= op && op <= 0xBF {
        let code = low3(op);
        let b = read_r(regs, m, code);
        if k == 0 {
            let res = alu_of(k, a, b, regs[8]).0;
            let t = Text::new().s("A ← A + 0x").hex(b as u64, 2).s(" = 0x").hex(res as u64, 2).done();
            stages(op, lit("Fetch ADD"), t)
        } else if k == 1 {
            stages(op, lit("Fetch ADC"), Text::new().s("A ← A + ").s(operand_name(code)).s(" + C").done())
        } else if k == 2 {
            stages(op, lit("Fetch SUB"), hex_text_of("A ← A - 0x", b as u64, 2, ""))
        } else if k == 3 {
            stages(op, lit("Fetch SBB"), lit("A ← A - r - C"))
        } else if k == 4 {
            stages(op, lit("Fetch ANA"), lit("A ← A & r"))
        } else if k == 5 {
            stages(op, lit("Fetch XRA"), lit("A ← A ^ r"))
        } else if k == 6 {
            stages(op, lit("Fetch ORA"), lit("A ← A | r"))
        } else {
            stages(op, lit("Fetch CMP"), lit("Compare A with r"))
        }
    } else if op & 0xC7u8 == 0xC6u8 {
        let imm = peek_at(m, pc + 1);
        if k == 0 {
            stages(op, lit("Fetch ADI"), hex_text_of("A ← A + 0x", imm as u64, 2, ""))
        } else if k == 1 {
            stages(op, lit("Fetch ACI"), lit("A ← A + d8 + C"))
        } else if k == 2 {
            stages(op, lit("Fetch SUI"), hex_text_of("A ← A - 0x", imm as u64, 2, ""))
        } else if k == 3 {
            stages(op, lit("Fetch SBI"), lit("A ← A - d8 - C"))
        } else if k == 4 {
            stages(op, lit("Fetch ANI"), lit("A ← A & d8"))
        } else if k == 5 {
            stages(op, lit("Fetch XRI"), lit("A ← A ^ d8"))
        } else if k == 6 {
            stages(op, lit("Fetch ORI"), lit("A ← A | d8"))
        } else {
            stages(op, lit("Fetch CPI"), lit("Compare A with d8"))
        }
    } else {
        let n = operand_name(k);
        if low3(op) == 4 {
            stages(op, lit("Fetch INR"), Text::new().s(n).s(" ← ").s(n).s("+1").done())
        } else {
            stages(op, lit("Fetch DCR"), Text::new().s(n).s(" ← ").s(n).s("-1").done())
        }
    }
}

/// Accumulator arithmetic and logic, INR and DCR.
fn exec_alu(state: &CpuState, m: &[u8], pc: u32, op: u8) -> (r: StepResult)
    requires
        state.regs@.len() >= 9,
        pc <= 0xFFFF,
        is_alu(op),
    ensures
        produced(r, m@, alu_effect(state.regs@, m@, pc as int, op), op as u32, three_stages()),
        stage_actions(r.pipeline_stages@) == acts3(alu_texts(state.regs@, m@, pc as int, op)),
        faithful_mem(m@, r.undo_log@),
        faithful(state.regs@, state.pc, m@, r.undo_log@),
        r.cycles_added <= 3,
        r.pipeline_stages@.len() == 3,
{
    let st = alu_stages(op, &state.regs, m, pc);
    let regs = &state.regs;
    let mut c = Changes::start(regs, state.pc, m);
    let f = regs[8];
    let a = regs[0] as u8;
    let k = mid3(op);
    if (0x80 <= op && op <= 0xBF) || op & 0xC7u8 == 0xC6u8 {
        let imm = op >= 0xC0;
        let b = if imm { peek_at(m, pc + 1) } else { read_r(regs, m, low3(op)) };
        let (res, fl) = alu_of(k, a, b, f);
        c.set(8, fl);
        if k != 7 {
            c.set(0, res as u32);
        }
        c.finish(if imm { pc + 2 } else { pc + 1 }, false, ev(false, true), if imm { 2 } else { 1 }, op as u32, None, st)
    } else {
        let old = read_r(regs, m, k);
        let inr = low3(op) == 4;
        let v: u8 = if inr { ((old as u16 + 1) % 256) as u8 } else { ((old as u16 + 255) % 256) as u8 };
        let fl = if inr {
            set_szp(f & 1u32, v) | (if ((old & 15u8) as u16 + 1) > 15 { 4u32 } else { 0u32 })
        } else {
            set_szp(f & 1u32, v) | (if ((old & 15u8) as i16 - 1) < 0 { 4u32 } else { 0u32 })
        };
        c.set(8, fl);
        write_r(&mut c, m, k, v);
        c.finish(pc + 1, false, ev(false, true), 1, op as u32, None, st)
    }
}

fn rp_of(op: u8) -> (r: u8)
    ensures
        r == (op >> 4u8) & 3u8,
        r < 4,
{
    proof {
        lemma_bits(op, 0, 0, 0);
    }
    (op >> 4u8) & 3u8
}

/// INX, DCX and DAD.
fn exec_pair(state: &CpuState, m: &[u8], pc: u32, op: u8) -> (r: StepResult)
    requires
        state.regs@.len() >= 9,
        pc <= 0xFFFF,
        is_pair(op),
    ensures
        produced(r, m@, pair_effect(state.regs@, m@, pc as int, op), op as u32, three_stages()),
        stage_actions(r.pipeline_stages@) == acts3(pair_texts(op)),
        faithful_mem(m@, r.undo_log@),
        faithful(state.regs@, state.pc, m@, r.undo_log@),
        r.cycles_added <= 3,
        r.pipeline_stages@.len() == 3,
{
    let regs = &state.regs;
    let mut c = Changes::start(regs, state.pc, m);
    let rp = rp_of(op);
    let cur: u16 = if rp == 0 {
        pair_of(regs[1], regs[2])
    } else if rp == 1 {
        pair_of(regs[3], regs[4])
    } else if rp == 2 {
        pair_of(regs[5], regs[6])
    } else {
        sp_val(regs) as u16
    };
    if op & 0xCFu8 == 0x09u8 {
        let sum: u32 = pair_of(regs[5], regs[6]) as u32 + cur as u32;
        let res: u16 = (sum % 0x10000) as u16;
        let fl = if sum > 0xFFFF { regs[8] | 1u32 } else { regs[8] & !1u32 };
        c.set(8, fl);
        c.set(5, (res >> 8u16) as u32);
        c.set(6, (res & 0xFFu16) as u32);
        let st = stages(op, lit("Fetch DAD"), lit("HL ← HL + rp"));
        c.finish(pc + 1, false, ev(false, true), 1, op as u32, None, st)
    } else {
        let inx = op & 0xCFu8 == 0x03u8;
        let v: u16 = if inx { ((cur as u32 + 1) % 0x10000) as u16 } else { ((cur as u32 + 0xFFFF) % 0x10000) as u16 };
        if rp == 0 {
            c.set(1, (v >> 8u16) as u32);
            c.set(2, (v & 0xFFu16) as u32);
        } else if rp == 1 {
            c.set(3, (v >> 8u16) as u32);
            c.set(4, (v & 0xFFu16) as u32);
        } else if rp == 2 {
            c.set(5, (v >> 8u16) as u32);
            c.set(6, (v & 0xFFu16) as u32);
        } else {
            c.set(7, v as u32);
        }
        let st = if inx {
            stages(op, lit("Fetch INX"), lit("rp ← rp+1"))
        } else {
            stages(op, lit("Fetch DCX"), lit("rp ← rp-1"))
        };
        c.finish(pc + 1, false, ev(false, true), 1, op as u32, None, st)
    }
}

fn misc_stages(op: u8) -> (st: Vec<PipelineCycleInfo>)
    ensures
        stage_actions(st@) == acts3(misc_texts(op)),
        stage_names(st@) == three_stages(),
        all_carry(st@, Some(op as u32)),
        st@.len() == 3,
{
    if op == 0x27 {
        stages(op, lit("Fetch DAA"), lit("Decimal adjust A"))
    } else if op == 0x2F {
        stages(op, lit("Fetch CMA"), lit("A ← ~A"))
    } else if op == 0x3F {
        stages(op, lit("Fetch CMC"), lit("C ← ~C"))
    } else if op == 0x37 {
        stages(op, lit("Fetch STC"), lit("C ← 1"))
    } else if op & 0xE7u8 == 0x07u8 {
        stages(op, lit("Fetch ROT"), lit("Rotate A"))
    } else if op == 0xDB {
        stages(op, lit("Fetch IN"), lit("A ← IN(port)=0"))
    } else if op == 0xD3 {
        stages(op, lit("Fetch OUT"), lit("OUT ignored"))
    } else if op == 0x76 {
        stages(op, lit("Fetch HLT"), lit("Halt"))
    } else if op == 0xE9 {
        stages(op, lit("Fetch PCHL"), lit("PC ← HL"))
    } else if op == 0x00 {
        stages(op, lit("Fetch NOP"), lit("NOP"))
    } else {
        stages(op, lit("Fetch"), lit("NOP"))
    }
}

/// DAA, CMA, CMC, STC, rotations, IN, OUT, the no-operations, HLT and PCHL.
fn exec_misc(state: &CpuState, m: &[u8], pc: u32, op: u8) -> (r: StepResult)
    requires
        state.regs@.len() >= 9,
        pc <= 0xFFFF,
    ensures
        produced(r, m@, misc_effect(state.regs@, m@, pc as int, op), op as u32, three_stages()),
        stage_actions(r.pipeline_stages@) == acts3(misc_texts(op)),
        faithful_mem(m@, r.undo_log@),
        faithful(state.regs@, state.pc, m@, r.undo_log@),
        r.cycles_added <= 3,
        r.pipeline_stages@.len() == 3,
{
    let st = misc_stages(op);
    let regs = &state.regs;
    let mut c = Changes::start(regs, state.pc, m);
    let f = regs[8];
    let a = regs[0] as u8;
    if op == 0x27 {
        let adj: u8 = (if (a & 15u8) > 9 || f & 4u32 != 0 { 6u8 } else { 0u8 }) | (if a > 0x99 || f & 1u32 != 0 {
            0x60u8
        } else {
            0u8
        });
        let res: u8 = ((a as u16 + adj as u16) % 256) as u8;
        let f1 = set_szp(f & !30u32, res);
        let f2 = if a > 0x99 || f & 1u32 != 0 { f1 | 1u32 } else { f1 & !1u32 };
        let fl = if ((a & 15u8) as u16 + (adj & 15u8) as u16) > 15 { f2 | 4u32 } else { f2 };
        c.set(8, fl);
        c.set(0, res as u32);
        c.finish(pc + 1, false, ev(false, true), 1, op as u32, None, st)
    } else if op == 0x2F {
        c.set(0, (!a) as u32);
        c.finish(pc + 1, false, ev(false, true), 1, op as u32, None, st)
    } else if op == 0x3F {
        c.set(8, if f & 1u32 != 0 { f & !1u32 } else { f | 1u32 });
        c.finish(pc + 1, false, ev(false, false), 1, op as u32, None, st)
    } else if op == 0x37 {
        c.set(8, f | 1u32);
        c.finish(pc + 1, false, ev(false, false), 1, op as u32, None, st)
    } else if op & 0xE7u8 == 0x07u8 {
        let k = (op >> 3u8) & 3u8;
        let cin = cin_of(f);
        let (res, co): (u8, u8) = if k == 0 {
            ((a << 1u8) | ((a >> 7u8) & 1u8), (a >> 7u8) & 1u8)
        } else if k == 1 {
            (((a & 1u8) << 7u8) | (a >> 1u8), a & 1u8)
        } else if k == 2 {
            ((a << 1u8) | cin, (a >> 7u8) & 1u8)
        } else {
            ((a >> 1u8) | (cin << 7u8), a & 1u8)
        };
        c.set(8, (f & !1u32) | (if co != 0 { 1u32 } else { 0u32 }));
        c.set(0, res as u32);
        c.finish(pc + 1, false, ev(false, true), 1, op as u32, None, st)
    } else if op == 0xDB {
        c.set(0, 0);
        c.finish(pc + 2, false, ev(false, true), 2, op as u32, None, st)
    } else if op == 0xD3 {
        c.finish(pc + 2, false, ev(false, false), 2, op as u32, None, st)
    } else if op == 0x76 {
        c.finish(pc, true, ev(false, false), 1, op as u32, None, st)
    } else if op == 0xE9 {
        let t = pair_of(regs[5], regs[6]) as u32;
        c.jump(state.pc, t);
        c.finish(t, false, ev(false, false), 1, op as u32, None, st)
    } else {
        c.finish(pc + 1, false, ev(false, false), 1, op as u32, None, st)
    }
}

fn cond_of(f: u32, k: u8) -> (b: bool)
    ensures
        b == cond(f, k as int),
{
    if k == 0 {
        f & 8u32 == 0
    } else if k == 1 {
        f & 8u32 != 0
    } else if k == 2 {
        f & 1u32 == 0
    } else if k == 3 {
        f & 1u32 != 0
    } else if k == 4 {
        f & 2u32 == 0
    } else if k == 5 {
        f & 2u32 != 0
    } else if k == 6 {
        f & 16u32 == 0
    } else {
        f & 16u32 != 0
    }
}

/// Pushes `hi:lo` below the stack pointer.
fn push16(c: &mut Changes, m: &[u8], hi: u8, lo: u8)
    requires
        old(c).inv(),
        old(c).mem() == m@,
        old(c).regs@.len() >= 9,
    ensures
        final(c).regs@ == sp_pushed(old(c).regs@),
        final(c).mem() == pushed(old(c).regs@, m@, hi, lo),
        final(c).inv(),
        final(c).base_regs == old(c).base_regs,
        final(c).base_pc == old(c).base_pc,
        final(c).base_mem == old(c).base_mem,
        final(c).pc() == old(c).pc(),
        old(c).pc_kept() ==> final(c).pc_kept(),
        old(c).mem_kept() ==> final(c).mem_kept(),
        old(c).regs_kept() ==> final(c).regs_kept(),
{
    let sp = sp_val(&c.regs);
    let spn: u32 = if sp >= 2 { sp - 2 } else { sp + 0xFFFF_FFFE };
    let spn1: u32 = if spn == 0xFFFF_FFFF { 0 } else { spn + 1 };
    c.set(7, (spn as u16) as u32);
    c.write(spn, lo, peek_at(m, spn));
    c.write(spn1, hi, peek_at(m, spn1));
}

/// Moves the stack pointer up by two.
fn pop_sp(c: &mut Changes)
    requires
        old(c).inv(),
        old(c).regs@.len() >= 9,
    ensures
        final(c).regs@ == sp_popped(old(c).regs@),
        final(c).inv(),
        final(c).mem() == old(c).mem(),
        final(c).base_regs == old(c).base_regs,
        final(c).base_pc == old(c).base_pc,
        final(c).base_mem == old(c).base_mem,
        final(c).pc() == old(c).pc(),
        old(c).pc_kept() ==> final(c).pc_kept(),
        old(c).mem_kept() ==> final(c).mem_kept(),
        old(c).regs_kept() ==> final(c).regs_kept(),
{
    let sp = sp_val(&c.regs);
    c.set(7, ((sp + 2) as u16) as u32);
}

fn taken_text(taken: bool) -> (r: String)
    ensures
        r@ == taken_label(taken),
{
    lit(if taken { "Taken" } else { "Not taken" })
}

/// Jumps, calls, restarts and returns.
fn exec_jump(state: &CpuState, m: &[u8], pc: u32, op: u8) -> (r: StepResult)
    requires
        state.regs@.len() >= 9,
        pc <= 0xFFFF,
        is_jump(op),
    ensures
        produced(r, m@, jump_effect(state.regs@, m@, pc as int, op), op as u32, three_stages()),
        stage_actions(r.pipeline_stages@) == acts3(jump_texts(state.regs@, m@, pc as int, op)),
        faithful_mem(m@, r.undo_log@),
        faithful(state.regs@, state.pc, m@, r.undo_log@),
        r.cycles_added <= 3,
        r.pipeline_stages@.len() == 3,
{
    let regs = &state.regs;
    let mut c = Changes::start(regs, state.pc, m);
    let target = word_of(m, pc + 1);
    let k = mid3(op);
    let ok = cond_of(regs[8], k);
    let sp = sp_val(regs);
    let rst = op & 0xC7u8 == 0xC7u8;
    if rst || op == 0xCD || (op & 0xC7u8 == 0xC4u8 && ok) {
        let ret: u32 = if rst { pc + 1 } else { pc + 3 };
        let to: u32 = if rst { (op & 0x38u8) as u32 } else { target };
        let st = if rst {
            stages(op, lit("Fetch RST"), hex_text_of("Call 0x", to as u64, 2, ""))
        } else if op == 0xCD {
            stages(op, lit("Fetch CALL"), Text::new().s("Push 0x").hex(ret as u64, 4).s(", PC ← 0x").hex(to as u64, 4).done())
        } else {
            stages(op, lit("Fetch Ccc"), taken_text(true))
        };
        push16(&mut c, m, (ret >> 8u32) as u8, (ret & 0xFFu32) as u8);
        c.jump(state.pc, to);
        c.finish(to, false, ev(true, false), if rst { 1 } else { 3 }, op as u32, None, st)
    } else if op == 0xC9 || (op & 0xC7u8 == 0xC0u8 && ok) {
        let to: u32 = (peek_at(m, sp) as u32) | ((peek_at(m, sp + 1) as u32) << 8u32);
        let st = if op == 0xC9 {
            stages(op, lit("Fetch RET"), hex_text_of("PC ← 0x", to as u64, 4, ""))
        } else {
            stages(op, lit("Fetch RETcc"), taken_text(true))
        };
        pop_sp(&mut c);
        c.jump(state.pc, to);
        c.finish(to, false, ev(true, false), 1, op as u32, None, st)
    } else if op & 0xC7u8 == 0xC0u8 {
        c.jump(state.pc, pc + 1);
        c.finish(pc + 1, false, ev(false, false), 1, op as u32, None, stages(op, lit("Fetch RETcc"), taken_text(false)))
    } else if op == 0xC3 || (op & 0xC7u8 == 0xC2u8 && ok) {
        let st = if op == 0xC3 {
            stages(op, lit("Fetch JMP"), hex_text_of("PC ← 0x", target as u64, 4, ""))
        } else {
            stages(op, lit("Fetch Jcc"), taken_text(true))
        };
        c.jump(state.pc, target);
        c.finish(target, false, ev(false, false), 3, op as u32, None, st)
    } else {
        let st = if op & 0xC7u8 == 0xC4u8 {
            stages(op, lit("Fetch Ccc"), taken_text(false))
        } else {
            stages(op, lit("Fetch Jcc"), taken_text(false))
        };
        c.jump(state.pc, pc + 3);
        c.finish(pc + 3, false, ev(false, false), 3, op as u32, None, st)
    }
}

fn packed_of(f: u8) -> (b: u8)
    ensures
        b == packed_flags(f),
{
    (if f & 16u8 != 0 { 0x80u8 } else { 0u8 }) | (if f & 8u8 != 0 { 0x40u8 } else { 0u8 }) | (if f & 4u8 != 0 {
        0x10u8
    } else {
        0u8
    }) | (if f & 2u8 != 0 { 4u8 } else { 0u8 }) | 2u8 | (if f & 1u8 != 0 { 1u8 } else { 0u8 })
}

fn unpacked_of(b: u8) -> (f: u32)
    ensures
        f == unpacked_flags(b),
{
    (if b & 0x80u8 != 0 { 16u32 } else { 0u32 }) | (if b & 0x40u8 != 0 { 8u32 } else { 0u32 }) | (if b & 0x10u8 != 0 {
        4u32
    } else {
        0u32
    }) | (if b & 4u8 != 0 { 2u32 } else { 0u32 }) | (if b & 1u8 != 0 { 1u32 } else { 0u32 })
}

/// PUSH and POP.
fn exec_stack(state: &CpuState, m: &[u8], pc: u32, op: u8) -> (r: StepResult)
    requires
        state.regs@.len() >= 9,
        pc <= 0xFFFF,
        is_push(op) || is_pop(op),
    ensures
        produced(r, m@, stack_effect(state.regs@, m@, pc as int, op), op as u32, three_stages()),
        stage_actions(r.pipeline_stages@) == acts3(if is_push(op) { ("Fetch PUSH"@, "Push rp"@) } else { ("Fetch POP"@, "Pop rp"@) }),
        faithful_mem(m@, r.undo_log@),
        faithful(state.regs@, state.pc, m@, r.undo_log@),
        r.cycles_added <= 3,
        r.pipeline_stages@.len() == 3,
{
    let regs = &state.regs;
    let mut c = Changes::start(regs, state.pc, m);
    let sp = sp_val(regs);
    if op & 0xCFu8 == 0xC5u8 {
        let (h, l): (u8, u8) = if op == 0xC5 {
            (regs[1] as u8, regs[2] as u8)
        } else if op == 0xD5 {
            (regs[3] as u8, regs[4] as u8)
        } else if op == 0xE5 {
            (regs[5] as u8, regs[6] as u8)
        } else {
            (regs[0] as u8, packed_of(regs[8] as u8))
        };
        push16(&mut c, m, h, l);
        c.jump(state.pc, pc + 1);
        c.finish(pc + 1, false, ev(true, false), 1, op as u32, None, stages(op, lit("Fetch PUSH"), lit("Push rp")))
    } else {
        let lo = peek_at(m, sp);
        let hi = peek_at(m, sp + 1);
        pop_sp(&mut c);
        if op == 0xC1 {
            c.set(2, lo as u32);
            c.set(1, hi as u32);
        } else if op == 0xD1 {
            c.set(4, lo as u32);
            c.set(3, hi as u32);
        } else if op == 0xE1 {
            c.set(6, lo as u32);
            c.set(5, hi as u32);
        } else {
            c.set(0, hi as u32);
            c.set(8, unpacked_of(lo));
        }
        c.jump(state.pc, pc + 1);
        c.finish(pc + 1, false, ev(true, true), 1, op as u32, None, stages(op, lit("Fetch POP"), lit("Pop rp")))
    }
}

fn move_op(op: u8) -> (b: bool)
    ensures
        b == is_move(op),
{
    (0x40 <= op && op <= 0x7F && op != 0x76) || op & 0xC7u8 == 0x06u8 || op == 0x3A || op == 0x0A || op == 0x1A || op
        == 0x32 || op == 0x02 || op == 0x12 || op == 0x2A || op == 0x22 || op == 0xEB || op == 0xE3 || op == 0xF9 || op
        & 0xCFu8 == 0x01u8
}

fn alu_op(op: u8) -> (b: bool)
    ensures
        b == is_alu(op),
{
    (0x80 <= op && op <= 0xBF) || op & 0xC7u8 == 0xC6u8 || op & 0xC6u8 == 0x04u8
}

fn pair_op(op: u8) -> (b: bool)
    ensures
        b == is_pair(op),
{
    op & 0xCFu8 == 0x03u8 || op & 0xCFu8 == 0x0Bu8 || op & 0xCFu8 == 0x09u8
}

fn jump_op(op: u8) -> (b: bool)
    ensures
        b == is_jump(op),
{
    op & 0xC7u8 == 0xC7u8 || op == 0xCD || op & 0xC7u8 == 0xC4u8 || op == 0xC9 || op & 0xC7u8 == 0xC0u8 || op == 0xC3
        || op & 0xC7u8 == 0xC2u8
}

fn unknown_op(op: u8) -> (b: bool)
    ensures
        b == unknown(op),
{
    op == 0x08 || op == 0x10 || op == 0x18 || op == 0x28 || op == 0x38 || op == 0xCB || op == 0xD9 || op == 0xDD || op
        == 0xED || op == 0xFD
}

impl Default for I8085Plugin {
    fn default() -> (p: Self) {
        I8085Plugin
    }
}

impl I8085Plugin {
    pub fn new() -> (p: Self) {
        I8085Plugin
    }

    pub fn name(&self) -> (r: &'static str)
        ensures
            r@ == "8085"@,
    {
        "8085"
    }

    /// PC at 0, all registers and flags cleared.
    pub fn reset(&self, config: &ResetConfig) -> (s: CpuState)
        ensures
            s.pc == 0,
            s.regs@ == Seq::new(9, |i: int| 0u32),
            !s.halted,
    {
        let regs = vec![0u32; 9];
        assert(regs@ =~= Seq::new(9, |i: int| 0u32));
        CpuState { pc: 0, regs, halted: false }
    }

    /// Executes one instruction.
    pub fn step(&self, state: &CpuState, memory: &[u8], mode: StepMode, input: Option<&str>) -> (r: StepResult)
        requires
            state.regs@.len() >= 9,
            memory@.len() <= 0xFFFF_FFFF,
        ensures
            step_post(*state, memory@, r),
            r.cycles_added <= 3,
            r.pipeline_stages@.len() <= 3,
    {
        if state.halted {
            return halted_result(state);
        }
        let spc = state.pc;
        let pc: u32 = spc & 0xFFFFu32;
        proof {
            lemma_bits(0, spc, 0, 0);
        }
        if (pc as usize) >= memory.len() {
            return error_result(state, None, oob_error(pc, 1, memory.len()));
        }
        let op = memory[pc as usize];
        if unknown_op(op) {
            let e = Text::new().s("Unknown 8085 opcode 0x").hex(op as u64, 2).s(" at PC=0x").hex(pc as u64, 4).done();
            return error_result(state, Some(op as u32), e);
        }
        if move_op(op) {
            exec_move(state, memory, pc, op)
        } else if alu_op(op) {
            exec_alu(state, memory, pc, op)
        } else if pair_op(op) {
            exec_pair(state, memory, pc, op)
        } else if jump_op(op) {
            exec_jump(state, memory, pc, op)
        } else if op & 0xCFu8 == 0xC5u8 || op & 0xCFu8 == 0xC1u8 {
            exec_stack(state, memory, pc, op)
        } else {
            exec_misc(state, memory, pc, op)
        }
    }

    pub fn register_schema(&self) -> (s: RegisterSchema)
        ensures
            s.pc_name@ == "PC"@,
            s.reg_names@.len() == 9,
            s.reg_names@[0]@ == "A"@,
            s.reg_names@[1]@ == "B"@,
            s.reg_names@[2]@ == "C"@,
            s.reg_names@[3]@ == "D"@,
            s.reg_names@[4]@ == "E"@,
            s.reg_names@[5]@ == "H"@,
            s.reg_names@[6]@ == "L"@,
            s.reg_names@[7]@ == "SP"@,
            s.reg_names@[8]@ == "FLAGS (SZACP)"@,
    {
        let mut names: Vec<String> = Vec::new();
        names.push(lit("A"));
        names.push(lit("B"));
        names.push(lit("C"));
        names.push(lit("D"));
        names.push(lit("E"));
        names.push(lit("H"));
        names.push(lit("L"));
        names.push(lit("SP"));
        names.push(lit("FLAGS (SZACP)"));
        RegisterSchema { pc_name: lit("PC"), reg_names: names }
    }
}

// ---------------------------------------------------------------------------
// Laws
// ---------------------------------------------------------------------------

proof fn lemma_szp_no_carry(v: u8)
    ensures
        szp_bits(v) & 1u32 == 0,
{
    let s: u32 = if v >= 128 { 16u32 } else { 0u32 };
    let z: u32 = if v == 0 { 8u32 } else { 0u32 };
    let p: u32 = if ones(v) % 2 == 0 { 2u32 } else { 0u32 };
    assert((s | z | p) & 1u32 == 0) by (bit_vector)
        requires
            s == 0 || s == 16,
            z == 0 || z == 8,
            p == 0 || p == 2,
    ;
}

/// INR and DCR keep the carry flag, and DCR takes the value INR produced
/// back to where it was.
pub proof fn lemma_inr_dcr(f: u32, v: u8)
    ensures
        inr_flags(f, v) & 1u32 == f & 1u32,
        dcr_flags(f, v) & 1u32 == f & 1u32,
        ((((v + 1) % 256) as u8 - 1) % 256) as u8 == v,
{
    let up = ((v + 1) % 256) as u8;
    let down = ((v - 1) % 256) as u8;
    lemma_szp_no_carry(up);
    lemma_szp_no_carry(down);
    let a = szp_bits(up);
    let b = szp_bits(down);
    let c1: u32 = if (v & 15u8) + 1 > 15 { 4u32 } else { 0u32 };
    let c2: u32 = if (v & 15u8) - 1 < 0 { 4u32 } else { 0u32 };
    assert((((f & 1u32) & !26u32) | a | c1) & 1u32 == f & 1u32) by (bit_vector)
        requires
            a & 1u32 == 0,
            c1 == 0 || c1 == 4,
    ;
    assert((((f & 1u32) & !26u32) | b | c2) & 1u32 == f & 1u32) by (bit_vector)
        requires
            b & 1u32 == 0,
            c2 == 0 || c2 == 4,
    ;
}

/// A CALL followed by a RET comes back to the instruction after the CALL
/// with every register as it was; the return address stays in the two
/// bytes below the stack pointer.
pub proof fn lemma_call_then_ret(r: Seq<u32>, m: Seq<u8>, pc: int)
    requires
        r.len() >= 9,
        0 <= pc,
        pc + 3 <= 0xFFFF,
        2 <= r[7] <= m.len(),
        r[7] <= 0xFFFF,
    ensures
        ({
            let c = jump_effect(r, m, pc, 0xCD);
            let d = jump_effect(c.regs, c.mem, c.pc as int, 0xC9);
            d.pc == pc + 3 && d.regs == r
        }),
{
    let sp = r[7];
    lemma_bits(0, sp, 0, 0);
    let ret: u32 = (pc + 3) as u32;
    let hi = (ret >> 8u32) as u8;
    let lo = (ret & 0xFFu32) as u8;
    assert((lo as u32) | ((hi as u32) << 8u32) == ret) by (bit_vector)
        requires
            ret <= 0xFFFF,
            hi == (ret >> 8u32) as u8,
            lo == (ret & 0xFFu32) as u8,
    ;
    assert(!is_rst(0xCDu8) && !is_rst(0xC9u8) && !is_ccc(0xC9u8)) by (bit_vector);
    let c = jump_effect(r, m, pc, 0xCD);
    let sp1 = (sp - 2) as u32;
    assert(sp1 & 0xFFFFu32 == sp1 && (sp1 as u16) as u32 == sp1 && ((sp1 + 2) as u16) as u32 == sp) by (bit_vector)
        requires
            sp1 <= 0xFFFF,
            sp == sp1 + 2,
            sp <= 0xFFFF,
    ;
    assert(sp_of(r) == sp && sp_down(sp) == sp1 && next_addr(sp1) == sp1 + 1);
    assert(ret as int == pc + 3);
    assert(c.regs == r.update(7, sp1));
    assert(c.mem == poke(poke(m, sp1 as int, lo), sp1 + 1, hi));
    assert(peek(c.mem, sp1 as int) == lo);
    assert(peek(c.mem, sp1 + 1) == hi);
    let d = jump_effect(c.regs, c.mem, c.pc as int, 0xC9);
    assert(d.regs =~= r);
}

/// PUSH PSW followed by POP PSW gives back the accumulator and the flags.
pub proof fn lemma_push_pop_psw(r: Seq<u32>, m: Seq<u8>, pc: int)
    requires
        r.len() >= 9,
        0 <= pc,
        pc + 2 <= 0xFFFF,
        2 <= r[7] <= m.len(),
        r[7] <= 0xFFFF,
        r[0] <= 0xFF,
        r[8] <= 0x1F,
    ensures
        ({
            let c = stack_effect(r, m, pc, 0xF5);
            let d = stack_effect(c.regs, c.mem, c.pc as int, 0xF1);
            c.pc == pc + 1 && d.pc == pc + 2 && d.regs == r
        }),
{
    let sp = r[7];
    let a = r[0];
    let f = r[8];
    lemma_bits(0, sp, 0, 0);
    let sp1 = (sp - 2) as u32;
    lemma_bits(0, sp1, 0, 0);
    let fb = f as u8;
    let packed = packed_flags(fb);
    assert(unpacked_flags(packed) == f) by (bit_vector)
        requires
            f <= 0x1F,
            fb == f as u8,
            packed == packed_flags(fb),
    ;
    assert(is_push(0xF5u8) && !is_push(0xF1u8) && is_pop(0xF1u8)) by (bit_vector);
    assert((sp1 as u16) as u32 == sp1 && ((sp1 + 2) as u16) as u32 == sp) by (bit_vector)
        requires
            sp1 <= 0xFFFF,
            sp == sp1 + 2,
            sp <= 0xFFFF,
    ;
    assert(sp_of(r) == sp && sp_down(sp) == sp1 && next_addr(sp1) == sp1 + 1);
    let c = stack_effect(r, m, pc, 0xF5);
    assert(c.regs == r.update(7, sp1));
    assert(c.mem == poke(poke(m, sp1 as int, packed), sp1 + 1, a as u8));
    assert(peek(c.mem, sp1 as int) == packed);
    assert(peek(c.mem, sp1 + 1) == a as u8);
    let d = stack_effect(c.regs, c.mem, c.pc as int, 0xF1);
    assert(d.regs =~= r);
}

/// The S, Z and C bits of flags made from a result `v`, a carry `c` and an
/// auxiliary carry `h` over a base with those bits clear.
proof fn lemma_flag_bits(base: u32, v: u8, c: u32, h: u32)
    requires
        base & 0x19u32 == 0,
        c <= 1,
        h == 0 || h == 4,
    ensures
        ((with_szp(base, v) | c | h) & 8u32 != 0) == (v == 0),
        ((with_szp(base, v) | c | h) & 16u32 != 0) == (v >= 128),
        ((with_szp(base, v) | c | h) & 1u32 != 0) == (c == 1),
        (with_szp(base, v) & 8u32 != 0) == (v == 0),
        (with_szp(base, v) & 16u32 != 0) == (v >= 128),
        with_szp(base, v) & 1u32 == 0,
{
    let sz: u32 = (if v >= 128 { 16u32 } else { 0u32 }) | (if v == 0 { 8u32 } else { 0u32 });
    let p: u32 = if ones(v) % 2 == 0 { 2u32 } else { 0u32 };
    assert(szp_bits(v) == sz | p);
    let g = ((base & !26u32) | (sz | p)) | c | h;
    assert((g & 8u32 != 0) == (v == 0) && (g & 16u32 != 0) == (v >= 128) && (g & 1u32 != 0) == (c == 1)) by (bit_vector)
        requires
            base & 0x19u32 == 0,
            c <= 1,
            h == 0 || h == 4,
            p == 0 || p == 2,
            sz == (if v >= 128 { 16u32 } else { 0u32 }) | (if v == 0 { 8u32 } else { 0u32 }),
            g == ((base & !26u32) | (sz | p)) | c | h,
    ;
    let g0 = (base & !26u32) | (sz | p);
    assert((g0 & 8u32 != 0) == (v == 0) && (g0 & 16u32 != 0) == (v >= 128) && g0 & 1u32 == 0) by (bit_vector)
        requires
            base & 0x19u32 == 0,
            p == 0 || p == 2,
            sz == (if v >= 128 { 16u32 } else { 0u32 }) | (if v == 0 { 8u32 } else { 0u32 }),
            g0 == (base & !26u32) | (sz | p),
    ;
}

/// An accumulator instruction with a register or memory operand (opcodes
/// 0x80-0xBF; the low three bits name B, C, D, E, H, L, the byte at HL or
/// A, bits 5-3 the operation) sets A to A plus the operand (plus the carry
/// for ADC), A minus the operand (minus the carry for SBB), their and,
/// exclusive-or or or, all modulo 256, and leaves A unchanged for CMP. The
/// zero and sign flags follow the result (for CMP, of A minus the
/// operand); the carry is the carry out of an addition, the borrow of a
/// subtraction or comparison, and is cleared by the logical operations.
/// No other register changes and the step moves to the next byte.
pub proof fn lemma_accumulator_ops(s: CpuState, m: Seq<u8>, r: StepResult)
    requires
        step_post(s, m, r),
        !s.halted,
        s.regs@.len() >= 9,
        s.pc <= 0xFFFF,
        s.pc < m.len(),
        0x80 <= m[s.pc as int] <= 0xBF,
    ensures
        ({
            let op = m[s.pc as int];
            let k = (op >> 3u8) & 7u8;
            let c = op & 7u8;
            let hl = hl(s.regs@) as int;
            let b: u8 = if c == 6 {
                if hl < m.len() { m[hl] } else { 0 }
            } else if c == 7 {
                s.regs@[0] as u8
            } else {
                s.regs@[c + 1] as u8
            };
            let a = s.regs@[0] as u8;
            let cy: int = if s.regs@[8] & 1u32 != 0 { 1 } else { 0 };
            let res: int = if k == 0 {
                (a + b) % 256
            } else if k == 1 {
                (a + b + cy) % 256
            } else if k == 2 || k == 7 {
                (a - b) % 256
            } else if k == 3 {
                (a - b - cy) % 256
            } else if k == 4 {
                (a & b) as int
            } else if k == 5 {
                (a ^ b) as int
            } else {
                (a | b) as int
            };
            let carry = if k == 0 {
                a + b > 255
            } else if k == 1 {
                a + b + cy > 255
            } else if k == 2 || k == 7 {
                a < b
            } else if k == 3 {
                a < b + cy
            } else {
                false
            };
            let f = r.new_state.regs@[8];
            &&& r.error is None
            &&& r.new_state.pc == s.pc + 1
            &&& k != 7 ==> r.new_state.regs@[0] == res
            &&& k == 7 ==> r.new_state.regs@[0] == s.regs@[0]
            &&& (f & 8u32 != 0) == (res == 0)
            &&& (f & 16u32 != 0) == (res >= 128)
            &&& (f & 1u32 != 0) == carry
            &&& forall|j: int| 1 <= j < s.regs@.len() && j != 8 ==> r.new_state.regs@[j] == s.regs@[j]
        }),
{
    let pc = s.pc;
    let op = m[pc as int];
    lemma_bits(0, pc, 0, 0);
    assert(!unknown(op) && !is_move(op) && is_alu(op)) by (bit_vector)
        requires
            0x80 <= op <= 0xBF,
    ;
    let k = (op >> 3u8) & 7u8;
    let c = op & 7u8;
    lemma_bits(op, 0, 0, 0);
    let rg = s.regs@;
    let a = rg[0] as u8;
    let f0 = rg[8];
    let b = operand(rg, m, c as int);
    let cin = carry_in(f0);
    let base = f0 & !31u32;
    assert(base & 0x19u32 == 0 && ((base | 4u32) & 0x19u32) == 0) by (bit_vector)
        requires
            base == f0 & !31u32,
    ;
    assert(((base | 4u32) & !26u32) == (base & !26u32) | 4u32) by (bit_vector);
    assert(with_szp(base | 4u32, a & b) == with_szp(base, a & b) | 0u32 | 4u32) by {
        let sb = szp_bits(a & b);
        assert(((base & !26u32) | 4u32) | sb == ((base & !26u32) | sb) | 0u32 | 4u32) by (bit_vector);
    }
    let e = alu_effect(rg, m, pc as int, op);
    assert(effect(rg, m, pc as int, op) == e);
    assert(produced(r, m, e, op as u32, three_stages()));
    let res = alu_result(k as int, a, b, f0);
    let fl = alu_flags(k as int, a, b, f0);
    assert(r.new_state.regs@[8] == fl);
    let hc: u32 = if (a & 15u8) + (b & 15u8) > 15 { 4u32 } else { 0u32 };
    if k == 0 {
        lemma_flag_bits(base, res, if a + b > 255 { 1u32 } else { 0u32 }, if (a & 15u8) + (b & 15u8) + 0 > 15 { 4u32 } else { 0u32 });
    } else if k == 1 {
        lemma_flag_bits(base, res, if a + b + cin > 255 { 1u32 } else { 0u32 }, if (a & 15u8) + (b & 15u8) + cin > 15 { 4u32 } else { 0u32 });
    } else if k == 2 || k == 7 {
        lemma_flag_bits(base, ((a - b) % 256) as u8, if a - b - 0 < 0 { 1u32 } else { 0u32 }, if (a & 15u8) - (b & 15u8) - 0 < 0 { 4u32 } else { 0u32 });
    } else if k == 3 {
        lemma_flag_bits(base, res, if a - b - cin < 0 { 1u32 } else { 0u32 }, if (a & 15u8) - (b & 15u8) - cin < 0 { 4u32 } else { 0u32 });
    } else if k == 4 {
        lemma_flag_bits(base, res, 0, 4);
    } else {
        lemma_flag_bits(base, res, 0, 0);
    }
    assert(r.error is None);
    assert(r.new_state.pc == s.pc + 1);
    assert(k != 7 ==> r.new_state.regs@[0] == res);
    assert(b == (if c == 6 { if (hl(rg) as int) < m.len() { m[hl(rg) as int] } else { 0 } } else if c == 7 { rg[0] as u8 } else { rg[c + 1] as u8 }));
    let f = r.new_state.regs@[8];
    let cy: int = if f0 & 1u32 != 0 { 1 } else { 0 };
    assert(cin as int == cy);
    let nres: int = if k == 0 {
        (a + b) % 256
    } else if k == 1 {
        (a + b + cy) % 256
    } else if k == 2 || k == 7 {
        (a - b) % 256
    } else if k == 3 {
        (a - b - cy) % 256
    } else if k == 4 {
        (a & b) as int
    } else if k == 5 {
        (a ^ b) as int
    } else {
        (a | b) as int
    };
    assert(k != 7 ==> res as int == nres);
    assert((f & 8u32 != 0) == (nres == 0));
    assert((f & 16u32 != 0) == (nres >= 128));
    assert(forall|j: int| 1 <= j < s.regs@.len() && j != 8 ==> r.new_state.regs@[j] == s.regs@[j]);
}

/// Classification of the jump opcodes JMP (0xC3) and Jcc (0xC2 + 8 * k).
proof fn lemma_jump_opcodes(op: u8)
    by (bit_vector)
    requires
        op == 0xC3 || op & 0xC7u8 == 0xC2u8,
    ensures
        !unknown(op),
        !is_move(op),
        !is_alu(op),
        !is_pair(op),
        !is_rst(op),
        !is_ccc(op),
        !is_rcc(op),
        op != 0xCD && op != 0xC9,
        op == 0xC3 || is_jcc(op),
        is_jcc(op) ==> op == 0xC2 || op == 0xCA || op == 0xD2 || op == 0xDA || op == 0xE2 || op == 0xEA || op == 0xF2
            || op == 0xFA,
        op == 0xC2 ==> (op >> 3u8) & 7u8 == 0,
        op == 0xCA ==> (op >> 3u8) & 7u8 == 1,
        op == 0xD2 ==> (op >> 3u8) & 7u8 == 2,
        op == 0xDA ==> (op >> 3u8) & 7u8 == 3,
        op == 0xE2 ==> (op >> 3u8) & 7u8 == 4,
        op == 0xEA ==> (op >> 3u8) & 7u8 == 5,
        op == 0xF2 ==> (op >> 3u8) & 7u8 == 6,
        op == 0xFA ==> (op >> 3u8) & 7u8 == 7,
{
}

/// JMP (0xC3) goes to the address in the two bytes after the opcode (low
/// byte first). The conditional jumps go there when their condition holds
/// and otherwise to the instruction after them: JNZ (0xC2) and JZ (0xCA) on
/// the zero flag (bit 3 of the flags) clear or set, JNC (0xD2) and JC
/// (0xDA) on the carry (bit 0), JPO (0xE2) and JPE (0xEA) on the parity
/// flag (bit 1), JP (0xF2) and JM (0xFA) on the sign flag (bit 4). No
/// register changes.
pub proof fn lemma_jumps(s: CpuState, m: Seq<u8>, r: StepResult)
    requires
        step_post(s, m, r),
        !s.halted,
        s.regs@.len() >= 9,
        s.pc <= 0xFFFF,
        s.pc + 2 < m.len(),
        m[s.pc as int] == 0xC3 || m[s.pc as int] & 0xC7u8 == 0xC2u8,
    ensures
        ({
            let op = m[s.pc as int];
            let f = s.regs@[8];
            let target = m[s.pc + 1] as int + 256 * m[s.pc + 2] as int;
            let taken = op == 0xC3 || (op == 0xC2 && f & 8u32 == 0) || (op == 0xCA && f & 8u32 != 0) || (op == 0xD2 && f
                & 1u32 == 0) || (op == 0xDA && f & 1u32 != 0) || (op == 0xE2 && f & 2u32 == 0) || (op == 0xEA && f & 2u32
                != 0) || (op == 0xF2 && f & 16u32 == 0) || (op == 0xFA && f & 16u32 != 0);
            &&& r.error is None
            &&& r.new_state.regs@ == s.regs@
            &&& taken ==> r.new_state.pc == target
            &&& !taken ==> r.new_state.pc == s.pc + 3
        }),
{
    let pc = s.pc;
    let op = m[pc as int];
    lemma_bits(0, pc, m[pc + 1], m[pc + 2]);
    lemma_jump_opcodes(op);
    let e = jump_effect(s.regs@, m, pc as int, op);
    assert(effect(s.regs@, m, pc as int, op) == e);
    assert(produced(r, m, e, op as u32, three_stages()));
    assert(word_at(m, pc + 1) == m[pc + 1] as int + 256 * m[pc + 2] as int);
}

/// Classification of MOV, MVI, INR and DCR opcodes on registers.
proof fn lemma_register_opcodes(op: u8, f: u32, sb: u32, h: u32)
    by (bit_vector)
    ensures
        (0x40 <= op <= 0x7F && op != 0x76) ==> !unknown(op) && is_move(op) && op & 0xC6u8 != 0x04u8 && op & 0xC7u8
            != 0x06u8,
        op & 0xC7u8 == 0x06u8 ==> !unknown(op) && is_move(op) && !(0x40 <= op <= 0x7F) && op & 0xC6u8 != 0x04u8,
        op & 0xC6u8 == 0x04u8 ==> !unknown(op) && !is_move(op) && is_alu(op) && !(0x80 <= op <= 0xBF)
            && op & 0xC7u8 != 0xC6u8 && (op & 7u8 == 4u8 || op & 7u8 == 5u8) && !(0x40 <= op <= 0x7F) && op & 0xC7u8
            != 0x06u8,
        ((f & 1u32) & !26u32) | sb | h == ((0u32 & !26u32) | sb) | (f & 1u32) | h,
        f & 1u32 <= 1,
        0u32 & 0x19u32 == 0,
{
}

/// MOV d, s (0x40-0x7F but 0x76, bits 5-3 naming d and bits 2-0 s) and
/// MVI d (bits 5-3 naming d, low bits 110) with d and s among B, C, D, E,
/// H, L, A (codes 0-5 and 7; register 0 is A, registers 1-6 are B to L)
/// copy s, resp. the byte after the opcode, into d, keep every other
/// register and the flags, and move past the instruction. INR and DCR
/// (bits 5-3 naming the register, low bits 100 and 101) add or subtract
/// one modulo 256, set the zero flag (bit 3) and sign flag (bit 4) from the
/// result and keep the carry (bit 0).
pub proof fn lemma_register_ops(s: CpuState, m: Seq<u8>, r: StepResult)
    requires
        step_post(s, m, r),
        !s.halted,
        s.regs@.len() >= 9,
        s.pc <= 0xFFFF,
        s.pc + 1 < m.len(),
        ({
            let op = m[s.pc as int];
            ||| 0x40 <= op <= 0x7F && op != 0x76 && (op >> 3u8) & 7u8 != 6 && op & 7u8 != 6
            ||| op & 0xC7u8 == 0x06u8 && (op >> 3u8) & 7u8 != 6
            ||| op & 0xC6u8 == 0x04u8 && (op >> 3u8) & 7u8 != 6
        }),
    ensures
        ({
            let op = m[s.pc as int];
            let dc = (op >> 3u8) & 7u8;
            let sc = op & 7u8;
            let d: int = if dc == 7 { 0 } else { dc + 1 };
            let src: int = if sc == 7 { 0 } else { sc + 1 };
            let old = s.regs@[d] as u8;
            let f = r.new_state.regs@[8];
            &&& r.error is None
            &&& 0x40 <= op <= 0x7F ==> r.new_state.pc == s.pc + 1 && r.new_state.regs@ == s.regs@.update(d, s.regs@[src] as u8
                as u32)
            &&& op & 0xC7u8 == 0x06u8 ==> r.new_state.pc == s.pc + 2 && r.new_state.regs@ == s.regs@.update(d, m[s.pc + 1]
                as u32)
            &&& op & 0xC6u8 == 0x04u8 ==> {
                let v: int = if sc == 4 { (old + 1) % 256 } else { (old - 1) % 256 };
                &&& r.new_state.pc == s.pc + 1
                &&& r.new_state.regs@[d] == v
                &&& (f & 8u32 != 0) == (v == 0)
                &&& (f & 16u32 != 0) == (v >= 128)
                &&& (f & 1u32 != 0) == (s.regs@[8] & 1u32 != 0)
                &&& forall|j: int| 0 <= j < s.regs@.len() && j != d && j != 8 ==> r.new_state.regs@[j] == s.regs@[j]
            }
        }),
{
    let pc = s.pc;
    let op = m[pc as int];
    let rg = s.regs@;
    let f0 = rg[8];
    lemma_bits(op, pc, 0, 0);
    let k = ((op >> 3u8) & 7u8) as int;
    let old = operand(rg, m, k);
    let inr = op & 7u8 == 4u8;
    let v: u8 = if inr { ((old + 1) % 256) as u8 } else { ((old - 1) % 256) as u8 };
    let h: u32 = if inr {
        if (old & 15u8) + 1 > 15 { 4u32 } else { 0u32 }
    } else {
        if (old & 15u8) - 1 < 0 { 4u32 } else { 0u32 }
    };
    lemma_register_opcodes(op, f0, szp_bits(v), h);
    lemma_flag_bits(0, v, f0 & 1u32, h);
    let d = code_reg(k);
    let e = effect(rg, m, pc as int, op);
    assert(produced(r, m, e, op as u32, three_stages()));
    if op & 0xC6u8 == 0x04u8 {
        assert(e == alu_effect(rg, m, pc as int, op));
        let fl = if inr { inr_flags(f0, old) } else { dcr_flags(f0, old) };
        assert(with_szp(f0 & 1u32, v) == ((f0 & 1u32) & !26u32) | szp_bits(v));
        assert(with_szp(0, v) == (0u32 & !26u32) | szp_bits(v));
        assert(with_szp(0, v) | (f0 & 1u32) | h == fl);
        assert(old == rg[d] as u8);
        assert(r.new_state.regs@ == rg.update(8, fl).update(d, v as u32));
    } else if 0x40 <= op <= 0x7F {
        assert(e == move_effect(rg, m, pc as int, op));
        assert(operand(rg, m, (op & 7u8) as int) == rg[code_reg((op & 7u8) as int)] as u8);
    } else {
        assert(e == move_effect(rg, m, pc as int, op));
        assert(peek(m, pc + 1) == m[pc + 1]);
    }
}

} // verus!

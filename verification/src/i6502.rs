//! MOS 6502: registers A, X, Y, SP and the status P (N V B D I Z C as bits
//! 7-0) at indices 0-4; a 16-bit program counter; the stack on page 1.
use vstd::prelude::*;
use crate::plugin::{
    CpuState, ResetConfig, StepMode, StepResult, UndoEntry, PipelineCycleInfo, RegisterSchema,
    failed, stays_halted, three_stages, error_result, halted_result, stage_names, stage_actions, all_carry,
};
use crate::effects::{Effect, Changes, produced, peek, poke, peek_at};
use crate::memory::{in_bounds, oob_message, oob_error};
use crate::text::hex_text;
use crate::fmt::{Text, lit};
use crate::undo::{faithful, faithful_mem, fwd_mem};
use crate::i8085::{base_events, ev_w, ev_m, ev_mw, fx, ev, stages, acts3};

verus! {

pub struct I6502Plugin;

// ---------------------------------------------------------------------------
// Semantics
// ---------------------------------------------------------------------------

/// The N and Z bits of a result.
pub open spec fn nz_bits(v: u8) -> u32 {
    (if v >= 128 { 0x80u32 } else { 0u32 }) | (if v == 0 { 2u32 } else { 0u32 })
}

/// The status with N and Z set from `v`.
pub open spec fn with_nz(p: u32, v: u8) -> u32 {
    (p & 0xFFFF_FF7Du32) | nz_bits(v)
}

/// The status with N and Z set from `v` and the carry set to `c`.
pub open spec fn with_nzc(p: u32, v: u8, c: bool) -> u32 {
    (p & 0xFFFF_FF7Cu32) | nz_bits(v) | (if c { 1u32 } else { 0u32 })
}

/// Registers after loading `v` into register `i` and setting N and Z from it.
pub open spec fn loaded(r: Seq<u32>, i: int, v: u8) -> Seq<u32> {
    r.update(i, v as u32).update(4, with_nz(r[4], v))
}

pub open spec fn carry(p: u32) -> bool {
    p & 1u32 != 0
}

/// The little-endian absolute address after the opcode at `pc`.
pub open spec fn abs_addr(m: Seq<u8>, pc: int) -> u32 {
    (peek(m, pc + 1) as u32) | ((peek(m, pc + 2) as u32) << 8u32)
}

/// The opcodes this simulator executes.
pub open spec fn known(op: u8) -> bool {
    is_load(op) || is_arith(op) || is_store(op) || is_flow(op)
}

/// Loads, transfers, increments and logic: one register gets a value and N, Z follow it.
pub open spec fn is_load(op: u8) -> bool {
    op == 0xA9 || op == 0xAD || op == 0xA5 || op == 0xA2 || op == 0xA0 || op == 0xAA || op == 0xA8 || op == 0x8A
        || op == 0x98 || op == 0xE8 || op == 0xC8 || op == 0x29 || op == 0x09 || op == 0x49
}

/// ADC, SBC, CMP, CLC and SEC.
pub open spec fn is_arith(op: u8) -> bool {
    op == 0x69 || op == 0xE9 || op == 0xC9 || op == 0x18 || op == 0x38
}

/// Stores and the stack instructions PHA and PLA.
pub open spec fn is_store(op: u8) -> bool {
    op == 0x8D || op == 0x85 || op == 0x48 || op == 0x68
}

pub open spec fn is_branch(op: u8) -> bool {
    op == 0x90 || op == 0xB0 || op == 0xD0 || op == 0xF0
}

/// NOP, BRK, jumps, calls, returns and branches.
pub open spec fn is_flow(op: u8) -> bool {
    op == 0xEA || op == 0x00 || op == 0x4C || op == 0x20 || op == 0x60 || is_branch(op)
}

/// The register a load writes: X, Y or A.
pub open spec fn load_reg(op: u8) -> int {
    if op == 0xA2 || op == 0xAA || op == 0xE8 {
        1
    } else if op == 0xA0 || op == 0xA8 || op == 0xC8 {
        2
    } else {
        0
    }
}

/// The value a load writes.
pub open spec fn load_value(r: Seq<u32>, m: Seq<u8>, pc: int, op: u8) -> u8 {
    let b1 = peek(m, pc + 1);
    if op == 0xA9 || op == 0xA2 || op == 0xA0 {
        b1
    } else if op == 0xAD {
        peek(m, abs_addr(m, pc) as int)
    } else if op == 0xA5 {
        peek(m, b1 as int)
    } else if op == 0xAA || op == 0xA8 {
        r[0] as u8
    } else if op == 0x8A {
        r[1] as u8
    } else if op == 0x98 {
        r[2] as u8
    } else if op == 0xE8 {
        (((r[1] as u8) + 1) % 256) as u8
    } else if op == 0xC8 {
        (((r[2] as u8) + 1) % 256) as u8
    } else if op == 0x29 {
        (r[0] as u8) & b1
    } else if op == 0x09 {
        (r[0] as u8) | b1
    } else {
        (r[0] as u8) ^ b1
    }
}

/// The length in bytes of a load instruction.
pub open spec fn load_len(op: u8) -> int {
    if op == 0xAD {
        3
    } else if op == 0xAA || op == 0xA8 || op == 0x8A || op == 0x98 || op == 0xE8 || op == 0xC8 {
        1
    } else {
        2
    }
}

pub open spec fn load_effect(r: Seq<u32>, m: Seq<u8>, pc: int, op: u8) -> Effect {
    let reads_mem = op == 0xAD || op == 0xA5;
    fx(loaded(r, load_reg(op), load_value(r, m, pc, op)), pc + load_len(op), m,
        if reads_mem { ev_mw() } else { ev_w() }, load_len(op) as u64)
}

/// ADC, SBC, CMP, CLC and SEC.
pub open spec fn arith_effect(r: Seq<u32>, m: Seq<u8>, pc: int, op: u8) -> Effect {
    let a = r[0] as u8;
    let b = peek(m, pc + 1);
    let c: int = if carry(r[4]) { 1 } else { 0 };
    if op == 0x69 {
        let sum = a + b + c;
        let res = (sum % 256) as u8;
        fx(r.update(4, with_nzc(r[4], res, sum > 255)).update(0, res as u32), pc + 2, m, ev_w(), 2)
    } else if op == 0xE9 {
        let diff = a - b - (1 - c);
        let res = (diff % 256) as u8;
        fx(r.update(4, with_nzc(r[4], res, diff >= 0)).update(0, res as u32), pc + 2, m, ev_w(), 2)
    } else if op == 0xC9 {
        let res = ((a - b) % 256) as u8;
        fx(r.update(4, with_nzc(r[4], res, a >= b)), pc + 2, m, ev_w(), 2)
    } else if op == 0x18 {
        fx(r.update(4, r[4] & 0xFFFF_FFFEu32), pc + 1, m, base_events(), 1)
    } else {
        fx(r.update(4, r[4] | 1u32), pc + 1, m, base_events(), 1)
    }
}

/// The stack pointer's low byte.
pub open spec fn sp8(r: Seq<u32>) -> u8 {
    r[3] as u8
}

/// `s - 1` and `s + k` on the stack pointer's byte.
pub open spec fn sp_dec(s: u8) -> u8 {
    if s == 0 {
        255
    } else {
        (s - 1) as u8
    }
}

pub open spec fn sp_inc(s: u8, k: int) -> u8 {
    ((s + k) % 256) as u8
}

/// STA, PHA and PLA.
pub open spec fn store_effect(r: Seq<u32>, m: Seq<u8>, pc: int, op: u8) -> Effect {
    let a = r[0] as u8;
    let b1 = peek(m, pc + 1);
    let s = sp8(r);
    if op == 0x8D {
        fx(r, pc + 3, poke(m, abs_addr(m, pc) as int, a), ev_m(), 3)
    } else if op == 0x85 {
        fx(r, pc + 2, poke(m, b1 as int, a), ev_m(), 2)
    } else if op == 0x48 {
        fx(r.update(3, sp_dec(s) as u32), pc + 1, poke(m, 0x100 + s, a), ev_m(), 3)
    } else {
        let t = sp_inc(s, 1);
        fx(loaded(r.update(3, t as u32), 0, peek(m, 0x100 + t)), pc + 1, m, ev_mw(), 4)
    }
}

/// Whether the branch `op` is taken under status `p`.
pub open spec fn taken(op: u8, p: u32) -> bool {
    if op == 0x90 {
        !carry(p)
    } else if op == 0xB0 {
        carry(p)
    } else if op == 0xD0 {
        p & 2u32 == 0
    } else {
        p & 2u32 != 0
    }
}

/// A byte read as a signed offset.
pub open spec fn rel_of(b: u8) -> int {
    if b >= 128 {
        b - 256
    } else {
        b as int
    }
}

/// NOP, BRK, JMP, JSR, RTS and the branches.
pub open spec fn flow_effect(r: Seq<u32>, m: Seq<u8>, pc: int, op: u8) -> Effect {
    let t = abs_addr(m, pc);
    let s = sp8(r);
    if op == 0xEA {
        fx(r, pc + 1, m, base_events(), 1)
    } else if op == 0x00 {
        Effect { regs: r, pc: pc as u32, halted: true, mem: m, events: base_events(), cycles: 1, out: None }
    } else if op == 0x4C {
        fx(r, t as int, m, base_events(), 3)
    } else if op == 0x20 {
        let ret = pc + 2;
        let mem = poke(poke(m, 0x100 + s, ((ret / 256) % 256) as u8), 0x100 + sp_dec(s), (ret % 256) as u8);
        fx(r.update(3, sp_dec(sp_dec(s)) as u32), t as int, mem, ev_m(), 3)
    } else if op == 0x60 {
        let lo = peek(m, 0x100 + sp_inc(s, 1));
        let hi = peek(m, 0x100 + sp_inc(s, 2));
        fx(r.update(3, sp_inc(s, 2) as u32), (lo + hi * 256 + 1) % 65536, m, ev_m(), 1)
    } else {
        let next = if taken(op, r[4]) { (pc + 2 + rel_of(peek(m, pc + 1))) % 65536 } else { pc + 2 };
        fx(r, next, m, base_events(), 2)
    }
}

/// What executing the known opcode `op` at `pc` does.
pub open spec fn effect(r: Seq<u32>, m: Seq<u8>, pc: int, op: u8) -> Effect {
    if is_load(op) {
        load_effect(r, m, pc, op)
    } else if is_arith(op) {
        arith_effect(r, m, pc, op)
    } else if is_store(op) {
        store_effect(r, m, pc, op)
    } else {
        flow_effect(r, m, pc, op)
    }
}

pub open spec fn unknown_text(op: u8, pc: u32) -> Seq<char> {
    "Unknown 6502 opcode 0x"@ + hex_text(op as nat, 2) + " at PC=0x"@ + hex_text(pc as nat, 4)
}

/// The texts shown for the fetch and execute stages of the known opcode
/// `op` at `pc`.
pub open spec fn stage_texts(r: Seq<u32>, m: Seq<u8>, pc: int, op: u8) -> (Seq<char>, Seq<char>) {
    let b1 = peek(m, pc + 1);
    let addr = abs_addr(m, pc);
    let s = r[3] as u8;
    if op == 0xA9 {
        ("Fetch LDA #"@, "A ← 0x"@ + hex_text(b1 as nat, 2) + ""@)
    } else if op == 0xAD {
        ("Fetch LDA abs"@, "A ← Mem[0x"@ + hex_text(addr as nat, 4) + "]"@)
    } else if op == 0xA5 {
        ("Fetch LDA zpg"@, "A ← Mem[0x"@ + hex_text(b1 as nat, 2) + "]"@)
    } else if op == 0xA2 {
        ("Fetch LDX #"@, "X ← 0x"@ + hex_text(b1 as nat, 2) + ""@)
    } else if op == 0xA0 {
        ("Fetch LDY #"@, "Y ← 0x"@ + hex_text(b1 as nat, 2) + ""@)
    } else if op == 0xAA {
        ("Fetch TAX"@, "X ← A"@)
    } else if op == 0xA8 {
        ("Fetch TAY"@, "Y ← A"@)
    } else if op == 0x8A {
        ("Fetch TXA"@, "A ← X"@)
    } else if op == 0x98 {
        ("Fetch TYA"@, "A ← Y"@)
    } else if op == 0xE8 {
        ("Fetch INX"@, "X ← X+1"@)
    } else if op == 0xC8 {
        ("Fetch INY"@, "Y ← Y+1"@)
    } else if op == 0x29 {
        ("Fetch AND #"@, "A ← A & 0x"@ + hex_text(b1 as nat, 2) + ""@)
    } else if op == 0x09 {
        ("Fetch ORA #"@, "A ← A | 0x"@ + hex_text(b1 as nat, 2) + ""@)
    } else if op == 0x49 {
        ("Fetch EOR #"@, "A ← A ^ 0x"@ + hex_text(b1 as nat, 2) + ""@)
    } else if op == 0x69 {
        ("Fetch ADC #"@, "A ← A + 0x"@ + hex_text(b1 as nat, 2) + " + C"@)
    } else if op == 0xE9 {
        ("Fetch SBC #"@, "A ← A - 0x"@ + hex_text(b1 as nat, 2) + " - (1-C)"@)
    } else if op == 0xC9 {
        ("Fetch CMP #"@, "A - 0x"@ + hex_text(b1 as nat, 2) + ""@)
    } else if op == 0x18 {
        ("Fetch CLC"@, "C ← 0"@)
    } else if op == 0x38 {
        ("Fetch SEC"@, "C ← 1"@)
    } else if op == 0x8D {
        ("Fetch STA abs"@, "Mem[0x"@ + hex_text(addr as nat, 4) + "] ← A"@)
    } else if op == 0x85 {
        ("Fetch STA zpg"@, "Mem[0x"@ + hex_text(b1 as nat, 2) + "] ← A"@)
    } else if op == 0x48 {
        ("Fetch PHA"@, "Push A"@)
    } else if op == 0x68 {
        ("Fetch PLA"@, "Pop A"@)
    } else if op == 0xEA {
        ("Fetch NOP"@, "NOP"@)
    } else if op == 0x00 {
        ("Fetch BRK"@, "Halt"@)
    } else if op == 0x4C {
        ("Fetch JMP"@, "PC ← 0x"@ + hex_text(addr as nat, 4) + ""@)
    } else if op == 0x20 {
        ("Fetch JSR"@, "Push return, PC ← 0x"@ + hex_text(addr as nat, 4) + ""@)
    } else if op == 0x60 {
        let t = (peek(m, 0x100 + sp_inc(s, 1)) + peek(m, 0x100 + sp_inc(s, 2)) * 256 + 1) % 65536;
        ("Fetch RTS"@, "PC ← 0x"@ + hex_text(t as nat, 4) + ""@)
    } else {
        let name = if op == 0x90 {
            "Fetch BCC"@
        } else if op == 0xB0 {
            "Fetch BCS"@
        } else if op == 0xD0 {
            "Fetch BNE"@
        } else {
            "Fetch BEQ"@
        };
        (name, if taken(op, r[4]) { "Taken"@ } else { "Not taken"@ })
    }
}

/// The log of PHA (`op` 0x48) and PLA (0x68): the stack byte and the stack
/// pointer for a push; the stack pointer, then the accumulator, for a pop.
pub open spec fn stack_log(r: Seq<u32>, m: Seq<u8>, op: u8) -> Seq<UndoEntry> {
    let s = sp8(r);
    if op == 0x48 {
        let a = (0x100 + s) as u32;
        seq![
            UndoEntry::MemWrite { addr: a, old_value: peek(m, a as int), new_value: r[0] as u8 },
            UndoEntry::RegWrite { reg: 3, old_value: r[3], new_value: sp_dec(s) as u32 },
        ]
    } else {
        let t = sp_inc(s, 1);
        seq![
            UndoEntry::RegWrite { reg: 3, old_value: r[3], new_value: t as u32 },
            UndoEntry::RegWrite { reg: 0, old_value: r[0], new_value: peek(m, 0x100 + t) as u32 },
        ]
    }
}

/// The contract of one 6502 step.
pub open spec fn step_post(s: CpuState, m: Seq<u8>, r: StepResult) -> bool {
    let pc = s.pc & 0xFFFFu32;
    if s.halted {
        stays_halted(s, r)
    } else if !in_bounds(pc, 1, m.len()) {
        failed(s, r, None) && (r.error matches Some(e) && e@ == oob_message(pc, 1, m.len()))
    } else if !known(m[pc as int]) {
        failed(s, r, Some(m[pc as int] as u32)) && (r.error matches Some(e) && e@ == unknown_text(m[pc as int], pc))
    } else {
        &&& produced(r, m, effect(s.regs@, m, pc as int, m[pc as int]), m[pc as int] as u32, three_stages())
        &&& stage_actions(r.pipeline_stages@) == acts3(stage_texts(s.regs@, m, pc as int, m[pc as int]))
        &&& faithful_mem(m, r.undo_log@)
        &&& faithful(s.regs@, s.pc, m, r.undo_log@)
        &&& (m[pc as int] == 0x48 || m[pc as int] == 0x68) ==> r.undo_log@ == stack_log(s.regs@, m, m[pc as int])
    }
}

// ---------------------------------------------------------------------------
// Executor
// ---------------------------------------------------------------------------

fn abs_of(m: &[u8], pc: u32) -> (a: u32)
    requires
        pc <= 0xFFFF,
    ensures
        a == abs_addr(m@, pc as int),
{
    (peek_at(m, pc + 1) as u32) | ((peek_at(m, pc + 2) as u32) << 8u32)
}

fn nz_of(v: u8) -> (b: u32)
    ensures
        b == nz_bits(v),
{
    (if v >= 128 { 0x80u32 } else { 0u32 }) | (if v == 0 { 2u32 } else { 0u32 })
}

fn with_nz_of(p: u32, v: u8) -> (q: u32)
    ensures
        q == with_nz(p, v),
{
    (p & 0xFFFF_FF7Du32) | nz_of(v)
}

fn with_nzc_of(p: u32, v: u8, c: bool) -> (q: u32)
    ensures
        q == with_nzc(p, v, c),
{
    (p & 0xFFFF_FF7Cu32) | nz_of(v) | (if c { 1u32 } else { 0u32 })
}

fn hex_after(prefix: &str, v: u64, width: usize, suffix: &str) -> (r: String)
    ensures
        r@ == prefix@ + hex_text(v as nat, width as nat) + suffix@,
{
    Text::new().s(prefix).hex(v, width).s(suffix).done()
}

fn load_stages(op: u8, b1: u8, addr: u32, Ghost(r): Ghost<Seq<u32>>, Ghost(m): Ghost<Seq<u8>>, Ghost(pc): Ghost<int>) -> (st: Vec<PipelineCycleInfo>)
    requires
        is_load(op),
        b1 == peek(m, pc + 1),
        addr == abs_addr(m, pc),
    ensures
        stage_actions(st@) == acts3(stage_texts(r, m, pc, op)),
        stage_names(st@) == three_stages(),
        all_carry(st@, Some(op as u32)),
        st@.len() == 3,
{
    if op == 0xA9 {
        stages(op, lit("Fetch LDA #"), hex_after("A ← 0x", b1 as u64, 2, ""))
    } else if op == 0xAD {
        stages(op, lit("Fetch LDA abs"), hex_after("A ← Mem[0x", addr as u64, 4, "]"))
    } else if op == 0xA5 {
        stages(op, lit("Fetch LDA zpg"), hex_after("A ← Mem[0x", b1 as u64, 2, "]"))
    } else if op == 0xA2 {
        stages(op, lit("Fetch LDX #"), hex_after("X ← 0x", b1 as u64, 2, ""))
    } else if op == 0xA0 {
        stages(op, lit("Fetch LDY #"), hex_after("Y ← 0x", b1 as u64, 2, ""))
    } else if op == 0xAA {
        stages(op, lit("Fetch TAX"), lit("X ← A"))
    } else if op == 0xA8 {
        stages(op, lit("Fetch TAY"), lit("Y ← A"))
    } else if op == 0x8A {
        stages(op, lit("Fetch TXA"), lit("A ← X"))
    } else if op == 0x98 {
        stages(op, lit("Fetch TYA"), lit("A ← Y"))
    } else if op == 0xE8 {
        stages(op, lit("Fetch INX"), lit("X ← X+1"))
    } else if op == 0xC8 {
        stages(op, lit("Fetch INY"), lit("Y ← Y+1"))
    } else if op == 0x29 {
        stages(op, lit("Fetch AND #"), hex_after("A ← A & 0x", b1 as u64, 2, ""))
    } else if op == 0x09 {
        stages(op, lit("Fetch ORA #"), hex_after("A ← A | 0x", b1 as u64, 2, ""))
    } else {
        stages(op, lit("Fetch EOR #"), hex_after("A ← A ^ 0x", b1 as u64, 2, ""))
    }
}

/// Loads, transfers, increments and logic operations.
fn exec_load(state: &CpuState, m: &[u8], pc: u32, op: u8) -> (r: StepResult)
    requires
        state.regs@.len() >= 5,
        pc <= 0xFFFF,
        is_load(op),
    ensures
        produced(r, m@, load_effect(state.regs@, m@, pc as int, op), op as u32, three_stages()),
        stage_actions(r.pipeline_stages@) == acts3(stage_texts(state.regs@, m@, pc as int, op)),
        faithful_mem(m@, r.undo_log@),
        faithful(state.regs@, state.pc, m@, r.undo_log@),
        r.cycles_added <= 3,
        r.pipeline_stages@.len() == 3,
{
    let regs = &state.regs;
    let b1 = peek_at(m, pc + 1);
    let addr = abs_of(m, pc);
    let i: usize = if op == 0xA2 || op == 0xAA || op == 0xE8 {
        1
    } else if op == 0xA0 || op == 0xA8 || op == 0xC8 {
        2
    } else {
        0
    };
    let v: u8 = if op == 0xA9 || op == 0xA2 || op == 0xA0 {
        b1
    } else if op == 0xAD {
        peek_at(m, addr)
    } else if op == 0xA5 {
        peek_at(m, b1 as u32)
    } else if op == 0xAA || op == 0xA8 {
        regs[0] as u8
    } else if op == 0x8A {
        regs[1] as u8
    } else if op == 0x98 {
        regs[2] as u8
    } else if op == 0xE8 {
        (((regs[1] as u8) as u16 + 1) % 256) as u8
    } else if op == 0xC8 {
        (((regs[2] as u8) as u16 + 1) % 256) as u8
    } else if op == 0x29 {
        (regs[0] as u8) & b1
    } else if op == 0x09 {
        (regs[0] as u8) | b1
    } else {
        (regs[0] as u8) ^ b1
    };
    let len: u32 = if op == 0xAD {
        3
    } else if op == 0xAA || op == 0xA8 || op == 0x8A || op == 0x98 || op == 0xE8 || op == 0xC8 {
        1
    } else {
        2
    };
    let st = load_stages(op, b1, addr, Ghost(state.regs@), Ghost(m@), Ghost(pc as int));
    let mut c = Changes::start(regs, state.pc, m);
    c.set(i, v as u32);
    let p = c.regs[4];
    c.put(4, with_nz_of(p, v));
    c.finish(pc + len, false, ev(op == 0xAD || op == 0xA5, true), len as u64, op as u32, None, st)
}

fn arith_stages(op: u8, b1: u8, Ghost(r): Ghost<Seq<u32>>, Ghost(m): Ghost<Seq<u8>>, Ghost(pc): Ghost<int>) -> (st: Vec<PipelineCycleInfo>)
    requires
        is_arith(op),
        b1 == peek(m, pc + 1),
    ensures
        stage_actions(st@) == acts3(stage_texts(r, m, pc, op)),
        stage_names(st@) == three_stages(),
        all_carry(st@, Some(op as u32)),
        st@.len() == 3,
{
    if op == 0x69 {
        stages(op, lit("Fetch ADC #"), hex_after("A ← A + 0x", b1 as u64, 2, " + C"))
    } else if op == 0xE9 {
        stages(op, lit("Fetch SBC #"), hex_after("A ← A - 0x", b1 as u64, 2, " - (1-C)"))
    } else if op == 0xC9 {
        stages(op, lit("Fetch CMP #"), hex_after("A - 0x", b1 as u64, 2, ""))
    } else if op == 0x18 {
        stages(op, lit("Fetch CLC"), lit("C ← 0"))
    } else {
        stages(op, lit("Fetch SEC"), lit("C ← 1"))
    }
}

/// ADC, SBC, CMP, CLC and SEC.
fn exec_arith(state: &CpuState, m: &[u8], pc: u32, op: u8) -> (r: StepResult)
    requires
        state.regs@.len() >= 5,
        pc <= 0xFFFF,
        is_arith(op),
    ensures
        produced(r, m@, arith_effect(state.regs@, m@, pc as int, op), op as u32, three_stages()),
        stage_actions(r.pipeline_stages@) == acts3(stage_texts(state.regs@, m@, pc as int, op)),
        faithful_mem(m@, r.undo_log@),
        faithful(state.regs@, state.pc, m@, r.undo_log@),
        r.cycles_added <= 2,
        r.pipeline_stages@.len() == 3,
{
    let regs = &state.regs;
    let a = regs[0] as u8;
    let b = peek_at(m, pc + 1);
    let p = regs[4];
    let cf = p & 1u32 != 0;
    let st = arith_stages(op, b, Ghost(state.regs@), Ghost(m@), Ghost(pc as int));
    let mut c = Changes::start(regs, state.pc, m);
    if op == 0x69 {
        let sum: u16 = a as u16 + b as u16 + if cf { 1u16 } else { 0u16 };
        let res = (sum % 256) as u8;
        c.note(UndoEntry::RegWrite { reg: 4, old_value: p, new_value: 0 });
        c.put(4, with_nzc_of(p, res, sum > 255));
        c.set(0, res as u32);
        c.finish(pc + 2, false, ev(false, true), 2, op as u32, None, st)
    } else if op == 0xE9 {
        let diff: i16 = a as i16 - b as i16 - (1 - if cf { 1i16 } else { 0i16 });
        let res: u8 = if diff < 0 { (diff + 256) as u8 } else { diff as u8 };
        c.set(4, with_nzc_of(p, res, diff >= 0));
        c.set(0, res as u32);
        c.finish(pc + 2, false, ev(false, true), 2, op as u32, None, st)
    } else if op == 0xC9 {
        let res: u8 = if a >= b { a - b } else { (a as u16 + 256 - b as u16) as u8 };
        c.set(4, with_nzc_of(p, res, a >= b));
        c.finish(pc + 2, false, ev(false, true), 2, op as u32, None, st)
    } else if op == 0x18 {
        c.set(4, p & 0xFFFF_FFFEu32);
        c.finish(pc + 1, false, ev(false, false), 1, op as u32, None, st)
    } else {
        c.set(4, p | 1u32);
        c.finish(pc + 1, false, ev(false, false), 1, op as u32, None, st)
    }
}

fn sp_dec_of(s: u8) -> (t: u8)
    ensures
        t == sp_dec(s),
{
    if s == 0 {
        255
    } else {
        s - 1
    }
}

fn sp_inc_of(s: u8, k: u8) -> (t: u8)
    requires
        k <= 2,
    ensures
        t == sp_inc(s, k as int),
{
    ((s as u16 + k as u16) % 256) as u8
}

/// STA, PHA and PLA.
fn exec_store(state: &CpuState, m: &[u8], pc: u32, op: u8) -> (r: StepResult)
    requires
        state.regs@.len() >= 5,
        pc <= 0xFFFF,
        is_store(op),
    ensures
        produced(r, m@, store_effect(state.regs@, m@, pc as int, op), op as u32, three_stages()),
        stage_actions(r.pipeline_stages@) == acts3(stage_texts(state.regs@, m@, pc as int, op)),
        faithful_mem(m@, r.undo_log@),
        faithful(state.regs@, state.pc, m@, r.undo_log@),
        op == 0x48 || op == 0x68 ==> r.undo_log@ == stack_log(state.regs@, m@, op),
        r.cycles_added <= 4,
        r.pipeline_stages@.len() == 3,
{
    let regs = &state.regs;
    let a = regs[0] as u8;
    let b1 = peek_at(m, pc + 1);
    let s = regs[3] as u8;
    let mut c = Changes::start(regs, state.pc, m);
    if op == 0x8D {
        let addr = abs_of(m, pc);
        let st = stages(op, lit("Fetch STA abs"), hex_after("Mem[0x", addr as u64, 4, "] ← A"));
        c.write(addr, a, peek_at(m, addr));
        c.finish(pc + 3, false, ev(true, false), 3, op as u32, None, st)
    } else if op == 0x85 {
        let st = stages(op, lit("Fetch STA zpg"), hex_after("Mem[0x", b1 as u64, 2, "] ← A"));
        c.write(b1 as u32, a, peek_at(m, b1 as u32));
        c.finish(pc + 2, false, ev(true, false), 2, op as u32, None, st)
    } else if op == 0x48 {
        let st = stages(op, lit("Fetch PHA"), lit("Push A"));
        let addr = 0x100u32 + s as u32;
        c.write(addr, a, peek_at(m, addr));
        c.set(3, sp_dec_of(s) as u32);
        c.finish(pc + 1, false, ev(true, false), 3, op as u32, None, st)
    } else {
        let st = stages(op, lit("Fetch PLA"), lit("Pop A"));
        let t = sp_inc_of(s, 1);
        c.set(3, t as u32);
        let v = peek_at(m, 0x100u32 + t as u32);
        c.set(0, v as u32);
        let p = c.regs[4];
        c.put(4, with_nz_of(p, v));
        c.finish(pc + 1, false, ev(true, true), 4, op as u32, None, st)
    }
}

fn branch_name(op: u8) -> (r: &'static str)
    ensures
        r@ == (if op == 0x90 {
            "Fetch BCC"@
        } else if op == 0xB0 {
            "Fetch BCS"@
        } else if op == 0xD0 {
            "Fetch BNE"@
        } else {
            "Fetch BEQ"@
        }),
{
    if op == 0x90 {
        "Fetch BCC"
    } else if op == 0xB0 {
        "Fetch BCS"
    } else if op == 0xD0 {
        "Fetch BNE"
    } else {
        "Fetch BEQ"
    }
}

/// NOP, BRK, JMP, JSR, RTS and the branches.
fn exec_flow(state: &CpuState, m: &[u8], pc: u32, op: u8) -> (r: StepResult)
    requires
        state.regs@.len() >= 5,
        pc <= 0xFFFF,
        state.pc <= 0xFFFF ==> pc == state.pc,
        is_flow(op),
    ensures
        produced(r, m@, flow_effect(state.regs@, m@, pc as int, op), op as u32, three_stages()),
        stage_actions(r.pipeline_stages@) == acts3(stage_texts(state.regs@, m@, pc as int, op)),
        faithful_mem(m@, r.undo_log@),
        faithful(state.regs@, state.pc, m@, r.undo_log@),
        r.cycles_added <= 3,
        r.pipeline_stages@.len() == 3,
{
    let regs = &state.regs;
    let s = regs[3] as u8;
    let mut c = Changes::start(regs, state.pc, m);
    if op == 0xEA {
        let st = stages(op, lit("Fetch NOP"), lit("NOP"));
        c.finish(pc + 1, false, ev(false, false), 1, op as u32, None, st)
    } else if op == 0x00 {
        let st = stages(op, lit("Fetch BRK"), lit("Halt"));
        c.finish(pc, true, ev(false, false), 1, op as u32, None, st)
    } else if op == 0x4C {
        let t = abs_of(m, pc);
        let st = stages(op, lit("Fetch JMP"), hex_after("PC ← 0x", t as u64, 4, ""));
        c.jump(state.pc, t);
        c.finish(t, false, ev(false, false), 3, op as u32, None, st)
    } else if op == 0x20 {
        let t = abs_of(m, pc);
        let st = stages(op, lit("Fetch JSR"), hex_after("Push return, PC ← 0x", t as u64, 4, ""));
        let ret = pc + 2;
        let d = sp_dec_of(s);
        let hi_addr = 0x100u32 + s as u32;
        let lo_addr = 0x100u32 + d as u32;
        c.write(hi_addr, ((ret / 256) % 256) as u8, peek_at(m, hi_addr));
        c.write(lo_addr, (ret % 256) as u8, peek_at(m, lo_addr));
        c.set(3, sp_dec_of(d) as u32);
        c.jump(state.pc, t);
        c.finish(t, false, ev(true, false), 3, op as u32, None, st)
    } else if op == 0x60 {
        let lo = peek_at(m, 0x100u32 + sp_inc_of(s, 1) as u32);
        let hi = peek_at(m, 0x100u32 + sp_inc_of(s, 2) as u32);
        let t: u32 = (lo as u32 + hi as u32 * 256 + 1) % 65536;
        let st = stages(op, lit("Fetch RTS"), hex_after("PC ← 0x", t as u64, 4, ""));
        c.set(3, sp_inc_of(s, 2) as u32);
        c.jump(state.pc, t);
        c.finish(t, false, ev(true, false), 1, op as u32, None, st)
    } else {
        let b1 = peek_at(m, pc + 1);
        let p = regs[4];
        let take = if op == 0x90 {
            p & 1u32 == 0
        } else if op == 0xB0 {
            p & 1u32 != 0
        } else if op == 0xD0 {
            p & 2u32 == 0
        } else {
            p & 2u32 != 0
        };
        let rel: i64 = if b1 >= 128 { b1 as i64 - 256 } else { b1 as i64 };
        let d: i64 = pc as i64 + 2 + rel;
        let next: u32 = if !take {
            pc + 2
        } else if d < 0 {
            (d + 65536) as u32
        } else if d >= 65536 {
            (d - 65536) as u32
        } else {
            d as u32
        };
        let st = stages(op, lit(branch_name(op)), lit(if take { "Taken" } else { "Not taken" }));
        c.jump(state.pc, next);
        c.finish(next, false, ev(false, false), 2, op as u32, None, st)
    }
}

fn known_op(op: u8) -> (b: bool)
    ensures
        b == known(op),
{
    op == 0xA9 || op == 0xAD || op == 0xA5 || op == 0xA2 || op == 0xA0 || op == 0xAA || op == 0xA8 || op == 0x8A
        || op == 0x98 || op == 0xE8 || op == 0xC8 || op == 0x29 || op == 0x09 || op == 0x49 || op == 0x69 || op
        == 0xE9 || op == 0xC9 || op == 0x18 || op == 0x38 || op == 0x8D || op == 0x85 || op == 0x48 || op == 0x68
        || op == 0xEA || op == 0x00 || op == 0x4C || op == 0x20 || op == 0x60 || op == 0x90 || op == 0xB0 || op
        == 0xD0 || op == 0xF0
}

impl Default for I6502Plugin {
    fn default() -> (p: Self) {
        I6502Plugin
    }
}

impl I6502Plugin {
    pub fn new() -> (p: Self) {
        I6502Plugin
    }

    pub fn name(&self) -> (r: &'static str)
        ensures
            r@ == "6502"@,
    {
        "6502"
    }

    /// PC at 0; A, X, Y, SP and P cleared.
    pub fn reset(&self, config: &ResetConfig) -> (s: CpuState)
        ensures
            s.pc == 0,
            s.regs@ == Seq::new(5, |i: int| 0u32),
            !s.halted,
    {
        let regs = vec![0u32; 5];
        assert(regs@ =~= Seq::new(5, |i: int| 0u32));
        CpuState { pc: 0, regs, halted: false }
    }

    /// Executes one instruction.
    pub fn step(&self, state: &CpuState, memory: &[u8], mode: StepMode, input: Option<&str>) -> (r: StepResult)
        requires
            state.regs@.len() >= 5,
            memory@.len() <= 0xFFFF_FFFF,
        ensures
            step_post(*state, memory@, r),
            r.cycles_added <= 4,
            r.pipeline_stages@.len() <= 3,
    {
        if state.halted {
            return halted_result(state);
        }
        let spc = state.pc;
        let pc: u32 = spc & 0xFFFFu32;
        assert(spc & 0xFFFFu32 <= 0xFFFF && (spc <= 0xFFFF ==> spc & 0xFFFFu32 == spc)) by (bit_vector);
        if (pc as usize) >= memory.len() {
            return error_result(state, None, oob_error(pc, 1, memory.len()));
        }
        let op = memory[pc as usize];
        if !known_op(op) {
            let e = Text::new().s("Unknown 6502 opcode 0x").hex(op as u64, 2).s(" at PC=0x").hex(pc as u64, 4).done();
            return error_result(state, Some(op as u32), e);
        }
        if op == 0xA9 || op == 0xAD || op == 0xA5 || op == 0xA2 || op == 0xA0 || op == 0xAA || op == 0xA8 || op
            == 0x8A || op == 0x98 || op == 0xE8 || op == 0xC8 || op == 0x29 || op == 0x09 || op == 0x49 {
            exec_load(state, memory, pc, op)
        } else if op == 0x69 || op == 0xE9 || op == 0xC9 || op == 0x18 || op == 0x38 {
            exec_arith(state, memory, pc, op)
        } else if op == 0x8D || op == 0x85 || op == 0x48 || op == 0x68 {
            exec_store(state, memory, pc, op)
        } else {
            exec_flow(state, memory, pc, op)
        }
    }

    pub fn register_schema(&self) -> (s: RegisterSchema)
        ensures
            s.pc_name@ == "PC"@,
            s.reg_names@.len() == 5,
            s.reg_names@[0]@ == "A"@,
            s.reg_names@[1]@ == "X"@,
            s.reg_names@[2]@ == "Y"@,
            s.reg_names@[3]@ == "SP"@,
            s.reg_names@[4]@ == "P (NV-BDIZC)"@,
    {
        let mut names: Vec<String> = Vec::new();
        names.push(lit("A"));
        names.push(lit("X"));
        names.push(lit("Y"));
        names.push(lit("SP"));
        names.push(lit("P (NV-BDIZC)"));
        RegisterSchema { pc_name: lit("PC"), reg_names: names }
    }
}

/// A JSR followed by an RTS comes back to the instruction after the JSR with
/// every register as it was; the return address stays on page 1.
pub proof fn lemma_jsr_then_rts(r: Seq<u32>, m: Seq<u8>, pc: int)
    requires
        r.len() >= 5,
        0 <= pc,
        pc + 3 <= 0xFFFF,
        r[3] <= 0xFF,
        m.len() >= 0x200,
    ensures
        ({
            let c = flow_effect(r, m, pc, 0x20);
            let d = flow_effect(c.regs, c.mem, c.pc as int, 0x60);
            d.pc == pc + 3 && d.regs == r
        }),
{
    let s = sp8(r);
    assert(s as u32 == r[3]);
    let s1 = sp_dec(s);
    let s2 = sp_dec(s1);
    assert((s2 as u32) as u8 == s2);
    assert(sp_inc(s2, 1) == s1);
    assert(sp_inc(s2, 2) == s);
    let ret = pc + 2;
    let c = flow_effect(r, m, pc, 0x20);
    assert(c.regs == r.update(3, s2 as u32));
    assert(c.mem == poke(poke(m, 0x100 + s, ((ret / 256) % 256) as u8), 0x100 + s1, (ret % 256) as u8));
    assert(sp8(c.regs) == s2);
    let lo = peek(c.mem, 0x100 + s1);
    let hi = peek(c.mem, 0x100 + s);
    assert(lo == (ret % 256) as u8);
    assert(hi == ((ret / 256) % 256) as u8);
    assert(lo + hi * 256 == ret);
    let d = flow_effect(c.regs, c.mem, c.pc as int, 0x60);
    assert(d.regs =~= r);
}

/// A conditional branch (BCC, BCS, BNE, BEQ: opcodes 0x90, 0xB0, 0xD0,
/// 0xF0) is taken exactly when the carry (status bit 0) is clear, the carry
/// is set, the zero flag (status bit 1) is clear, the zero flag is set;
/// taken, it moves by the signed offset byte from the instruction after it,
/// else to that instruction. No register changes.
pub proof fn lemma_branches(s: CpuState, m: Seq<u8>, r: StepResult)
    requires
        step_post(s, m, r),
        !s.halted,
        s.regs@.len() >= 5,
        s.pc <= 0xFFFF,
        s.pc < m.len(),
        m[s.pc as int] == 0x90 || m[s.pc as int] == 0xB0 || m[s.pc as int] == 0xD0 || m[s.pc as int] == 0xF0,
    ensures
        ({
            let op = m[s.pc as int];
            let p = s.regs@[4];
            let off = if s.pc + 1 < m.len() { (m[s.pc + 1] as i8) as int } else { 0 };
            let taken = (op == 0x90 && p & 1u32 == 0) || (op == 0xB0 && p & 1u32 != 0) || (op == 0xD0 && p & 2u32 == 0)
                || (op == 0xF0 && p & 2u32 != 0);
            &&& r.error is None
            &&& r.new_state.regs@ == s.regs@
            &&& taken ==> r.new_state.pc == (s.pc + 2 + off) % 0x10000
            &&& !taken ==> r.new_state.pc == s.pc + 2
        }),
{
    let pc = s.pc;
    let op = m[pc as int];
    lemma_word_bits(pc, 0, 0);
    let b = peek(m, pc + 1);
    assert(rel_of(b) == (b as i8) as int) by (bit_vector);
    assert(effect(s.regs@, m, pc as int, op) == flow_effect(s.regs@, m, pc as int, op));
    assert(produced(r, m, effect(s.regs@, m, pc as int, op), op as u32, three_stages()));
}

/// N, Z and C of a status made by `with_nzc`: bit 7 is the sign of the
/// result, bit 1 whether it is zero, bit 0 the carry.
proof fn lemma_nzc(p: u32, v: u8, c: bool)
    ensures
        (with_nzc(p, v, c) & 0x80u32 != 0) == (v >= 128),
        (with_nzc(p, v, c) & 2u32 != 0) == (v == 0),
        (with_nzc(p, v, c) & 1u32 != 0) == c,
        (with_nz(p, v) & 0x80u32 != 0) == (v >= 128),
        (with_nz(p, v) & 2u32 != 0) == (v == 0),
        (with_nz(p, v) & 1u32) == (p & 1u32),
{
    let cb: u32 = if c { 1u32 } else { 0u32 };
    let nz: u32 = (if v >= 128 { 0x80u32 } else { 0u32 }) | (if v == 0 { 2u32 } else { 0u32 });
    assert(nz_bits(v) == nz);
    let g = (p & 0xFFFF_FF7Cu32) | nz | cb;
    let h = (p & 0xFFFF_FF7Du32) | nz;
    assert((g & 0x80u32 != 0) == (v >= 128) && (g & 2u32 != 0) == (v == 0) && (g & 1u32 != 0) == (cb == 1)
        && (h & 0x80u32 != 0) == (v >= 128) && (h & 2u32 != 0) == (v == 0) && (h & 1u32) == (p & 1u32)) by (bit_vector)
        requires
            nz == (if v >= 128 { 0x80u32 } else { 0u32 }) | (if v == 0 { 2u32 } else { 0u32 }),
            cb == 0 || cb == 1,
            g == (p & 0xFFFF_FF7Cu32) | nz | cb,
            h == (p & 0xFFFF_FF7Du32) | nz,
    ;
}

/// The immediate forms (operand `v` the byte after the opcode): LDA, LDX,
/// LDY load `v`; AND, ORA, EOR combine A with `v`; ADC adds `v` and the
/// carry to A, SBC subtracts `v` and the borrow (not carry), CMP compares A
/// with `v`, all modulo 256. N and Z follow the value written (for CMP,
/// A minus `v`); ADC sets the carry on a carry out, SBC and CMP when no
/// borrow occurs; the loads and logical operations keep the carry. The
/// step moves past the two bytes.
pub proof fn lemma_immediate_ops(s: CpuState, m: Seq<u8>, r: StepResult)
    requires
        step_post(s, m, r),
        !s.halted,
        s.regs@.len() >= 5,
        s.pc <= 0xFFFF,
        s.pc < m.len(),
        ({
            let op = m[s.pc as int];
            op == 0xA9 || op == 0xA2 || op == 0xA0 || op == 0x29 || op == 0x09 || op == 0x49 || op == 0x69 || op == 0xE9
                || op == 0xC9
        }),
    ensures
        ({
            let op = m[s.pc as int];
            let v: u8 = if s.pc + 1 < m.len() { m[s.pc + 1] } else { 0 };
            let a = s.regs@[0] as u8;
            let cy: int = if s.regs@[4] & 1u32 != 0 { 1 } else { 0 };
            let dst: int = if op == 0xA2 { 1 } else if op == 0xA0 { 2 } else { 0 };
            let res: int = if op == 0xA9 || op == 0xA2 || op == 0xA0 {
                v as int
            } else if op == 0x29 {
                (a & v) as int
            } else if op == 0x09 {
                (a | v) as int
            } else if op == 0x49 {
                (a ^ v) as int
            } else if op == 0x69 {
                (a + v + cy) % 256
            } else if op == 0xE9 {
                (a - v - (1 - cy)) % 256
            } else {
                (a - v) % 256
            };
            let carry: bool = if op == 0x69 {
                a + v + cy > 255
            } else if op == 0xE9 {
                a - v - (1 - cy) >= 0
            } else if op == 0xC9 {
                a >= v
            } else {
                s.regs@[4] & 1u32 != 0
            };
            let p = r.new_state.regs@[4];
            &&& r.error is None
            &&& r.new_state.pc == s.pc + 2
            &&& op != 0xC9 ==> r.new_state.regs@[dst] == res
            &&& op == 0xC9 ==> r.new_state.regs@[0] == s.regs@[0]
            &&& (p & 0x80u32 != 0) == (res >= 128)
            &&& (p & 2u32 != 0) == (res == 0)
            &&& (p & 1u32 != 0) == carry
        }),
{
    let pc = s.pc;
    let op = m[pc as int];
    let rg = s.regs@;
    lemma_word_bits(pc, 0, 0);
    let v = peek(m, pc + 1);
    let a = rg[0] as u8;
    let c = carry(rg[4]);
    if is_load(op) {
        assert(effect(rg, m, pc as int, op) == load_effect(rg, m, pc as int, op));
        lemma_nzc(rg[4], load_value(rg, m, pc as int, op), false);
    } else {
        assert(effect(rg, m, pc as int, op) == arith_effect(rg, m, pc as int, op));
        let cy: int = if c { 1 } else { 0 };
        if op == 0x69 {
            lemma_nzc(rg[4], ((a + v + cy) % 256) as u8, a + v + cy > 255);
        } else if op == 0xE9 {
            lemma_nzc(rg[4], ((a - v - (1 - cy)) % 256) as u8, a - v - (1 - cy) >= 0);
        } else {
            lemma_nzc(rg[4], ((a - v) % 256) as u8, a >= v);
        }
    }
    assert(produced(r, m, effect(rg, m, pc as int, op), op as u32, three_stages()));
}

/// Bit facts of the laws below: a pc within sixteen bits, and the word two
/// bytes make.
proof fn lemma_word_bits(pc: u32, lo: u8, hi: u8)
    by (bit_vector)
    ensures
        pc <= 0xFFFF ==> pc & 0xFFFFu32 == pc,
        (lo as u32) | ((hi as u32) << 8u32) == lo as u32 + 256 * (hi as u32),
{
}

/// The one-byte register instructions: TAX (0xAA) and TAY (0xA8) copy A to
/// X or Y, TXA (0x8A) and TYA (0x98) copy X or Y to A, INX (0xE8) and INY
/// (0xC8) add one to X or Y modulo 256, with N (bit 7 of P) and Z (bit 1)
/// following the value written and the carry kept; CLC (0x18) clears and
/// SEC (0x38) sets the carry (bit 0) and change nothing else. The step
/// moves to the next byte.
pub proof fn lemma_register_ops(s: CpuState, m: Seq<u8>, r: StepResult)
    requires
        step_post(s, m, r),
        !s.halted,
        s.regs@.len() >= 5,
        s.pc <= 0xFFFF,
        s.pc < m.len(),
        ({
            let op = m[s.pc as int];
            op == 0xAA || op == 0xA8 || op == 0x8A || op == 0x98 || op == 0xE8 || op == 0xC8 || op == 0x18 || op == 0x38
        }),
    ensures
        ({
            let op = m[s.pc as int];
            let a = s.regs@[0] as u8;
            let x = s.regs@[1] as u8;
            let y = s.regs@[2] as u8;
            let p = s.regs@[4];
            let q = r.new_state.regs@[4];
            let dst: int = if op == 0xAA || op == 0xE8 { 1 } else if op == 0xA8 || op == 0xC8 { 2 } else { 0 };
            let v: int = if op == 0xAA || op == 0xA8 {
                a as int
            } else if op == 0x8A {
                x as int
            } else if op == 0x98 {
                y as int
            } else if op == 0xE8 {
                (x + 1) % 256
            } else {
                (y + 1) % 256
            };
            &&& r.error is None
            &&& r.new_state.pc == s.pc + 1
            &&& op != 0x18 && op != 0x38 ==> {
                &&& r.new_state.regs@[dst] == v
                &&& (q & 0x80u32 != 0) == (v >= 128)
                &&& (q & 2u32 != 0) == (v == 0)
                &&& q & 1u32 == p & 1u32
            }
            &&& op == 0x18 ==> q == p & 0xFFFF_FFFEu32 && r.new_state.regs@.update(4, p) == s.regs@
            &&& op == 0x38 ==> q == p | 1u32 && r.new_state.regs@.update(4, p) == s.regs@
        }),
{
    let pc = s.pc;
    let op = m[pc as int];
    let rg = s.regs@;
    lemma_word_bits(pc, 0, 0);
    if is_load(op) {
        assert(effect(rg, m, pc as int, op) == load_effect(rg, m, pc as int, op));
        lemma_nzc(rg[4], load_value(rg, m, pc as int, op), false);
    } else {
        assert(effect(rg, m, pc as int, op) == arith_effect(rg, m, pc as int, op));
    }
    assert(produced(r, m, effect(rg, m, pc as int, op), op as u32, three_stages()));
    if op == 0x18 || op == 0x38 {
        assert(r.new_state.regs@.update(4, rg[4]) =~= rg);
    }
}

/// LDA absolute (0xAD) and zero page (0xA5) load into A the byte at the
/// address after the opcode (two bytes, low first, or one byte), with N and
/// Z following it and the carry kept; STA absolute (0x8D) and zero page
/// (0x85) write A to that address in memory, changing no register. The
/// step moves past the operand.
pub proof fn lemma_memory_ops(s: CpuState, m: Seq<u8>, r: StepResult)
    requires
        step_post(s, m, r),
        !s.halted,
        s.regs@.len() >= 5,
        s.pc <= 0xFFFF,
        s.pc + 2 < m.len(),
        ({
            let op = m[s.pc as int];
            op == 0xAD || op == 0xA5 || op == 0x8D || op == 0x85
        }),
        ({
            let op = m[s.pc as int];
            let addr: int = if op == 0xAD || op == 0x8D { m[s.pc + 1] + 256 * m[s.pc + 2] } else { m[s.pc + 1] as int };
            addr < m.len()
        }),
    ensures
        ({
            let op = m[s.pc as int];
            let addr: int = if op == 0xAD || op == 0x8D { m[s.pc + 1] + 256 * m[s.pc + 2] } else { m[s.pc + 1] as int };
            let len: int = if op == 0xAD || op == 0x8D { 3 } else { 2 };
            let v = m[addr];
            let q = r.new_state.regs@[4];
            &&& r.error is None
            &&& r.new_state.pc == s.pc + len
            &&& (op == 0xAD || op == 0xA5) ==> {
                &&& r.new_state.regs@[0] == v
                &&& (q & 0x80u32 != 0) == (v >= 128)
                &&& (q & 2u32 != 0) == (v == 0)
                &&& q & 1u32 == s.regs@[4] & 1u32
                &&& fwd_mem(m, r.undo_log@) == m
            }
            &&& (op == 0x8D || op == 0x85) ==> {
                &&& r.new_state.regs@ == s.regs@
                &&& fwd_mem(m, r.undo_log@) == m.update(addr, s.regs@[0] as u8)
            }
        }),
{
    let pc = s.pc;
    let op = m[pc as int];
    let rg = s.regs@;
    lemma_word_bits(pc, m[pc + 1], m[pc + 2]);
    assert(abs_addr(m, pc as int) == m[pc + 1] + 256 * m[pc + 2]);
    if is_load(op) {
        assert(effect(rg, m, pc as int, op) == load_effect(rg, m, pc as int, op));
        lemma_nzc(rg[4], load_value(rg, m, pc as int, op), false);
    } else {
        assert(effect(rg, m, pc as int, op) == store_effect(rg, m, pc as int, op));
    }
    assert(produced(r, m, effect(rg, m, pc as int, op), op as u32, three_stages()));
}

} // verus!

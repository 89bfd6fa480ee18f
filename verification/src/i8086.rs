//! Intel 8086 (flat model): AX BX CX DX SI DI BP SP at indices 0-7, FLAGS at
//! 8 (Z = 0x40, C = 1), then CS DS SS ES; the program counter is a linear
//! address and stack addresses are SS * 16 + SP.
use vstd::prelude::*;
use crate::plugin::{
    CpuState, ResetConfig, StepMode, StepResult, TraceEvent, RegisterSchema,
    failed, stays_halted, three_stages, error_result, halted_result, stage_actions,
};
use crate::effects::{Effect, Changes, produced, peek, poke, peek_at};
use crate::memory::{in_bounds, oob_message, oob_error};
use crate::text::{hex_text, dec_text, int_text};
use crate::fmt::{Text, lit};
use crate::undo::{faithful, faithful_mem};
use crate::rv32i::{modw, add_w};
use crate::i8085::{base_events, ev_w, ev_m, ev, stages, acts3};

verus! {

pub struct I8086Plugin;

// ---------------------------------------------------------------------------
// Semantics
// ---------------------------------------------------------------------------

pub open spec fn fx32(regs: Seq<u32>, pc: u32, mem: Seq<u8>, events: Seq<TraceEvent>, cycles: u64) -> Effect {
    Effect { regs, pc, halted: false, mem, events, cycles, out: None }
}

/// The byte `k` places after `pc` (addresses wrap at 2^32).
pub open spec fn byte_after(m: Seq<u8>, pc: u32, k: int) -> u8 {
    peek(m, modw(pc + k) as int)
}

/// The little-endian word `k` places after `pc`.
pub open spec fn word_after(m: Seq<u8>, pc: u32, k: int) -> int {
    byte_after(m, pc, k) + byte_after(m, pc, k + 1) * 256
}

pub open spec fn sext8(b: u8) -> int {
    if b >= 128 {
        b - 256
    } else {
        b as int
    }
}

pub open spec fn sext16(v: int) -> int {
    if v >= 0x8000 {
        v - 0x10000
    } else {
        v
    }
}

/// The low 16 bits of a register.
pub open spec fn low16(x: u32) -> u32 {
    x & 0xFFFFu32
}

pub open spec fn modrm_dst(b: u8) -> int {
    ((b >> 3u8) & 7u8) as int
}

pub open spec fn modrm_src(b: u8) -> int {
    (b & 7u8) as int
}

/// The stack pointer and the linear address of `SS:off`.
pub open spec fn sp16(r: Seq<u32>) -> int {
    low16(r[7]) as int
}

pub open spec fn stack_addr(r: Seq<u32>, off: int) -> int {
    low16(r[11]) * 16 + off
}

/// FLAGS with Z and C set.
pub open spec fn with_zc(f: u32, z: bool, c: bool) -> u32 {
    (f & 0xFFFF_FFBEu32) | (if z { 0x40u32 } else { 0u32 }) | (if c { 1u32 } else { 0u32 })
}

pub open spec fn known(op: u8) -> bool {
    op == 0x90 || op == 0xF4 || is_reg_op(op) || is_stack_op(op) || is_jump(op)
}

/// MOV, ADD and SUB on registers.
pub open spec fn is_reg_op(op: u8) -> bool {
    op == 0x8B || (0xB8 <= op <= 0xBF) || (0x01 <= op <= 0x03) || (0x29 <= op <= 0x2B)
}

/// PUSH, POP, CALL and RET.
pub open spec fn is_stack_op(op: u8) -> bool {
    (0x50 <= op <= 0x5F) || op == 0xE8 || op == 0xC3
}

pub open spec fn is_jump(op: u8) -> bool {
    op == 0xE9 || op == 0xEB || op == 0x74 || op == 0x75
}

pub open spec fn reg_effect(r: Seq<u32>, m: Seq<u8>, pc: u32, op: u8) -> Effect {
    let b1 = byte_after(m, pc, 1);
    let d = modrm_dst(b1);
    let a = low16(r[d]) as int;
    let b = low16(r[modrm_src(b1)]) as int;
    if op == 0x8B {
        fx32(r.update(d, low16(r[modrm_src(b1)])), modw(pc + 2), m, ev_w(), 2)
    } else if 0xB8 <= op <= 0xBF {
        fx32(r.update((op & 7u8) as int, word_after(m, pc, 1) as u32), modw(pc + 3), m, ev_w(), 3)
    } else if 0x01 <= op <= 0x03 {
        let res = (a + b) % 0x10000;
        fx32(r.update(8, with_zc(r[8], res == 0, a + b > 0xFFFF)).update(d, res as u32), modw(pc + 2), m, ev_w(), 2)
    } else {
        let res = (a - b) % 0x10000;
        fx32(r.update(8, with_zc(r[8], res == 0, a >= b)).update(d, res as u32), modw(pc + 2), m, ev_w(), 2)
    }
}

/// Memory after writing the little-endian word `v` at `a`.
pub open spec fn put_word(m: Seq<u8>, a: int, v: int) -> Seq<u8> {
    poke(poke(m, a, (v % 256) as u8), a + 1, ((v / 256) % 256) as u8)
}

pub open spec fn stack_effect(r: Seq<u32>, m: Seq<u8>, pc: u32, op: u8) -> Effect {
    let sp = sp16(r);
    let down = (sp + 0x10000 - 2) % 0x10000;
    let up = (sp + 2) % 0x10000;
    if 0x50 <= op <= 0x57 {
        let v = low16(r[(op & 7u8) as int]) as int;
        fx32(r.update(7, down as u32), modw(pc + 1), put_word(m, stack_addr(r, down), v), ev_m(), 1)
    } else if 0x58 <= op <= 0x5F {
        let v = peek(m, stack_addr(r, sp)) + peek(m, stack_addr(r, sp) + 1) * 256;
        fx32(r.update((op & 7u8) as int, v as u32).update(7, up as u32), modw(pc + 1), m, ev_m(), 1)
    } else if op == 0xE8 {
        let ret = modw(pc + 3) as int;
        fx32(r.update(7, down as u32), modw(pc + 3 + sext16(word_after(m, pc, 1))), put_word(m, stack_addr(r, down), ret),
            ev_m(), 3)
    } else {
        let t = peek(m, stack_addr(r, sp)) + peek(m, stack_addr(r, sp) + 1) * 256;
        fx32(r.update(7, up as u32), t as u32, m, ev_m(), 1)
    }
}

pub open spec fn jump_effect(r: Seq<u32>, m: Seq<u8>, pc: u32, op: u8) -> Effect {
    let rel = sext8(byte_after(m, pc, 1));
    if op == 0xE9 {
        fx32(r, modw(pc + 3 + sext16(word_after(m, pc, 1))), m, base_events(), 3)
    } else if op == 0xEB {
        fx32(r, modw(pc + 2 + rel), m, base_events(), 2)
    } else {
        let z = r[8] & 0x40u32 != 0;
        let take = if op == 0x74 { z } else { !z };
        fx32(r, if take { modw(pc + 2 + rel) } else { modw(pc + 2) }, m, base_events(), 2)
    }
}

/// What executing the known opcode `op` at `pc` does.
pub open spec fn effect(r: Seq<u32>, m: Seq<u8>, pc: u32, op: u8) -> Effect {
    if op == 0x90 {
        fx32(r, modw(pc + 1), m, base_events(), 1)
    } else if op == 0xF4 {
        Effect { regs: r, pc, halted: true, mem: m, events: base_events(), cycles: 1, out: None }
    } else if is_reg_op(op) {
        reg_effect(r, m, pc, op)
    } else if is_stack_op(op) {
        stack_effect(r, m, pc, op)
    } else {
        jump_effect(r, m, pc, op)
    }
}

pub open spec fn unknown_text(op: u8, pc: u32) -> Seq<char> {
    "Unknown 8086 opcode 0x"@ + hex_text(op as nat, 2) + " at linear 0x"@ + hex_text(pc as nat, 5)
}

/// The texts shown for the fetch and execute stages of the known opcode
/// `op` at `pc`.
pub open spec fn stage_texts(r: Seq<u32>, m: Seq<u8>, pc: u32, op: u8) -> (Seq<char>, Seq<char>) {
    let b1 = byte_after(m, pc, 1);
    let d = modrm_dst(b1) as nat;
    let sr = modrm_src(b1) as nat;
    let k = (op & 7u8) as nat;
    if op == 0x90 {
        ("Fetch NOP"@, "NOP"@)
    } else if op == 0xF4 {
        ("Fetch HLT"@, "Halt"@)
    } else if op == 0x8B {
        ("Fetch MOV"@, "reg"@ + dec_text(d) + " ← reg"@ + dec_text(sr))
    } else if 0xB8 <= op <= 0xBF {
        ("Fetch MOV reg,imm"@, "reg"@ + dec_text(k) + " ← 0x"@ + hex_text(word_after(m, pc, 1) as nat, 4))
    } else if 0x01 <= op <= 0x03 {
        ("Fetch ADD"@, "reg"@ + dec_text(d) + " ← reg"@ + dec_text(d) + " + reg"@ + dec_text(sr))
    } else if 0x29 <= op <= 0x2B {
        ("Fetch SUB"@, "reg"@ + dec_text(d) + " ← reg"@ + dec_text(d) + " - reg"@ + dec_text(sr))
    } else if 0x50 <= op <= 0x57 {
        ("Fetch PUSH"@, "Push reg"@ + dec_text(k))
    } else if 0x58 <= op <= 0x5F {
        ("Fetch POP"@, "Pop reg"@ + dec_text(k))
    } else if op == 0xE8 {
        ("Fetch CALL"@, "Push return, jump"@)
    } else if op == 0xC3 {
        ("Fetch RET"@, "Pop PC"@)
    } else if op == 0xE9 {
        ("Fetch JMP"@, "PC += "@ + int_text(sext16(word_after(m, pc, 1))))
    } else if op == 0xEB {
        ("Fetch JMP short"@, "PC += rel8"@)
    } else {
        let z = r[8] & 0x40u32 != 0;
        let take = if op == 0x74 { z } else { !z };
        (if op == 0x74 { "Fetch JZ"@ } else { "Fetch JNZ"@ }, if take { "Taken"@ } else { "Not taken"@ })
    }
}

/// The contract of one 8086 step.
pub open spec fn step_post(s: CpuState, m: Seq<u8>, r: StepResult) -> bool {
    if s.halted {
        stays_halted(s, r)
    } else if !in_bounds(s.pc, 1, m.len()) {
        failed(s, r, None) && (r.error matches Some(e) && e@ == oob_message(s.pc, 1, m.len()))
    } else if !known(m[s.pc as int]) {
        failed(s, r, Some(m[s.pc as int] as u32)) && (r.error matches Some(e) && e@ == unknown_text(m[s.pc as int], s.pc))
    } else {
        &&& produced(r, m, effect(s.regs@, m, s.pc, m[s.pc as int]), m[s.pc as int] as u32, three_stages())
        &&& stage_actions(r.pipeline_stages@) == acts3(stage_texts(s.regs@, m, s.pc, m[s.pc as int]))
        &&& faithful_mem(m, r.undo_log@)
        &&& faithful(s.regs@, s.pc, m, r.undo_log@)
    }
}

// ---------------------------------------------------------------------------
// Executor
// ---------------------------------------------------------------------------

fn byte_at(m: &[u8], pc: u32, k: u32) -> (b: u8)
    requires
        k <= 3,
    ensures
        b == byte_after(m@, pc, k as int),
{
    peek_at(m, add_w(pc, k))
}

fn word_at(m: &[u8], pc: u32, k: u32) -> (w: u32)
    requires
        k <= 2,
    ensures
        w == word_after(m@, pc, k as int),
{
    byte_at(m, pc, k) as u32 + byte_at(m, pc, k + 1) as u32 * 256
}

fn sext16_of(v: u32) -> (r: i64)
    requires
        v < 0x10000,
    ensures
        r == sext16(v as int),
{
    if v >= 0x8000 {
        v as i64 - 0x10000
    } else {
        v as i64
    }
}

/// `pc + d` modulo 2^32.
/// Bit facts of the executor: the ModRM fields and the sign extension of a
/// byte `x`, the low sixteen bits of a word `w`, and the Z and C bits that
/// `with_zc` sets in a flags word `f`.
proof fn lemma_bits(x: u8, w: u32, f: u32, z: bool, c: bool)
    by (bit_vector)
    ensures
        (x >> 3u8) & 7u8 < 8,
        x & 7u8 < 8,
        sext8(x) == (x as i8) as int,
        w & 0xFFFFu32 <= 0xFFFF,
        w <= 0xFFFF ==> w & 0xFFFFu32 == w,
        (with_zc(f, z, c) & 0x40u32 != 0) == z,
        (with_zc(f, z, c) & 1u32 != 0) == c,
{
}

fn offset_pc(pc: u32, d: i64) -> (r: u32)
    requires
        -0x10000 <= d <= 0x10000,
    ensures
        r == modw(pc + d),
{
    let v: i64 = pc as i64 + d;
    if v < 0 {
        (v + 0x1_0000_0000) as u32
    } else if v >= 0x1_0000_0000 {
        (v - 0x1_0000_0000) as u32
    } else {
        v as u32
    }
}

fn reg_text(prefix: &str, a: u8, mid: &str, b: u8) -> (r: String)
    ensures
        r@ == prefix@ + dec_text(a as nat) + mid@ + dec_text(b as nat),
{
    Text::new().s(prefix).dec(a as u64).s(mid).dec(b as u64).done()
}

/// MOV, ADD and SUB on registers.
fn exec_reg(state: &CpuState, m: &[u8], op: u8) -> (r: StepResult)
    requires
        state.regs@.len() >= 12,
        is_reg_op(op),
    ensures
        produced(r, m@, reg_effect(state.regs@, m@, state.pc, op), op as u32, three_stages()),
        stage_actions(r.pipeline_stages@) == acts3(stage_texts(state.regs@, m@, state.pc, op)),
        faithful_mem(m@, r.undo_log@),
        faithful(state.regs@, state.pc, m@, r.undo_log@),
        r.cycles_added <= 3,
        r.pipeline_stages@.len() == 3,
{
    let regs = &state.regs;
    let pc = state.pc;
    let b1 = byte_at(m, pc, 1);
    let d = (b1 >> 3u8) & 7u8;
    let sr = b1 & 7u8;
    proof {
        lemma_bits(b1, 0, 0, false, false);
    }
    let a0 = regs[d as usize];
    let b0 = regs[sr as usize];
    let a = a0 & 0xFFFFu32;
    let b = b0 & 0xFFFFu32;
    proof {
        lemma_bits(0, a0, 0, false, false);
        lemma_bits(0, b0, 0, false, false);
    }
    let mut c = Changes::start(regs, pc, m);
    if op == 0x8B {
        let st = stages(op, lit("Fetch MOV"), reg_text("reg", d, " ← reg", sr));
        c.set(d as usize, b);
        c.finish(add_w(pc, 2), false, ev(false, true), 2, op as u32, None, st)
    } else if 0xB8 <= op && op <= 0xBF {
        let k = op & 7u8;
        proof {
            lemma_bits(op, 0, 0, false, false);
        }
        let v = word_at(m, pc, 1);
        let st = stages(op, lit("Fetch MOV reg,imm"), Text::new().s("reg").dec(k as u64).s(" ← 0x").hex(v as u64, 4).done());
        c.set(k as usize, v);
        c.finish(add_w(pc, 3), false, ev(false, true), 3, op as u32, None, st)
    } else if 0x01 <= op && op <= 0x03 {
        let sum = a + b;
        let res = sum % 0x10000;
        let st = stages(op, lit("Fetch ADD"), Text::new().s("reg").dec(d as u64).s(" ← reg").dec(d as u64).s(" + reg").dec(
            sr as u64,
        ).done());
        let f = (regs[8] & 0xFFFF_FFBEu32) | (if res == 0 { 0x40u32 } else { 0u32 }) | (if sum > 0xFFFF { 1u32 } else { 0u32 });
        c.set(8, f);
        c.set(d as usize, res);
        c.finish(add_w(pc, 2), false, ev(false, true), 2, op as u32, None, st)
    } else {
        let res = if a >= b { a - b } else { a + 0x10000 - b };
        let st = stages(op, lit("Fetch SUB"), Text::new().s("reg").dec(d as u64).s(" ← reg").dec(d as u64).s(" - reg").dec(
            sr as u64,
        ).done());
        let f = (regs[8] & 0xFFFF_FFBEu32) | (if res == 0 { 0x40u32 } else { 0u32 }) | (if a >= b { 1u32 } else { 0u32 });
        c.set(8, f);
        c.set(d as usize, res);
        c.finish(add_w(pc, 2), false, ev(false, true), 2, op as u32, None, st)
    }
}

/// Writes the word `v` at `a` through the change builder.
fn write_word(c: &mut Changes, m: &[u8], a: u32, v: u32)
    requires
        old(c).inv(),
        old(c).mem() == m@,
        a < 0xFFFF_FFFF,
    ensures
        final(c).regs@ == old(c).regs@,
        final(c).mem() == put_word(m@, a as int, v as int),
        final(c).inv(),
        final(c).base_regs == old(c).base_regs,
        final(c).base_pc == old(c).base_pc,
        final(c).base_mem == old(c).base_mem,
        final(c).pc() == old(c).pc(),
        old(c).regs_kept() ==> final(c).regs_kept(),
        old(c).pc_kept() ==> final(c).pc_kept(),
        old(c).mem_kept() ==> final(c).mem_kept(),
{
    c.write(a, (v % 256) as u8, peek_at(m, a));
    c.write(a + 1, ((v / 256) % 256) as u8, peek_at(m, a + 1));
}

/// PUSH, POP, CALL and RET.
fn exec_stack(state: &CpuState, m: &[u8], op: u8) -> (r: StepResult)
    requires
        state.regs@.len() >= 12,
        is_stack_op(op),
    ensures
        produced(r, m@, stack_effect(state.regs@, m@, state.pc, op), op as u32, three_stages()),
        stage_actions(r.pipeline_stages@) == acts3(stage_texts(state.regs@, m@, state.pc, op)),
        faithful_mem(m@, r.undo_log@),
        faithful(state.regs@, state.pc, m@, r.undo_log@),
        r.cycles_added <= 3,
        r.pipeline_stages@.len() == 3,
{
    let regs = &state.regs;
    let pc = state.pc;
    let sp0 = regs[7];
    let ss0 = regs[11];
    let sp = sp0 & 0xFFFFu32;
    let ss = ss0 & 0xFFFFu32;
    proof {
        lemma_bits(0, sp0, 0, false, false);
        lemma_bits(0, ss0, 0, false, false);
    }
    let down: u32 = if sp >= 2 { sp - 2 } else { sp + 0xFFFE };
    let up: u32 = (sp + 2) % 0x10000;
    let mut c = Changes::start(regs, pc, m);
    if 0x50 <= op && op <= 0x57 {
        let k = op & 7u8;
        proof {
            lemma_bits(op, 0, 0, false, false);
        }
        let v = regs[k as usize] & 0xFFFFu32;
        let st = stages(op, lit("Fetch PUSH"), Text::new().s("Push reg").dec(k as u64).done());
        c.set(7, down);
        write_word(&mut c, m, ss * 16 + down, v);
        c.finish(add_w(pc, 1), false, ev(true, false), 1, op as u32, None, st)
    } else if 0x58 <= op && op <= 0x5F {
        let k = op & 7u8;
        proof {
            lemma_bits(op, 0, 0, false, false);
        }
        let a = ss * 16 + sp;
        let v = peek_at(m, a) as u32 + peek_at(m, a + 1) as u32 * 256;
        let st = stages(op, lit("Fetch POP"), Text::new().s("Pop reg").dec(k as u64).done());
        c.set(k as usize, v);
        c.set(7, up);
        c.finish(add_w(pc, 1), false, ev(true, false), 1, op as u32, None, st)
    } else if op == 0xE8 {
        let rel = sext16_of(word_at(m, pc, 1));
        let ret = add_w(pc, 3);
        let t = offset_pc(pc, 3 + rel);
        let st = stages(op, lit("Fetch CALL"), lit("Push return, jump"));
        c.set(7, down);
        write_word(&mut c, m, ss * 16 + down, ret);
        c.jump(pc, t);
        c.finish(t, false, ev(true, false), 3, op as u32, None, st)
    } else {
        let a = ss * 16 + sp;
        let t = peek_at(m, a) as u32 + peek_at(m, a + 1) as u32 * 256;
        let st = stages(op, lit("Fetch RET"), lit("Pop PC"));
        c.set(7, up);
        c.jump(pc, t);
        c.finish(t, false, ev(true, false), 1, op as u32, None, st)
    }
}

/// NOP, HLT, JMP and the conditional jumps.
fn exec_jump(state: &CpuState, m: &[u8], op: u8) -> (r: StepResult)
    requires
        state.regs@.len() >= 12,
        op == 0x90 || op == 0xF4 || is_jump(op),
    ensures
        produced(r, m@, effect(state.regs@, m@, state.pc, op), op as u32, three_stages()),
        stage_actions(r.pipeline_stages@) == acts3(stage_texts(state.regs@, m@, state.pc, op)),
        faithful_mem(m@, r.undo_log@),
        faithful(state.regs@, state.pc, m@, r.undo_log@),
        r.cycles_added <= 3,
        r.pipeline_stages@.len() == 3,
{
    let regs = &state.regs;
    let pc = state.pc;
    let mut c = Changes::start(regs, pc, m);
    if op == 0x90 {
        let st = stages(op, lit("Fetch NOP"), lit("NOP"));
        c.finish(add_w(pc, 1), false, ev(false, false), 1, op as u32, None, st)
    } else if op == 0xF4 {
        let st = stages(op, lit("Fetch HLT"), lit("Halt"));
        c.finish(pc, true, ev(false, false), 1, op as u32, None, st)
    } else if op == 0xE9 {
        let rel = sext16_of(word_at(m, pc, 1));
        let t = offset_pc(pc, 3 + rel);
        let st = stages(op, lit("Fetch JMP"), Text::new().s("PC += ").sint(rel).done());
        c.jump(pc, t);
        c.finish(t, false, ev(false, false), 3, op as u32, None, st)
    } else {
        let b1 = byte_at(m, pc, 1);
        let rel: i64 = if b1 >= 128 { b1 as i64 - 256 } else { b1 as i64 };
        let take = if op == 0xEB {
            true
        } else if op == 0x74 {
            regs[8] & 0x40u32 != 0
        } else {
            regs[8] & 0x40u32 == 0
        };
        let t = if take { offset_pc(pc, 2 + rel) } else { add_w(pc, 2) };
        let st = if op == 0xEB {
            stages(op, lit("Fetch JMP short"), lit("PC += rel8"))
        } else {
            stages(op, lit(if op == 0x74 { "Fetch JZ" } else { "Fetch JNZ" }), lit(if take { "Taken" } else { "Not taken" }))
        };
        c.jump(pc, t);
        c.finish(t, false, ev(false, false), 2, op as u32, None, st)
    }
}

fn known_op(op: u8) -> (b: bool)
    ensures
        b == known(op),
{
    op == 0x90 || op == 0xF4 || op == 0x8B || (0xB8 <= op && op <= 0xBF) || (0x01 <= op && op <= 0x03) || (0x29 <= op
        && op <= 0x2B) || (0x50 <= op && op <= 0x5F) || op == 0xE8 || op == 0xC3 || op == 0xE9 || op == 0xEB || op == 0x74
        || op == 0x75
}

impl Default for I8086Plugin {
    fn default() -> (p: Self) {
        I8086Plugin
    }
}

impl I8086Plugin {
    pub fn new() -> (p: Self) {
        I8086Plugin
    }

    pub fn name(&self) -> (r: &'static str)
        ensures
            r@ == "8086"@,
    {
        "8086"
    }

    /// Linear PC at 0, all thirteen registers cleared.
    pub fn reset(&self, config: &ResetConfig) -> (s: CpuState)
        ensures
            s.pc == 0,
            s.regs@ == Seq::new(13, |i: int| 0u32),
            !s.halted,
    {
        let regs = vec![0u32; 13];
        assert(regs@ =~= Seq::new(13, |i: int| 0u32));
        CpuState { pc: 0, regs, halted: false }
    }

    /// Executes one instruction.
    pub fn step(&self, state: &CpuState, memory: &[u8], mode: StepMode, input: Option<&str>) -> (r: StepResult)
        requires
            state.regs@.len() >= 12,
            memory@.len() <= 0xFFFF_FFFF,
        ensures
            step_post(*state, memory@, r),
            r.cycles_added <= 3,
            r.pipeline_stages@.len() <= 3,
    {
        if state.halted {
            return halted_result(state);
        }
        let pc = state.pc;
        if (pc as usize) >= memory.len() {
            return error_result(state, None, oob_error(pc, 1, memory.len()));
        }
        let op = memory[pc as usize];
        if !known_op(op) {
            let e = Text::new().s("Unknown 8086 opcode 0x").hex(op as u64, 2).s(" at linear 0x").hex(pc as u64, 5).done();
            return error_result(state, Some(op as u32), e);
        }
        if op == 0x8B || (0xB8 <= op && op <= 0xBF) || (0x01 <= op && op <= 0x03) || (0x29 <= op && op <= 0x2B) {
            exec_reg(state, memory, op)
        } else if (0x50 <= op && op <= 0x5F) || op == 0xE8 || op == 0xC3 {
            exec_stack(state, memory, op)
        } else {
            exec_jump(state, memory, op)
        }
    }

    pub fn register_schema(&self) -> (s: RegisterSchema)
        ensures
            s.pc_name@ == "IP (linear)"@,
            s.reg_names@.len() == 13,
            s.reg_names@[0]@ == "AX"@,
            s.reg_names@[1]@ == "BX"@,
            s.reg_names@[2]@ == "CX"@,
            s.reg_names@[3]@ == "DX"@,
            s.reg_names@[4]@ == "SI"@,
            s.reg_names@[5]@ == "DI"@,
            s.reg_names@[6]@ == "BP"@,
            s.reg_names@[7]@ == "SP"@,
            s.reg_names@[8]@ == "FLAGS"@,
            s.reg_names@[9]@ == "CS"@,
            s.reg_names@[10]@ == "DS"@,
            s.reg_names@[11]@ == "SS"@,
            s.reg_names@[12]@ == "ES"@,
    {
        let mut names: Vec<String> = Vec::new();
        names.push(lit("AX"));
        names.push(lit("BX"));
        names.push(lit("CX"));
        names.push(lit("DX"));
        names.push(lit("SI"));
        names.push(lit("DI"));
        names.push(lit("BP"));
        names.push(lit("SP"));
        names.push(lit("FLAGS"));
        names.push(lit("CS"));
        names.push(lit("DS"));
        names.push(lit("SS"));
        names.push(lit("ES"));
        RegisterSchema { pc_name: lit("IP (linear)"), reg_names: names }
    }
}

/// A CALL followed by a RET comes back to the instruction after the CALL
/// with every register as it was; the return address stays on the stack.
#[verifier::rlimit(40)]
pub proof fn lemma_call_then_ret(r: Seq<u32>, m: Seq<u8>, pc: u32)
    requires
        r.len() >= 12,
        pc + 3 <= 0xFFFF,
        r[7] <= 0xFFFF,
        stack_addr(r, (sp16(r) + 0x10000 - 2) % 0x10000) + 1 < m.len(),
    ensures
        ({
            let c = stack_effect(r, m, pc, 0xE8);
            let d = stack_effect(c.regs, c.mem, c.pc, 0xC3);
            d.pc == pc + 3 && d.regs == r
        }),
{
    let sp = r[7];
    assert(sp & 0xFFFFu32 == sp) by {
        lemma_bits(0, sp, 0, false, false);
    }
    let down: u32 = ((sp + 0x10000 - 2) % 0x10000) as u32;
    assert(down & 0xFFFFu32 == down) by {
        lemma_bits(0, down, 0, false, false);
    }
    let ret: int = pc + 3;
    assert(modw(pc + 3) == ret);
    let c = stack_effect(r, m, pc, 0xE8);
    assert(c.regs == r.update(7, down));
    let a = stack_addr(r, down as int);
    assert(c.mem == put_word(m, a, ret));
    assert(stack_addr(c.regs, sp16(c.regs)) == a);
    assert(peek(c.mem, a) + peek(c.mem, a + 1) * 256 == ret);
    let d = stack_effect(c.regs, c.mem, c.pc, 0xC3);
    assert(d.regs =~= r);
}

/// ADD (opcodes 0x01-0x03) and SUB (0x29-0x2B) on two registers named by
/// the following byte (destination bits 5-3, source bits 2-0) set the
/// destination to the 16-bit sum or difference of their low 16 bits; the
/// zero flag (0x40) says whether that is zero, and the carry (bit 0) is
/// the carry out of the addition, or for SUB whether no borrow occurred.
/// The step moves two bytes on.
pub proof fn lemma_add_sub(s: CpuState, m: Seq<u8>, r: StepResult)
    requires
        step_post(s, m, r),
        !s.halted,
        s.regs@.len() >= 12,
        s.pc + 2 <= m.len(),
        m.len() <= 0xFFFF_FFFF,
        (0x01 <= m[s.pc as int] <= 0x03) || (0x29 <= m[s.pc as int] <= 0x2B),
    ensures
        ({
            let op = m[s.pc as int];
            let b1 = m[s.pc + 1];
            let d = ((b1 >> 3u8) & 7u8) as int;
            let a = (s.regs@[d] & 0xFFFFu32) as int;
            let b = (s.regs@[(b1 & 7u8) as int] & 0xFFFFu32) as int;
            let add = op <= 0x03;
            let res = if add { (a + b) % 0x10000 } else { (a - b) % 0x10000 };
            let f = r.new_state.regs@[8];
            &&& r.error is None
            &&& r.new_state.pc == s.pc + 2
            &&& r.new_state.regs@[d] == res
            &&& (f & 0x40u32 != 0) == (res == 0)
            &&& (f & 1u32 != 0) == (if add { a + b > 0xFFFF } else { a >= b })
        }),
{
    let pc = s.pc;
    let op = m[pc as int];
    let b1 = m[pc + 1];
    assert(modw(pc + 1) == pc + 1 && modw(pc + 2) == pc + 2);
    assert(byte_after(m, pc, 1) == b1);
    lemma_bits(b1, 0, 0, false, false);
    assert(effect(s.regs@, m, pc, op) == reg_effect(s.regs@, m, pc, op));
    let a = (s.regs@[modrm_dst(b1)] & 0xFFFFu32);
    let b = (s.regs@[modrm_src(b1)] & 0xFFFFu32);
    let f0 = s.regs@[8];
    let z1 = (a + b) % 0x10000 == 0;
    let z2 = (a - b) % 0x10000 == 0;
    let c1 = a + b > 0xFFFF;
    let c2 = a >= b;
    assert((with_zc(f0, z1, c1) & 0x40u32 != 0) == z1 && (with_zc(f0, z1, c1) & 1u32 != 0) == c1
        && (with_zc(f0, z2, c2) & 0x40u32 != 0) == z2 && (with_zc(f0, z2, c2) & 1u32 != 0) == c2) by {
        let w1 = with_zc(f0, z1, c1);
        let w2 = with_zc(f0, z2, c2);
        lemma_bits(0, 0, f0, z1, c1);
        lemma_bits(0, 0, f0, z2, c2);
    }
    assert(produced(r, m, effect(s.regs@, m, pc, op), op as u32, three_stages()));
}

/// JZ (0x74) is taken exactly when the zero flag (0x40) is set and JNZ
/// (0x75) exactly when it is clear; taken, the jump moves by the signed
/// byte after the opcode from the next instruction, else to the next
/// instruction. No register changes.
pub proof fn lemma_conditional_jumps(s: CpuState, m: Seq<u8>, r: StepResult)
    requires
        step_post(s, m, r),
        !s.halted,
        s.regs@.len() >= 12,
        s.pc + 2 <= m.len(),
        m.len() <= 0xFFFF_FFFF,
        m[s.pc as int] == 0x74 || m[s.pc as int] == 0x75,
    ensures
        ({
            let z = s.regs@[8] & 0x40u32 != 0;
            let taken = if m[s.pc as int] == 0x74 { z } else { !z };
            let off = (m[s.pc + 1] as i8) as int;
            &&& r.error is None
            &&& r.new_state.regs@ == s.regs@
            &&& taken ==> r.new_state.pc as int == (s.pc + 2 + off) % 0x1_0000_0000
            &&& !taken ==> r.new_state.pc == s.pc + 2
        }),
{
    let pc = s.pc;
    let op = m[pc as int];
    let b1 = m[pc + 1];
    assert(modw(pc + 1) == pc + 1 && modw(pc + 2) == pc + 2);
    assert(byte_after(m, pc, 1) == b1);
    lemma_bits(b1, 0, 0, false, false);
    assert(effect(s.regs@, m, pc, op) == jump_effect(s.regs@, m, pc, op));
    assert(produced(r, m, effect(s.regs@, m, pc, op), op as u32, three_stages()));
}

/// MOV reg, reg (0x8B, registers named by the next byte: destination bits
/// 5-3, source bits 2-0) copies the low 16 bits of the source; MOV reg,
/// imm16 (0xB8-0xBF, register in the low three bits) loads the word after
/// the opcode (low byte first). JMP near (0xE9) moves by that word read as
/// a signed 16-bit number from the next instruction, JMP short (0xEB) by
/// the signed byte after the opcode. Nothing else changes.
pub proof fn lemma_moves_and_jumps(s: CpuState, m: Seq<u8>, r: StepResult)
    requires
        step_post(s, m, r),
        !s.halted,
        s.regs@.len() >= 12,
        s.pc + 3 <= m.len(),
        m.len() <= 0xFFFF_FFFF,
        ({
            let op = m[s.pc as int];
            op == 0x8B || (0xB8 <= op <= 0xBF) || op == 0xE9 || op == 0xEB
        }),
    ensures
        ({
            let op = m[s.pc as int];
            let b1 = m[s.pc + 1];
            let w = m[s.pc + 1] + 256 * m[s.pc + 2];
            let near: int = if w >= 0x8000 { w - 0x10000 } else { w };
            &&& r.error is None
            &&& op == 0x8B ==> r.new_state.pc == s.pc + 2 && r.new_state.regs@ == s.regs@.update(
                ((b1 >> 3u8) & 7u8) as int,
                s.regs@[(b1 & 7u8) as int] & 0xFFFFu32,
            )
            &&& 0xB8 <= op <= 0xBF ==> r.new_state.pc == s.pc + 3 && r.new_state.regs@ == s.regs@.update(
                (op & 7u8) as int,
                w as u32,
            )
            &&& op == 0xE9 ==> r.new_state.regs@ == s.regs@ && r.new_state.pc as int == (s.pc + 3 + near) % 0x1_0000_0000
            &&& op == 0xEB ==> r.new_state.regs@ == s.regs@ && r.new_state.pc as int == (s.pc + 2 + (b1 as i8) as int)
                % 0x1_0000_0000
        }),
{
    let pc = s.pc;
    let op = m[pc as int];
    let b1 = m[pc + 1];
    assert(modw(pc + 1) == pc + 1 && modw(pc + 2) == pc + 2 && modw(pc + 3) == pc + 3);
    assert(byte_after(m, pc, 1) == b1);
    assert(byte_after(m, pc, 2) == m[pc + 2]);
    lemma_bits(b1, 0, 0, false, false);
    assert(produced(r, m, effect(s.regs@, m, pc, op), op as u32, three_stages()));
}

/// PUSH of register `k` followed by POP into register `j` (not SP) puts the
/// low 16 bits of register `k` into register `j` and leaves SP and every
/// other register as it was.
#[verifier::spinoff_prover]
#[verifier::rlimit(80)]
pub proof fn lemma_push_then_pop(r: Seq<u32>, m: Seq<u8>, pc: u32, k: u8, j: u8)
    requires
        r.len() >= 12,
        pc + 2 <= 0xFFFF_FFFF,
        r[7] <= 0xFFFF,
        k < 8,
        j < 8,
        j != 7,
        stack_addr(r, (sp16(r) + 0x10000 - 2) % 0x10000) + 1 < m.len(),
    ensures
        ({
            let c = stack_effect(r, m, pc, (0x50 + k) as u8);
            let d = stack_effect(c.regs, c.mem, c.pc, (0x58 + j) as u8);
            d.pc == pc + 2 && d.regs == r.update(j as int, r[k as int] & 0xFFFFu32)
        }),
{
    let sp = r[7];
    let p = (0x50 + k) as u8;
    let q = (0x58 + j) as u8;
    assert(sp & 0xFFFFu32 == sp && p & 7u8 == k && q & 7u8 == j) by {
        lemma_bits(0, sp, 0, false, false);
        lemma_bits(p, 0, 0, false, false);
        lemma_bits(q, 0, 0, false, false);
        assert(p & 7u8 == k && q & 7u8 == j) by (bit_vector)
            requires
                p == (0x50 + k) as u8,
                q == (0x58 + j) as u8,
                k < 8,
                j < 8,
        ;
    }
    let down: u32 = ((sp + 0x10000 - 2) % 0x10000) as u32;
    assert(down & 0xFFFFu32 == down) by {
        lemma_bits(0, down, 0, false, false);
    }
    let v = r[k as int] & 0xFFFFu32;
    assert(v <= 0xFFFF) by {
        lemma_bits(0, r[k as int], 0, false, false);
    }
    let c = stack_effect(r, m, pc, p);
    assert(c.regs == r.update(7, down));
    let a = stack_addr(r, down as int);
    assert(c.mem == put_word(m, a, v as int));
    assert(stack_addr(c.regs, sp16(c.regs)) == a);
    assert(peek(c.mem, a) == v % 256 && peek(c.mem, a + 1) == (v / 256) % 256);
    assert((v % 256) + ((v / 256) % 256) * 256 == v) by (nonlinear_arith)
        requires
            v <= 0xFFFF,
    ;
    let d = stack_effect(c.regs, c.mem, c.pc, q);
    assert(d.regs =~= r.update(j as int, v));
}

} // verus!

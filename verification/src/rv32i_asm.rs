//! RV32I assembler: one instruction per line, `label:` prefixes, `//` and
//! `#` comments; branch and jump targets may be labels.
use vstd::prelude::*;
use crate::plugin::{AssemblerError, SourceMapEntry, ProgramImage, RegisterSchema};
use crate::text::{
    chars_of, split_lines, split_ws, to_lower, trim_chars, find, slice_vec, eq_lit, starts_with_lit, lower_seq, trim,
    strip_trailing, strip_trailing_chars, parse_unsigned, parse_signed, parse_uint, parse_int, tokens, find_char,
    wrap32, lines_spec, before_char, dec_text,
};
use crate::asmutil::{strip_leading, strip_leading_chars, strip_leading_0x, strip_leading_0x_chars, asm_error, msg_with, read_word32, write_word32};
use crate::labels::LabelTable;
use crate::scan::{ImageView, image_view, Scan, errs_view, lemma_errs_push, line_label, line_rest, line_number, split_label, le32, put32};
use crate::fmt::{Text, lit};
use crate::rv32i::{Rv32iPlugin, b_bits, j_bits, opc, rs1, rs2, f3, f7, rd, signed, branch_taken, alu_reg, alu_imm};

verus! {

/// The register an ABI name stands for (`zero` handled apart).
pub open spec fn abi_reg(n: Seq<char>) -> Option<u32> {
    if n == "ra"@ {
        Some(1)
    } else if n == "sp"@ {
        Some(2)
    } else if n == "gp"@ {
        Some(3)
    } else if n == "tp"@ {
        Some(4)
    } else if n == "t0"@ {
        Some(5)
    } else if n == "t1"@ {
        Some(6)
    } else if n == "t2"@ {
        Some(7)
    } else if n == "s0"@ {
        Some(8)
    } else if n == "s1"@ {
        Some(9)
    } else if n == "a0"@ {
        Some(10)
    } else if n == "a1"@ {
        Some(11)
    } else if n == "a2"@ {
        Some(12)
    } else if n == "a3"@ {
        Some(13)
    } else if n == "a4"@ {
        Some(14)
    } else if n == "a5"@ {
        Some(15)
    } else if n == "a6"@ {
        Some(16)
    } else if n == "a7"@ {
        Some(17)
    } else if n == "s2"@ {
        Some(18)
    } else if n == "s3"@ {
        Some(19)
    } else if n == "s4"@ {
        Some(20)
    } else if n == "s5"@ {
        Some(21)
    } else if n == "s6"@ {
        Some(22)
    } else if n == "s7"@ {
        Some(23)
    } else if n == "s8"@ {
        Some(24)
    } else if n == "s9"@ {
        Some(25)
    } else if n == "s10"@ {
        Some(26)
    } else if n == "s11"@ {
        Some(27)
    } else if n == "t3"@ {
        Some(28)
    } else if n == "t4"@ {
        Some(29)
    } else if n == "t5"@ {
        Some(30)
    } else if n == "t6"@ {
        Some(31)
    } else {
        None
    }
}

fn abi_reg_of(n: &[char]) -> (r: Option<u32>)
    ensures
        r == abi_reg(n@),
{
    if eq_lit(n, "ra") {
        Some(1)
    } else if eq_lit(n, "sp") {
        Some(2)
    } else if eq_lit(n, "gp") {
        Some(3)
    } else if eq_lit(n, "tp") {
        Some(4)
    } else if eq_lit(n, "t0") {
        Some(5)
    } else if eq_lit(n, "t1") {
        Some(6)
    } else if eq_lit(n, "t2") {
        Some(7)
    } else if eq_lit(n, "s0") {
        Some(8)
    } else if eq_lit(n, "s1") {
        Some(9)
    } else if eq_lit(n, "a0") {
        Some(10)
    } else if eq_lit(n, "a1") {
        Some(11)
    } else if eq_lit(n, "a2") {
        Some(12)
    } else if eq_lit(n, "a3") {
        Some(13)
    } else if eq_lit(n, "a4") {
        Some(14)
    } else if eq_lit(n, "a5") {
        Some(15)
    } else if eq_lit(n, "a6") {
        Some(16)
    } else if eq_lit(n, "a7") {
        Some(17)
    } else if eq_lit(n, "s2") {
        Some(18)
    } else if eq_lit(n, "s3") {
        Some(19)
    } else if eq_lit(n, "s4") {
        Some(20)
    } else if eq_lit(n, "s5") {
        Some(21)
    } else if eq_lit(n, "s6") {
        Some(22)
    } else if eq_lit(n, "s7") {
        Some(23)
    } else if eq_lit(n, "s8") {
        Some(24)
    } else if eq_lit(n, "s9") {
        Some(25)
    } else if eq_lit(n, "s10") {
        Some(26)
    } else if eq_lit(n, "s11") {
        Some(27)
    } else if eq_lit(n, "t3") {
        Some(28)
    } else if eq_lit(n, "t4") {
        Some(29)
    } else if eq_lit(n, "t5") {
        Some(30)
    } else if eq_lit(n, "t6") {
        Some(31)
    } else {
        None
    }
}

/// A register operand: `x0`..`x31` or an ABI name, trimmed, trailing commas
/// dropped, any case.
pub open spec fn rv_reg_of(name: Seq<char>) -> Option<u32> {
    let n = lower_seq(strip_trailing(trim(name), ','));
    if n.len() > 0 && n[0] == 'x' {
        match parse_unsigned(strip_leading(n, 'x'), 10, 0xFFFF_FFFF) {
            Some(v) => if v < 32 { Some(v as u32) } else { None },
            None => None,
        }
    } else if n == "zero"@ {
        Some(0)
    } else {
        abi_reg(n)
    }
}

pub fn parse_rv_reg(name: &[char]) -> (r: Option<u32>)
    ensures
        r == rv_reg_of(name@),
        r matches Some(v) ==> v < 32,
{
    let t = trim_chars(name);
    let t2 = strip_trailing_chars(t.as_slice(), ',');
    let n = to_lower(t2.as_slice());
    if n.len() > 0 && n[0] == 'x' {
        let digits = strip_leading_chars(n.as_slice(), 'x');
        match parse_uint(digits.as_slice(), 10, 0xFFFF_FFFF) {
            Some(v) => if v < 32 { Some(v as u32) } else { None },
            None => None,
        }
    } else if eq_lit(n.as_slice(), "zero") {
        Some(0)
    } else {
        abi_reg_of(n.as_slice())
    }
}

pub open spec fn encode_r(op: u32, rd: u32, f3: u32, rs1: u32, rs2: u32, f7: u32) -> u32 {
    (f7 << 25u32) | (rs2 << 20u32) | (rs1 << 15u32) | (f3 << 12u32) | (rd << 7u32) | op
}

pub open spec fn encode_i(op: u32, rd: u32, f3: u32, rs1: u32, imm: u32) -> u32 {
    ((imm & 0xFFFu32) << 20u32) | (rs1 << 15u32) | (f3 << 12u32) | (rd << 7u32) | op
}

pub open spec fn encode_s(op: u32, imm: u32, f3: u32, rs1: u32, rs2: u32) -> u32 {
    let v = imm & 0xFFFu32;
    (((v >> 5u32) & 0x7Fu32) << 25u32) | (rs2 << 20u32) | (rs1 << 15u32) | (f3 << 12u32) | ((v & 0x1Fu32) << 7u32) | op
}

/// The B-type encoding as this assembler writes numeric offsets (bit 11 at
/// position 11 and bits 4-1 from position 7).
pub open spec fn encode_b(op: u32, imm: u32, f3: u32, rs1: u32, rs2: u32) -> u32 {
    let v = imm & 0x1FFFu32;
    (((v >> 12u32) & 1u32) << 31u32) | (((v >> 5u32) & 0x3Fu32) << 25u32) | (rs2 << 20u32) | (rs1 << 15u32) | (f3 << 12u32)
        | (((v >> 11u32) & 1u32) << 7u32) | (((v >> 1u32) & 0xFu32) << 8u32) | op
}

pub open spec fn encode_u(op: u32, rd: u32, imm: u32) -> u32 {
    ((imm & 0xFFFFFu32) << 12u32) | (rd << 7u32) | op
}

pub open spec fn encode_j(op: u32, rd: u32, imm: u32) -> u32 {
    let v = imm & 0x1FFFFFu32;
    (((v >> 20u32) & 1u32) << 31u32) | (((v >> 12u32) & 0xFFu32) << 12u32) | (((v >> 11u32) & 1u32) << 20u32) | (((v
        >> 1u32) & 0x3FFu32) << 21u32) | (rd << 7u32) | op
}

fn enc_r(op: u32, rd: u32, f3: u32, rs1: u32, rs2: u32, f7: u32) -> (w: u32)
    ensures
        w == encode_r(op, rd, f3, rs1, rs2, f7),
{
    (f7 << 25u32) | (rs2 << 20u32) | (rs1 << 15u32) | (f3 << 12u32) | (rd << 7u32) | op
}

fn enc_i(op: u32, rd: u32, f3: u32, rs1: u32, imm: u32) -> (w: u32)
    ensures
        w == encode_i(op, rd, f3, rs1, imm),
{
    ((imm & 0xFFFu32) << 20u32) | (rs1 << 15u32) | (f3 << 12u32) | (rd << 7u32) | op
}

fn enc_s(op: u32, imm: u32, f3: u32, rs1: u32, rs2: u32) -> (w: u32)
    ensures
        w == encode_s(op, imm, f3, rs1, rs2),
{
    let v = imm & 0xFFFu32;
    (((v >> 5u32) & 0x7Fu32) << 25u32) | (rs2 << 20u32) | (rs1 << 15u32) | (f3 << 12u32) | ((v & 0x1Fu32) << 7u32) | op
}

fn enc_b(op: u32, imm: u32, f3: u32, rs1: u32, rs2: u32) -> (w: u32)
    ensures
        w == encode_b(op, imm, f3, rs1, rs2),
{
    let v = imm & 0x1FFFu32;
    (((v >> 12u32) & 1u32) << 31u32) | (((v >> 5u32) & 0x3Fu32) << 25u32) | (rs2 << 20u32) | (rs1 << 15u32) | (f3 << 12u32)
        | (((v >> 11u32) & 1u32) << 7u32) | (((v >> 1u32) & 0xFu32) << 8u32) | op
}

fn enc_u(op: u32, rd: u32, imm: u32) -> (w: u32)
    ensures
        w == encode_u(op, rd, imm),
{
    ((imm & 0xFFFFFu32) << 12u32) | (rd << 7u32) | op
}

fn enc_j(op: u32, rd: u32, imm: u32) -> (w: u32)
    ensures
        w == encode_j(op, rd, imm),
{
    let v = imm & 0x1FFFFFu32;
    (((v >> 20u32) & 1u32) << 31u32) | (((v >> 12u32) & 0xFFu32) << 12u32) | (((v >> 11u32) & 1u32) << 20u32) | (((v
        >> 1u32) & 0x3FFu32) << 21u32) | (rd << 7u32) | op
}

/// A jump or branch instruction with its offset field replaced by the one
/// that encodes `byte_offset` (other instructions unchanged): JAL keeps its
/// opcode and rd, a branch its opcode, funct3, rs1 and rs2.
pub open spec fn patched(insn: u32, byte_offset: u32) -> u32 {
    let op = insn & 0x7Fu32;
    if op == 0x6F {
        (insn & 0xFFFu32) | encode_j(0, 0, byte_offset)
    } else if op == 0x63 {
        (insn & 0x01FF_F07Fu32) | encode_b(0, byte_offset, 0, 0, 0)
    } else {
        insn
    }
}

/// A patched JAL decodes to the offset (its low 21 bits, bit 0 cleared) and
/// keeps its opcode and rd; a patched branch decodes to the offset (its low
/// 13 bits, bit 0 cleared) and keeps opcode, funct3, rs1 and rs2.
pub proof fn lemma_patched_decodes(insn: u32, byte_offset: u32)
    ensures
        insn & 0x7Fu32 == 0x6F ==> patched(insn, byte_offset) & 0xFFFu32 == insn & 0xFFFu32
            && j_bits(patched(insn, byte_offset)) == byte_offset & 0x1F_FFFEu32,
        insn & 0x7Fu32 == 0x63 ==> patched(insn, byte_offset) & 0x01FF_F07Fu32 == insn & 0x01FF_F07Fu32
            && b_bits(patched(insn, byte_offset)) == byte_offset & 0x1FFEu32,
        insn & 0x7Fu32 != 0x6F && insn & 0x7Fu32 != 0x63 ==> patched(insn, byte_offset) == insn,
{
    let w = patched(insn, byte_offset);
    if insn & 0x7Fu32 == 0x6F {
        let e = encode_j(0, 0, byte_offset);
        assert(w == (insn & 0xFFFu32) | e);
        assert((((insn & 0xFFFu32) | e) & 0xFFFu32 == insn & 0xFFFu32) && j_bits((insn & 0xFFFu32) | e) == byte_offset
            & 0x1F_FFFEu32) by (bit_vector)
            requires
                e == encode_j(0, 0, byte_offset),
        ;
    } else if insn & 0x7Fu32 == 0x63 {
        let e = encode_b(0, byte_offset, 0, 0, 0);
        assert(w == (insn & 0x01FF_F07Fu32) | e);
        assert((((insn & 0x01FF_F07Fu32) | e) & 0x01FF_F07Fu32 == insn & 0x01FF_F07Fu32) && b_bits((insn & 0x01FF_F07Fu32) | e)
            == byte_offset & 0x1FFEu32) by (bit_vector)
            requires
                e == encode_b(0, byte_offset, 0, 0, 0),
        ;
    }
}

/// Sets the offset field of a JAL or branch instruction to `byte_offset`.
pub fn patch_branch_or_jal(insn: u32, byte_offset: u32) -> (w: u32)
    ensures
        w == patched(insn, byte_offset),
        insn & 0x7Fu32 == 0x6F ==> w & 0xFFFu32 == insn & 0xFFFu32 && j_bits(w) == byte_offset & 0x1F_FFFEu32,
        insn & 0x7Fu32 == 0x63 ==> w & 0x01FF_F07Fu32 == insn & 0x01FF_F07Fu32 && b_bits(w) == byte_offset & 0x1FFEu32,
        insn & 0x7Fu32 != 0x6F && insn & 0x7Fu32 != 0x63 ==> w == insn,
{
    proof {
        lemma_patched_decodes(insn, byte_offset);
    }
    let op = insn & 0x7Fu32;
    if op == 0x6F {
        (insn & 0xFFFu32) | enc_j(0, 0, byte_offset)
    } else if op == 0x63 {
        (insn & 0x01FF_F07Fu32) | enc_b(0, byte_offset, 0, 0, 0)
    } else {
        insn
    }
}

/// An `i32` operand as a word (two's complement).
pub open spec fn i32_word_of(s: Seq<char>) -> Option<u32> {
    match parse_signed(s, 10, -0x8000_0000, 0x7FFF_FFFF) {
        Some(v) => Some(wrap32(v)),
        None => None,
    }
}

fn i32_word(s: &[char]) -> (r: Option<u32>)
    ensures
        r == i32_word_of(s@),
{
    match parse_int(s, 10, -0x8000_0000, 0x7FFF_FFFF) {
        Some(v) => Some(if v < 0 { (v + 0x1_0000_0000) as u32 } else { v as u32 }),
        None => None,
    }
}

/// A `u32` operand: `0x`-prefixed hex, or decimal.
pub open spec fn u32_operand_of(s: Seq<char>) -> Option<u32> {
    let v = if 2 <= s.len() && s.subrange(0, 2) == "0x"@ {
        parse_unsigned(strip_leading_0x(s), 16, 0xFFFF_FFFF)
    } else {
        parse_unsigned(s, 10, 0xFFFF_FFFF)
    };
    match v {
        Some(n) => Some(n as u32),
        None => None,
    }
}

fn u32_operand(s: &[char]) -> (r: Option<u32>)
    ensures
        r == u32_operand_of(s@),
{
    if starts_with_lit(s, "0x") {
        proof {
            reveal_strlit("0x");
        }
        let h = strip_leading_0x_chars(s);
        match parse_uint(h.as_slice(), 16, 0xFFFF_FFFF) {
            Some(v) => Some(v as u32),
            None => None,
        }
    } else {
        proof {
            reveal_strlit("0x");
        }
        match parse_uint(s, 10, 0xFFFF_FFFF) {
            Some(v) => Some(v as u32),
            None => None,
        }
    }
}

/// `offset(rs1)` or `(rs1)`: the offset as a word and the base register, or
/// the error message.
pub open spec fn offset_base_of(s: Seq<char>) -> Result<(u32, u32), Seq<char>> {
    let t = trim(s);
    match find_char(t, '(') {
        Some(p) => {
            let off = trim(t.subrange(0, p));
            let base = strip_trailing(trim(t.subrange(p + 1, t.len() as int)), ')');
            let imm = if off.len() == 0 { Some(0u32) } else { i32_word_of(off) };
            match imm {
                None => Err("Invalid offset: "@ + off),
                Some(w) => match rv_reg_of(base) {
                    Some(r) => Ok((w, r)),
                    None => Err("Invalid reg: "@ + base),
                },
            }
        },
        None => Err("Expected offset(rs1) format: "@ + t),
    }
}

pub fn parse_offset_base(s: &[char]) -> (r: Result<(u32, u32), String>)
    ensures
        match r {
            Ok((w, b)) => offset_base_of(s@) == Ok::<(u32, u32), Seq<char>>((w, b)) && b < 32,
            Err(m) => offset_base_of(s@) == Err::<(u32, u32), Seq<char>>(m@),
        },
{
    let t = trim_chars(s);
    match find(t.as_slice(), '(') {
        Some(p) => {
            let tn = t.len();
            assert(p < tn);
            let o = slice_vec(t.as_slice(), 0, p);
            let off = trim_chars(o.as_slice());
            let b0 = slice_vec(t.as_slice(), p + 1, tn);
            let b1 = trim_chars(b0.as_slice());
            let base = strip_trailing_chars(b1.as_slice(), ')');
            let imm: u32 = if off.len() == 0 {
                0
            } else {
                match i32_word(off.as_slice()) {
                    Some(w) => w,
                    None => {
                        return Err(msg_with("Invalid offset: ", off.as_slice()));
                    },
                }
            };
            match parse_rv_reg(base.as_slice()) {
                Some(r) => Ok((imm, r)),
                None => Err(msg_with("Invalid reg: ", base.as_slice())),
            }
        },
        None => Err(msg_with("Expected offset(rs1) format: ", t.as_slice())),
    }
}

/// A label operand of a branch or jump, patched once all labels are known.
pub struct RvRef {
    pub offset: usize,
    pub label: Vec<char>,
    pub line: u32,
}

pub open spec fn refs_fit(refs: Seq<RvRef>, len: nat) -> bool {
    forall|i: int| 0 <= i < refs.len() ==> (#[trigger] refs[i]).offset + 4 <= len
}

/// The funct3 and funct7 of a register-register mnemonic.
pub open spec fn r_funct(mn: Seq<char>) -> Option<(u32, u32)> {
    if mn == "add"@ {
        Some((0u32, 0u32))
    } else if mn == "sub"@ {
        Some((0u32, 0x20u32))
    } else if mn == "slt"@ {
        Some((2u32, 0u32))
    } else if mn == "sltu"@ {
        Some((3u32, 0u32))
    } else if mn == "xor"@ {
        Some((4u32, 0u32))
    } else if mn == "or"@ {
        Some((6u32, 0u32))
    } else if mn == "and"@ {
        Some((7u32, 0u32))
    } else if mn == "sll"@ {
        Some((1u32, 0u32))
    } else if mn == "srl"@ {
        Some((5u32, 0u32))
    } else if mn == "sra"@ {
        Some((5u32, 0x20u32))
    } else {
        None
    }
}

/// The funct3 of an immediate ALU mnemonic.
pub open spec fn i_funct(mn: Seq<char>) -> Option<u32> {
    if mn == "addi"@ {
        Some(0u32)
    } else if mn == "slti"@ {
        Some(2u32)
    } else if mn == "sltiu"@ {
        Some(3u32)
    } else if mn == "xori"@ {
        Some(4u32)
    } else if mn == "ori"@ {
        Some(6u32)
    } else if mn == "andi"@ {
        Some(7u32)
    } else {
        None
    }
}

/// The funct3 of a load mnemonic.
pub open spec fn load_funct(mn: Seq<char>) -> Option<u32> {
    if mn == "lb"@ {
        Some(0u32)
    } else if mn == "lh"@ {
        Some(1u32)
    } else if mn == "lw"@ {
        Some(2u32)
    } else if mn == "lbu"@ {
        Some(4u32)
    } else if mn == "lhu"@ {
        Some(5u32)
    } else {
        None
    }
}

/// The funct3 of a store mnemonic.
pub open spec fn store_funct(mn: Seq<char>) -> Option<u32> {
    if mn == "sb"@ {
        Some(0u32)
    } else if mn == "sh"@ {
        Some(1u32)
    } else if mn == "sw"@ {
        Some(2u32)
    } else {
        None
    }
}

/// The funct3 of a branch mnemonic.
pub open spec fn branch_funct(mn: Seq<char>) -> Option<u32> {
    if mn == "beq"@ {
        Some(0u32)
    } else if mn == "bne"@ {
        Some(1u32)
    } else if mn == "blt"@ {
        Some(4u32)
    } else if mn == "bge"@ {
        Some(5u32)
    } else if mn == "bltu"@ {
        Some(6u32)
    } else if mn == "bgeu"@ {
        Some(7u32)
    } else {
        None
    }
}

/// A register operand or the error naming it.
pub open spec fn reg_res(tok: Seq<char>) -> Result<u32, Seq<char>> {
    match rv_reg_of(tok) {
        Some(r) => Ok(r),
        None => Err("Invalid reg: "@ + tok),
    }
}

/// The word of an instruction and, for a label operand, the index of the
/// token naming the label; or the error message. `mn` is the lower-cased
/// mnemonic, `t` the whitespace tokens of the line.
pub open spec fn rv_encode(mn: Seq<char>, t: Seq<Seq<char>>) -> Result<(u32, Option<int>), Seq<char>> {
    let n = t.len() - 1;
    if r_funct(mn) is Some {
        let (f3, f7) = r_funct(mn)->0;
        if n != 3 {
            Err(mn + " rd, rs1, rs2"@)
        } else {
            match reg_res(t[1]) {
                Err(e) => Err(e),
                Ok(rd) => match reg_res(t[2]) {
                    Err(e) => Err(e),
                    Ok(rs1) => match reg_res(t[3]) {
                        Err(e) => Err(e),
                        Ok(rs2) => Ok((encode_r(0x33, rd, f3, rs1, rs2, f7), None)),
                    },
                },
            }
        }
    } else if i_funct(mn) is Some {
        if n != 3 {
            Err(mn + " rd, rs1, imm"@)
        } else {
            match reg_res(t[1]) {
                Err(e) => Err(e),
                Ok(rd) => match reg_res(t[2]) {
                    Err(e) => Err(e),
                    Ok(rs1) => match i32_word_of(t[3]) {
                        None => Err("Invalid imm: "@ + t[3]),
                        Some(imm) => Ok((encode_i(0x13, rd, i_funct(mn)->0, rs1, imm), None)),
                    },
                },
            }
        }
    } else if mn == "slli"@ || mn == "srli"@ || mn == "srai"@ {
        if n != 3 {
            Err(mn + " rd, rs1, shamt"@)
        } else {
            match reg_res(t[1]) {
                Err(e) => Err(e),
                Ok(rd) => match reg_res(t[2]) {
                    Err(e) => Err(e),
                    Ok(rs1) => match parse_unsigned(t[3], 10, 0xFFFF_FFFF) {
                        None => Err("Invalid shamt: "@ + t[3]),
                        Some(sh) => {
                            let shamt = (sh % 32) as u32;
                            if mn == "srai"@ {
                                Ok(((0x20u32 << 25u32) | (shamt << 20u32) | (rs1 << 15u32) | (5u32 << 12u32) | (rd << 7u32)
                                    | 0x13u32, None))
                            } else {
                                Ok((encode_i(0x13, rd, if mn == "slli"@ { 1u32 } else { 5u32 }, rs1, shamt), None))
                            }
                        },
                    },
                },
            }
        }
    } else if mn == "lui"@ || mn == "auipc"@ {
        if n != 2 {
            Err(mn + " rd, imm"@)
        } else {
            match reg_res(t[1]) {
                Err(e) => Err(e),
                Ok(rd) => match u32_operand_of(t[2]) {
                    None => Err("Invalid imm: "@ + t[2]),
                    Some(imm) => if mn == "lui"@ {
                        Ok((encode_u(0x37, rd, imm), None))
                    } else {
                        Ok((encode_u(0x17, rd, imm & 0xFFFF_F000u32), None))
                    },
                },
            }
        }
    } else if mn == "ebreak"@ || mn == "ret"@ {
        if n != 0 {
            Err(mn + " (no args)"@)
        } else if mn == "ebreak"@ {
            Ok((encode_i(0x73, 0, 0, 0, 1), None))
        } else {
            Ok((encode_i(0x67, 0, 0, 1, 0), None))
        }
    } else if load_funct(mn) is Some {
        if n != 2 {
            Err(mn + " rd, offset(rs1)"@)
        } else {
            match reg_res(t[1]) {
                Err(e) => Err(e),
                Ok(rd) => match offset_base_of(t[2]) {
                    Err(m) => Err(m),
                    Ok((imm, rs1)) => Ok((encode_i(0x03, rd, load_funct(mn)->0, rs1, imm), None)),
                },
            }
        }
    } else if store_funct(mn) is Some {
        if n != 2 {
            Err(mn + " rs2, offset(rs1)"@)
        } else {
            match reg_res(t[1]) {
                Err(e) => Err(e),
                Ok(rs2) => match offset_base_of(t[2]) {
                    Err(m) => Err(m),
                    Ok((imm, rs1)) => Ok((encode_s(0x23, imm, store_funct(mn)->0, rs1, rs2), None)),
                },
            }
        }
    } else if branch_funct(mn) is Some {
        let f3 = branch_funct(mn)->0;
        if n != 3 {
            Err(mn + " rs1, rs2, label"@)
        } else {
            match reg_res(t[1]) {
                Err(e) => Err(e),
                Ok(rs1) => match reg_res(t[2]) {
                    Err(e) => Err(e),
                    Ok(rs2) => match i32_word_of(t[3]) {
                        Some(imm) => Ok((encode_b(0x63, imm, f3, rs1, rs2), None)),
                        None => Ok((encode_b(0x63, 0, f3, rs1, rs2), Some(3int))),
                    },
                },
            }
        }
    } else if mn == "j"@ {
        if n != 1 {
            Err(mn + " label"@)
        } else {
            match i32_word_of(t[1]) {
                Some(imm) => Ok((encode_j(0x6F, 0, imm), None)),
                None => Ok((encode_j(0x6F, 0, 0), Some(1int))),
            }
        }
    } else if mn == "jal"@ {
        if n != 2 {
            Err(mn + " rd, label"@)
        } else {
            match reg_res(t[1]) {
                Err(e) => Err(e),
                Ok(rd) => match i32_word_of(t[2]) {
                    Some(imm) => Ok((encode_j(0x6F, rd, imm), None)),
                    None => Ok((encode_j(0x6F, rd, 0), Some(2int))),
                },
            }
        }
    } else if mn == "jalr"@ {
        if n != 2 {
            Err(mn + " rd, offset(rs1)"@)
        } else {
            match reg_res(t[1]) {
                Err(e) => Err(e),
                Ok(rd) => match offset_base_of(t[2]) {
                    Err(m) => Err(m),
                    Ok((imm, rs1)) => Ok((encode_i(0x67, rd, 0, rs1, imm), None)),
                },
            }
        }
    } else if mn == "ecall"@ {
        Ok((encode_i(0x73, 0, 0, 0, 0), None))
    } else if mn == "nop"@ {
        Ok((encode_i(0x13, 0, 0, 0, 0), None))
    } else if mn == "li"@ {
        if n != 2 {
            Err(mn + " rd, imm"@)
        } else {
            match reg_res(t[1]) {
                Err(e) => Err(e),
                Ok(rd) => {
                    let imm = if 2 <= t[2].len() && t[2].subrange(0, 2) == "0x"@ {
                        u32_operand_of(t[2])
                    } else {
                        i32_word_of(t[2])
                    };
                    match imm {
                        None => Err("Invalid imm: "@ + t[2]),
                        Some(v) => Ok((encode_i(0x13, rd, 0, 0, v), None)),
                    }
                },
            }
        }
    } else if mn == "mv"@ {
        if n != 2 {
            Err(mn + " rd, rs1"@)
        } else {
            match reg_res(t[1]) {
                Err(e) => Err(e),
                Ok(rd) => match reg_res(t[2]) {
                    Err(e) => Err(e),
                    Ok(rs1) => Ok((encode_i(0x13, rd, 0, rs1, 0), None)),
                },
            }
        }
    } else {
        Err("Unknown instruction: "@ + mn)
    }
}

fn reg_tok(tok: &Vec<char>) -> (r: Result<u32, String>)
    ensures
        match r {
            Ok(v) => reg_res(tok@) == Ok::<u32, Seq<char>>(v) && v < 32,
            Err(m) => reg_res(tok@) == Err::<u32, Seq<char>>(m@),
        },
{
    match parse_rv_reg(tok.as_slice()) {
        Some(v) => Ok(v),
        None => Err(msg_with("Invalid reg: ", tok.as_slice())),
    }
}

fn usage(mn: &[char], form: &str) -> (m: String)
    ensures
        m@ == mn@ + form@,
{
    Text::new().all(mn).s(form).done()
}

/// Appends the little-endian bytes of an instruction word; returns where it starts.
fn emit(bytes: &mut Vec<u8>, w: u32) -> (off: usize)
    ensures
        off == old(bytes)@.len(),
        final(bytes)@ == old(bytes)@ + word_bytes(w),
{
    let off = bytes.len();
    bytes.push((w % 256) as u8);
    bytes.push(((w / 0x100) % 256) as u8);
    bytes.push(((w / 0x1_0000) % 256) as u8);
    bytes.push((w / 0x100_0000) as u8);
    assert(bytes@ =~= old(bytes)@ + word_bytes(w));
    off
}

/// The little-endian bytes of a word.
pub open spec fn word_bytes(w: u32) -> Seq<u8> {
    seq![(w % 256) as u8, ((w / 0x100) % 256) as u8, ((w / 0x1_0000) % 256) as u8, (w / 0x100_0000) as u8]
}

fn r_type(mn: &[char]) -> (r: Option<(u32, u32)>)
    ensures
        r == r_funct(mn@),
        r matches Some((f3, f7)) ==> f3 < 8 && f7 < 128,
{
    if eq_lit(mn, "add") {
        Some((0, 0))
    } else if eq_lit(mn, "sub") {
        Some((0, 0x20))
    } else if eq_lit(mn, "slt") {
        Some((2, 0))
    } else if eq_lit(mn, "sltu") {
        Some((3, 0))
    } else if eq_lit(mn, "xor") {
        Some((4, 0))
    } else if eq_lit(mn, "or") {
        Some((6, 0))
    } else if eq_lit(mn, "and") {
        Some((7, 0))
    } else if eq_lit(mn, "sll") {
        Some((1, 0))
    } else if eq_lit(mn, "srl") {
        Some((5, 0))
    } else if eq_lit(mn, "sra") {
        Some((5, 0x20))
    } else {
        None
    }
}

fn i_type(mn: &[char]) -> (r: Option<u32>)
    ensures
        r == i_funct(mn@),
        r matches Some(f3) ==> f3 < 8,
{
    if eq_lit(mn, "addi") {
        Some(0)
    } else if eq_lit(mn, "slti") {
        Some(2)
    } else if eq_lit(mn, "sltiu") {
        Some(3)
    } else if eq_lit(mn, "xori") {
        Some(4)
    } else if eq_lit(mn, "ori") {
        Some(6)
    } else if eq_lit(mn, "andi") {
        Some(7)
    } else {
        None
    }
}

fn load_type(mn: &[char]) -> (r: Option<u32>)
    ensures
        r == load_funct(mn@),
        r matches Some(f3) ==> f3 < 8,
{
    if eq_lit(mn, "lb") {
        Some(0)
    } else if eq_lit(mn, "lh") {
        Some(1)
    } else if eq_lit(mn, "lw") {
        Some(2)
    } else if eq_lit(mn, "lbu") {
        Some(4)
    } else if eq_lit(mn, "lhu") {
        Some(5)
    } else {
        None
    }
}

fn store_type(mn: &[char]) -> (r: Option<u32>)
    ensures
        r == store_funct(mn@),
        r matches Some(f3) ==> f3 < 8,
{
    if eq_lit(mn, "sb") {
        Some(0)
    } else if eq_lit(mn, "sh") {
        Some(1)
    } else if eq_lit(mn, "sw") {
        Some(2)
    } else {
        None
    }
}

fn branch_type(mn: &[char]) -> (r: Option<u32>)
    ensures
        r == branch_funct(mn@),
        r matches Some(f3) ==> f3 < 8,
{
    if eq_lit(mn, "beq") {
        Some(0)
    } else if eq_lit(mn, "bne") {
        Some(1)
    } else if eq_lit(mn, "blt") {
        Some(4)
    } else if eq_lit(mn, "bge") {
        Some(5)
    } else if eq_lit(mn, "bltu") {
        Some(6)
    } else if eq_lit(mn, "bgeu") {
        Some(7)
    } else {
        None
    }
}

pub open spec fn opt_int(k: Option<usize>) -> Option<int> {
    match k {
        Some(x) => Some(x as int),
        None => None,
    }
}

/// The views of a list of tokens.
pub open spec fn views(v: Seq<Vec<char>>) -> Seq<Seq<char>> {
    Seq::new(v.len(), |k: int| v[k]@)
}

/// The word of one instruction and the index of a label operand's token.
fn rv_word(m: &[char], toks: &Vec<Vec<char>>) -> (r: Result<(u32, Option<usize>), String>)
    requires
        toks@.len() >= 1,
    ensures
        match r {
            Ok((w, k)) => rv_encode(m@, views(toks@)) == Ok::<(u32, Option<int>), Seq<char>>((w, opt_int(k))),
            Err(msg) => rv_encode(m@, views(toks@)) == Err::<(u32, Option<int>), Seq<char>>(msg@),
        },
{
    let ghost t = views(toks@);
    assert(t.len() == toks@.len());
    proof {
        reveal_strlit("0x");
    }
    let n = toks.len() - 1;
    if let Some((f3, f7)) = r_type(m) {
        if n != 3 {
            Err(usage(m, " rd, rs1, rs2"))
        } else {
            match reg_tok(&toks[1]) {
                Err(e) => Err(e),
                Ok(rd) => match reg_tok(&toks[2]) {
                    Err(e) => Err(e),
                    Ok(rs1) => match reg_tok(&toks[3]) {
                        Err(e) => Err(e),
                        Ok(rs2) => Ok((enc_r(0x33, rd, f3, rs1, rs2, f7), None)),
                    },
                },
            }
        }
    } else if let Some(f3) = i_type(m) {
        if n != 3 {
            Err(usage(m, " rd, rs1, imm"))
        } else {
            match reg_tok(&toks[1]) {
                Err(e) => Err(e),
                Ok(rd) => match reg_tok(&toks[2]) {
                    Err(e) => Err(e),
                    Ok(rs1) => match i32_word(toks[3].as_slice()) {
                        None => Err(msg_with("Invalid imm: ", toks[3].as_slice())),
                        Some(imm) => Ok((enc_i(0x13, rd, f3, rs1, imm), None)),
                    },
                },
            }
        }
    } else if eq_lit(m, "slli") || eq_lit(m, "srli") || eq_lit(m, "srai") {
        if n != 3 {
            Err(usage(m, " rd, rs1, shamt"))
        } else {
            match reg_tok(&toks[1]) {
                Err(e) => Err(e),
                Ok(rd) => match reg_tok(&toks[2]) {
                    Err(e) => Err(e),
                    Ok(rs1) => match parse_uint(toks[3].as_slice(), 10, 0xFFFF_FFFF) {
                        None => Err(msg_with("Invalid shamt: ", toks[3].as_slice())),
                        Some(sh) => {
                            let shamt = (sh % 32) as u32;
                            if eq_lit(m, "srai") {
                                Ok(((0x20u32 << 25u32) | (shamt << 20u32) | (rs1 << 15u32) | (5u32 << 12u32) | (rd << 7u32) | 0x13u32, None))
                            } else {
                                Ok((enc_i(0x13, rd, if eq_lit(m, "slli") { 1 } else { 5 }, rs1, shamt), None))
                            }
                        },
                    },
                },
            }
        }
    } else if eq_lit(m, "lui") || eq_lit(m, "auipc") {
        if n != 2 {
            Err(usage(m, " rd, imm"))
        } else {
            match reg_tok(&toks[1]) {
                Err(e) => Err(e),
                Ok(rd) => match u32_operand(toks[2].as_slice()) {
                    None => Err(msg_with("Invalid imm: ", toks[2].as_slice())),
                    Some(imm) => if eq_lit(m, "lui") {
                        Ok((enc_u(0x37, rd, imm), None))
                    } else {
                        Ok((enc_u(0x17, rd, imm & 0xFFFF_F000u32), None))
                    },
                },
            }
        }
    } else if eq_lit(m, "ebreak") || eq_lit(m, "ret") {
        if n != 0 {
            Err(usage(m, " (no args)"))
        } else if eq_lit(m, "ebreak") {
            Ok((enc_i(0x73, 0, 0, 0, 1), None))
        } else {
            Ok((enc_i(0x67, 0, 0, 1, 0), None))
        }
    } else if let Some(f3) = load_type(m) {
        if n != 2 {
            Err(usage(m, " rd, offset(rs1)"))
        } else {
            match reg_tok(&toks[1]) {
                Err(e) => Err(e),
                Ok(rd) => match parse_offset_base(toks[2].as_slice()) {
                    Err(msg) => Err(msg),
                    Ok((imm, rs1)) => Ok((enc_i(0x03, rd, f3, rs1, imm), None)),
                },
            }
        }
    } else if let Some(f3) = store_type(m) {
        if n != 2 {
            Err(usage(m, " rs2, offset(rs1)"))
        } else {
            match reg_tok(&toks[1]) {
                Err(e) => Err(e),
                Ok(rs2) => match parse_offset_base(toks[2].as_slice()) {
                    Err(msg) => Err(msg),
                    Ok((imm, rs1)) => Ok((enc_s(0x23, imm, f3, rs1, rs2), None)),
                },
            }
        }
    } else if let Some(f3) = branch_type(m) {
        if n != 3 {
            Err(usage(m, " rs1, rs2, label"))
        } else {
            match reg_tok(&toks[1]) {
                Err(e) => Err(e),
                Ok(rs1) => match reg_tok(&toks[2]) {
                    Err(e) => Err(e),
                    Ok(rs2) => match i32_word(toks[3].as_slice()) {
                        Some(imm) => Ok((enc_b(0x63, imm, f3, rs1, rs2), None)),
                        None => Ok((enc_b(0x63, 0, f3, rs1, rs2), Some(3usize))),
                    },
                },
            }
        }
    } else if eq_lit(m, "j") {
        if n != 1 {
            Err(usage(m, " label"))
        } else {
            match i32_word(toks[1].as_slice()) {
                Some(imm) => Ok((enc_j(0x6F, 0, imm), None)),
                None => Ok((enc_j(0x6F, 0, 0), Some(1usize))),
            }
        }
    } else if eq_lit(m, "jal") {
        if n != 2 {
            Err(usage(m, " rd, label"))
        } else {
            match reg_tok(&toks[1]) {
                Err(e) => Err(e),
                Ok(rd) => match i32_word(toks[2].as_slice()) {
                    Some(imm) => Ok((enc_j(0x6F, rd, imm), None)),
                    None => Ok((enc_j(0x6F, rd, 0), Some(2usize))),
                },
            }
        }
    } else if eq_lit(m, "jalr") {
        if n != 2 {
            Err(usage(m, " rd, offset(rs1)"))
        } else {
            match reg_tok(&toks[1]) {
                Err(e) => Err(e),
                Ok(rd) => match parse_offset_base(toks[2].as_slice()) {
                    Err(msg) => Err(msg),
                    Ok((imm, rs1)) => Ok((enc_i(0x67, rd, 0, rs1, imm), None)),
                },
            }
        }
    } else if eq_lit(m, "ecall") {
        Ok((enc_i(0x73, 0, 0, 0, 0), None))
    } else if eq_lit(m, "nop") {
        Ok((enc_i(0x13, 0, 0, 0, 0), None))
    } else if eq_lit(m, "li") {
        if n != 2 {
            Err(usage(m, " rd, imm"))
        } else {
            match reg_tok(&toks[1]) {
                Err(e) => Err(e),
                Ok(rd) => {
                    let imm = if starts_with_lit(toks[2].as_slice(), "0x") { u32_operand(toks[2].as_slice()) } else { i32_word(toks[2].as_slice()) };
                    match imm {
                        None => Err(msg_with("Invalid imm: ", toks[2].as_slice())),
                        Some(v) => Ok((enc_i(0x13, rd, 0, 0, v), None)),
                    }
                },
            }
        }
    } else if eq_lit(m, "mv") {
        if n != 2 {
            Err(usage(m, " rd, rs1"))
        } else {
            match reg_tok(&toks[1]) {
                Err(e) => Err(e),
                Ok(rd) => match reg_tok(&toks[2]) {
                    Err(e) => Err(e),
                    Ok(rs1) => Ok((enc_i(0x13, rd, 0, rs1, 0), None)),
                },
            }
        }
    } else {
        Err(msg_with("Unknown instruction: ", m))
    }
}

/// Encodes one instruction at `pc`: its four bytes are appended, a source
/// map entry is recorded, and a label operand is remembered for patching.
pub fn parse_instruction(
    line: &[char],
    line_num: u32,
    col: u32,
    pc: u32,
    bytes: &mut Vec<u8>,
    source_map: &mut Vec<SourceMapEntry>,
    pending: &mut Vec<RvRef>,
) -> (res: Result<(), AssemblerError>)
    requires
        refs_fit(old(pending)@, old(bytes)@.len()),
    ensures
        ({
            let t = tokens(line@);
            if t.len() == 0 {
                &&& res is Ok
                &&& final(bytes)@ == old(bytes)@
                &&& final(source_map)@ == old(source_map)@
                &&& final(pending)@ == old(pending)@
            } else {
                &&& final(source_map)@ == old(source_map)@.push(SourceMapEntry { pc, line: line_num, column: col })
                &&& match rv_encode(lower_seq(t[0]), t) {
                    Ok((w, k)) => {
                        &&& res is Ok
                        &&& final(bytes)@ == old(bytes)@ + word_bytes(w)
                        &&& final(pending)@.len() == old(pending)@.len() + (if k is Some { 1int } else { 0int })
                        &&& forall|i: int| 0 <= i < old(pending)@.len() ==> #[trigger] final(pending)@[i] == old(pending)@[i]
                        &&& k matches Some(ki) ==> {
                            let p = final(pending)@.last();
                            &&& p.offset == old(bytes)@.len()
                            &&& p.label@ == t[ki]
                            &&& p.line == line_num
                        }
                    },
                    Err(msg) => {
                        &&& res matches Err(e) && e.line == line_num && e.column == col && e.message@ == msg
                        &&& final(bytes)@ == old(bytes)@
                        &&& final(pending)@ == old(pending)@
                    },
                }
            }
        }),
        refs_fit(final(pending)@, final(bytes)@.len()),
{
    let toks = split_ws(line);
    if toks.len() == 0 {
        return Ok(());
    }
    let mn = to_lower(toks[0].as_slice());
    proof {
        assert(views(toks@) =~= tokens(line@));
    }
    source_map.push(SourceMapEntry { pc, line: line_num, column: col });
    match rv_word(mn.as_slice(), &toks) {
        Err(msg) => Err(asm_error(line_num, col, msg)),
        Ok((w, label_arg)) => {
            let ghost p0 = pending@;
            let pos = emit(bytes, w);
            match label_arg {
                Some(k) => {
                    pending.push(RvRef { offset: pos, label: toks[k].clone(), line: line_num });
                },
                None => {},
            }
            proof {
                assert forall|i: int| 0 <= i < pending@.len() implies (#[trigger] pending@[i]).offset + 4 <= bytes@.len() by {
                    if i < p0.len() {
                        assert(pending@[i] == p0[i]);
                    }
                }
            }
            Ok(())
        },
    }
}

/// `line.split("//").next()`: the text before the first `//`.
pub open spec fn before_slashes(s: Seq<char>) -> Seq<char>
    decreases s.len(),
{
    if s.len() < 2 {
        s
    } else if s[0] == '/' && s[1] == '/' {
        Seq::empty()
    } else {
        seq![s[0]] + before_slashes(s.drop_first())
    }
}

fn cut_slashes(s: &[char]) -> (r: Vec<char>)
    ensures
        r@ == before_slashes(s@),
{
    let mut i: usize = 0;
    assert(s@.subrange(0, 0) + before_slashes(s@.subrange(0, s@.len() as int)) =~= before_slashes(s@)) by {
        assert(s@.subrange(0, s@.len() as int) =~= s@);
    }
    while s.len() - i > 1 && !(s[i] == '/' && s[i + 1] == '/')
        invariant
            i <= s@.len(),
            s@.subrange(0, i as int) + before_slashes(s@.subrange(i as int, s@.len() as int)) == before_slashes(s@),
        decreases s@.len() - i,
    {
        let ghost rest = s@.subrange(i as int, s@.len() as int);
        assert(rest.drop_first() =~= s@.subrange(i + 1, s@.len() as int));
        assert(s@.subrange(0, i + 1) =~= s@.subrange(0, i as int) + seq![s@[i as int]]);
        i = i + 1;
    }
    let ghost rest = s@.subrange(i as int, s@.len() as int);
    if s.len() - i > 1 {
        assert(before_slashes(rest) =~= Seq::<char>::empty());
        slice_vec(s, 0, i)
    } else {
        assert(before_slashes(rest) == rest);
        assert(s@.subrange(0, i as int) + rest =~= s@);
        slice_vec(s, 0, s.len())
    }
}

/// A pending reference seen as offset, label and line.
pub type RvRefView = (int, Seq<char>, u32);

pub open spec fn rv_ref_view(p: RvRef) -> RvRefView {
    (p.offset as int, p.label@, p.line)
}

pub open spec fn rv_refs_view(ps: Seq<RvRef>) -> Seq<RvRefView> {
    ps.map_values(|p: RvRef| rv_ref_view(p))
}

/// A source line with its `//` and `#` comments removed, trimmed.
pub open spec fn rv_code(raw: Seq<char>) -> Seq<char> {
    trim(before_char(before_slashes(raw), '#'))
}

/// The first pass before any line: address 0.
pub open spec fn rv_init() -> Scan<RvRefView> {
    Scan {
        bytes: Seq::empty(),
        smap: Seq::empty(),
        errors: Seq::empty(),
        labels: Map::empty(),
        refs: Seq::empty(),
        start: 0,
        pc: 0,
        ended: false,
    }
}

/// One instruction (the text after any label) at the current address; the
/// address moves on by four whether or not it assembled.
#[verifier::opaque]
pub open spec fn rv_instr(st: Scan<RvRefView>, body: Seq<char>, ln: u32) -> Scan<RvRefView> {
    let t = tokens(body);
    let next = ((st.pc + 4) % 0x1_0000_0000) as u32;
    if t.len() == 0 {
        Scan { pc: next, ..st }
    } else {
        let smap = st.smap.push(SourceMapEntry { pc: st.pc, line: ln, column: 1 });
        match rv_encode(lower_seq(t[0]), t) {
            Ok((w, k)) => Scan {
                bytes: st.bytes + word_bytes(w),
                smap,
                refs: match k {
                    Some(ki) => st.refs.push((st.bytes.len() as int, t[ki], ln)),
                    None => st.refs,
                },
                pc: next,
                ..st
            },
            Err(msg) => Scan { smap, errors: st.errors.push((ln, 1u32, msg)), pc: next, ..st },
        }
    }
}

/// One source line (index `i`) of the first pass.
pub open spec fn rv_line(st: Scan<RvRefView>, i: int, raw: Seq<char>) -> Scan<RvRefView> {
    let line = rv_code(raw);
    if line.len() == 0 {
        st
    } else {
        let st1 = match line_label(line) {
            Some(l) => Scan { labels: st.labels.insert(l, st.pc), ..st },
            None => st,
        };
        let body = line_rest(line);
        if body.len() == 0 {
            st1
        } else {
            rv_instr(st1, body, line_number(i))
        }
    }
}

/// The first pass over the first `n` lines.
pub open spec fn rv_scan(lines: Seq<Seq<char>>, n: nat) -> Scan<RvRefView>
    decreases n,
{
    if n == 0 || n > lines.len() {
        rv_init()
    } else {
        rv_line(rv_scan(lines, (n - 1) as nat), n - 1, lines[n - 1])
    }
}

/// The byte distance from `from` to `to`, as a 32-bit word rounded toward
/// zero to an even number.
pub open spec fn rv_offset_to(to: u32, from: int) -> u32 {
    let d = (to + 0x1_0000_0000 - from % 0x1_0000_0000) % 0x1_0000_0000;
    if d >= 0x8000_0000 {
        ((0x1_0000_0000 - 2 * ((0x1_0000_0000 - d) / 2)) % 0x1_0000_0000) as u32
    } else {
        (2 * (d / 2)) as u32
    }
}

/// The second pass for one reference: the branch or jump gets its offset,
/// or an error is recorded.
pub open spec fn rv_patch(b: Seq<u8>, es: Seq<(u32, u32, Seq<char>)>, labels: Map<Seq<char>, u32>, r: RvRefView) -> (
    Seq<u8>,
    Seq<(u32, u32, Seq<char>)>,
) {
    let (off, label, line) = r;
    if labels.contains_key(label) {
        (put32(b, off, patched(le32(b, off) as u32, rv_offset_to(labels[label], off))), es)
    } else {
        (b, es.push((line, 1u32, "Unknown label: "@ + label)))
    }
}

/// The second pass over a list of references, in order.
pub open spec fn rv_patch_all(b: Seq<u8>, es: Seq<(u32, u32, Seq<char>)>, labels: Map<Seq<char>, u32>, refs: Seq<RvRefView>) -> (
    Seq<u8>,
    Seq<(u32, u32, Seq<char>)>,
)
    decreases refs.len(),
{
    if refs.len() == 0 {
        (b, es)
    } else {
        let (b1, e1) = rv_patch_all(b, es, labels, refs.drop_last());
        rv_patch(b1, e1, labels, refs.last())
    }
}

/// Fills in the target of a branch or jump to a label.
fn patch_ref(bytes: &mut Vec<u8>, errors: &mut Vec<AssemblerError>, labels: &LabelTable, r: &RvRef)
    requires
        labels.wf(),
        r.offset + 4 <= old(bytes)@.len(),
    ensures
        (final(bytes)@, errs_view(final(errors)@)) == rv_patch(old(bytes)@, errs_view(old(errors)@), labels.view(), rv_ref_view(*r)),
        final(bytes)@.len() == old(bytes)@.len(),
{
    match labels.get(r.label.as_slice()) {
        Some(target) => {
            let t = target as u64;
            let o = (r.offset as u64) % 0x1_0000_0000;
            let d = (t + 0x1_0000_0000 - o) % 0x1_0000_0000;
            let byte_offset: u32 = if d >= 0x8000_0000 {
                ((0x1_0000_0000 - 2 * ((0x1_0000_0000 - d) / 2)) % 0x1_0000_0000) as u32
            } else {
                (2 * (d / 2)) as u32
            };
            let insn = read_word32(bytes, r.offset);
            write_word32(bytes, r.offset, patch_branch_or_jal(insn, byte_offset));
        },
        None => {
            let e = asm_error(r.line, 1, msg_with("Unknown label: ", r.label.as_slice()));
            proof { lemma_errs_push(errors@, e); }
            errors.push(e);
        },
    }
}

/// The first-pass state that the assembler's working values stand for.
pub open spec fn rv_scan_of(
    bytes: Seq<u8>,
    smap: Seq<SourceMapEntry>,
    errors: Seq<AssemblerError>,
    labels: Map<Seq<char>, u32>,
    refs: Seq<RvRef>,
    pc: u32,
) -> Scan<RvRefView> {
    Scan { bytes, smap, errors: errs_view(errors), labels, refs: rv_refs_view(refs), start: 0, pc, ended: false }
}

/// The first pass over one source line.
#[verifier::spinoff_prover]
fn scan_line(
    raw: &[char],
    li: usize,
    bytes: &mut Vec<u8>,
    source_map: &mut Vec<SourceMapEntry>,
    errors: &mut Vec<AssemblerError>,
    labels: &mut LabelTable,
    pending: &mut Vec<RvRef>,
    pc: &mut u32,
)
    requires
        old(labels).wf(),
        refs_fit(old(pending)@, old(bytes)@.len()),
        li < usize::MAX,
    ensures
        final(labels).wf(),
        refs_fit(final(pending)@, final(bytes)@.len()),
        rv_scan_of(final(bytes)@, final(source_map)@, final(errors)@, final(labels).view(), final(pending)@, *final(pc))
            == rv_line(rv_scan_of(old(bytes)@, old(source_map)@, old(errors)@, old(labels).view(), old(pending)@, *old(pc)), li as int, raw@),
{
    let line_num: u32 = ((li as u64 + 1) % 0x1_0000_0000) as u32;
    let a = cut_slashes(raw);
    let b = crate::text::take_before(a.as_slice(), '#');
    let line = trim_chars(b.as_slice());
    if line.len() == 0 {
        return;
    }
    let (label, body) = split_label(&line);
    match label {
        Some(l) => {
            labels.insert(l, *pc);
        },
        None => {},
    }
    if body.len() == 0 {
        return;
    }
    let ghost st1 = rv_scan_of(bytes@, source_map@, errors@, labels.view(), pending@, *pc);
    scan_instr(body.as_slice(), line_num, bytes, source_map, errors, pending, pc, Ghost(st1));
}

/// One instruction of the first pass at `pc`, which moves on by four.
fn scan_instr(
    body: &[char],
    line_num: u32,
    bytes: &mut Vec<u8>,
    source_map: &mut Vec<SourceMapEntry>,
    errors: &mut Vec<AssemblerError>,
    pending: &mut Vec<RvRef>,
    pc: &mut u32,
    Ghost(st): Ghost<Scan<RvRefView>>,
)
    requires
        refs_fit(old(pending)@, old(bytes)@.len()),
        st.bytes == old(bytes)@,
        st.smap == old(source_map)@,
        st.errors == errs_view(old(errors)@),
        st.refs == rv_refs_view(old(pending)@),
        st.pc == *old(pc),
    ensures
        refs_fit(final(pending)@, final(bytes)@.len()),
        ({
            let st2 = rv_instr(st, body@, line_num);
            &&& final(bytes)@ == st2.bytes
            &&& final(source_map)@ == st2.smap
            &&& errs_view(final(errors)@) == st2.errors
            &&& rv_refs_view(final(pending)@) == st2.refs
            &&& *final(pc) == st2.pc
            &&& st2.labels == st.labels
            &&& st2.start == st.start
            &&& st2.ended == st.ended
        }),
{
    reveal(rv_instr);
    match parse_instruction(body, line_num, 1, *pc, bytes, source_map, pending) {
        Err(e) => {
            proof {
                lemma_errs_push(errors@, e);
            }
            errors.push(e);
        },
        Ok(()) => {
            proof {
                assert(rv_refs_view(pending@) =~= rv_instr(st, body@, line_num).refs);
            }
        },
    }
    *pc = pc.wrapping_add(4);
}

/// What assembling RV32I source gives.
pub open spec fn rv_image(source: Seq<char>) -> ImageView {
    let lines = lines_spec(source);
    let sc = rv_scan(lines, lines.len());
    let fin = rv_patch_all(sc.bytes, sc.errors, sc.labels, sc.refs);
    (fin.0, sc.smap, fin.1, if sc.labels.contains_key("_start"@) { sc.labels["_start"@] } else { 0 })
}

/// The ABI name of register `x<i>`.
pub open spec fn rv_abi_name(i: int) -> Seq<char> {
    if i == 0 {
        "zero"@
    } else if i == 1 {
        "ra"@
    } else if i == 2 {
        "sp"@
    } else if i == 3 {
        "gp"@
    } else if i == 4 {
        "tp"@
    } else if i == 5 {
        "t0"@
    } else if i == 6 {
        "t1"@
    } else if i == 7 {
        "t2"@
    } else if i == 8 {
        "s0"@
    } else if i == 9 {
        "s1"@
    } else if i == 10 {
        "a0"@
    } else if i == 11 {
        "a1"@
    } else if i == 12 {
        "a2"@
    } else if i == 13 {
        "a3"@
    } else if i == 14 {
        "a4"@
    } else if i == 15 {
        "a5"@
    } else if i == 16 {
        "a6"@
    } else if i == 17 {
        "a7"@
    } else if i == 18 {
        "s2"@
    } else if i == 19 {
        "s3"@
    } else if i == 20 {
        "s4"@
    } else if i == 21 {
        "s5"@
    } else if i == 22 {
        "s6"@
    } else if i == 23 {
        "s7"@
    } else if i == 24 {
        "s8"@
    } else if i == 25 {
        "s9"@
    } else if i == 26 {
        "s10"@
    } else if i == 27 {
        "s11"@
    } else if i == 28 {
        "t3"@
    } else if i == 29 {
        "t4"@
    } else if i == 30 {
        "t5"@
    } else {
        "t6"@
    }
}

fn abi_name(i: usize) -> (r: &'static str)
    ensures
        r@ == rv_abi_name(i as int),
{
    if i == 0 {
        "zero"
    } else if i == 1 {
        "ra"
    } else if i == 2 {
        "sp"
    } else if i == 3 {
        "gp"
    } else if i == 4 {
        "tp"
    } else if i == 5 {
        "t0"
    } else if i == 6 {
        "t1"
    } else if i == 7 {
        "t2"
    } else if i == 8 {
        "s0"
    } else if i == 9 {
        "s1"
    } else if i == 10 {
        "a0"
    } else if i == 11 {
        "a1"
    } else if i == 12 {
        "a2"
    } else if i == 13 {
        "a3"
    } else if i == 14 {
        "a4"
    } else if i == 15 {
        "a5"
    } else if i == 16 {
        "a6"
    } else if i == 17 {
        "a7"
    } else if i == 18 {
        "s2"
    } else if i == 19 {
        "s3"
    } else if i == 20 {
        "s4"
    } else if i == 21 {
        "s5"
    } else if i == 22 {
        "s6"
    } else if i == 23 {
        "s7"
    } else if i == 24 {
        "s8"
    } else if i == 25 {
        "s9"
    } else if i == 26 {
        "s10"
    } else if i == 27 {
        "s11"
    } else if i == 28 {
        "t3"
    } else if i == 29 {
        "t4"
    } else if i == 30 {
        "t5"
    } else {
        "t6"
    }
}

impl Rv32iPlugin {
    /// Assembles RV32I source text into a program image: a first pass over
    /// the lines, then each label operand patched in order; the entry point
    /// is `_start` when defined, else 0.
    pub fn assemble(&self, source: &str) -> (img: ProgramImage)
        ensures
            image_view(img) == rv_image(source@),
    {
        let src = chars_of(source);
        let lines = split_lines(src.as_slice());
        let ghost ls = lines_spec(source@);
        let mut bytes: Vec<u8> = Vec::new();
        let mut source_map: Vec<SourceMapEntry> = Vec::new();
        let mut errors: Vec<AssemblerError> = Vec::new();
        let mut labels = LabelTable::new();
        let mut pending: Vec<RvRef> = Vec::new();
        let mut pc: u32 = 0;
        let mut li: usize = 0;
        proof {
            assert(errs_view(errors@) =~= Seq::empty());
            assert(rv_refs_view(pending@) =~= Seq::empty());
        }
        while li < lines.len()
            invariant
                labels.wf(),
                refs_fit(pending@, bytes@.len()),
                li <= lines@.len(),
                lines@.len() == ls.len(),
                forall|k: int| 0 <= k < lines@.len() ==> #[trigger] lines@[k]@ == ls[k],
                rv_scan(ls, li as nat) == rv_scan_of(bytes@, source_map@, errors@, labels.view(), pending@, pc),
            decreases lines@.len() - li,
        {
            scan_line(lines[li].as_slice(), li, &mut bytes, &mut source_map, &mut errors, &mut labels, &mut pending, &mut pc);
            li = li + 1;
        }
        let ghost sc = rv_scan(ls, ls.len());
        let ghost refs = sc.refs;
        let mut k: usize = 0;
        proof {
            assert(refs.subrange(0, 0) =~= Seq::<RvRefView>::empty());
        }
        while k < pending.len()
            invariant
                labels.wf(),
                labels.view() == sc.labels,
                refs_fit(pending@, bytes@.len()),
                k <= pending@.len(),
                refs == rv_refs_view(pending@),
                (bytes@, errs_view(errors@)) == rv_patch_all(sc.bytes, sc.errors, sc.labels, refs.subrange(0, k as int)),
            decreases pending@.len() - k,
        {
            patch_ref(&mut bytes, &mut errors, &labels, &pending[k]);
            proof {
                assert(refs.subrange(0, k + 1).drop_last() =~= refs.subrange(0, k as int));
                assert(refs.subrange(0, k + 1).last() == rv_ref_view(pending@[k as int]));
            }
            k = k + 1;
        }
        proof {
            assert(refs.subrange(0, refs.len() as int) =~= refs);
        }
        let start_name = chars_of("_start");
        let entry_pc = match labels.get(start_name.as_slice()) {
            Some(a) => a,
            None => 0,
        };
        ProgramImage { bytes, entry_pc, source_map, errors }
    }

    /// Register names for display: `x<i> (<ABI name>)`.
    pub fn register_schema(&self) -> (s: RegisterSchema)
        ensures
            s.pc_name@ == "PC"@,
            s.reg_names@.len() == 32,
            forall|i: int| 0 <= i < 32 ==> (#[trigger] s.reg_names@[i])@ == "x"@ + dec_text(i as nat) + " ("@ + rv_abi_name(i) + ")"@,
    {
        let mut names: Vec<String> = Vec::new();
        let mut i: usize = 0;
        while i < 32
            invariant
                i <= 32,
                names@.len() == i,
                forall|k: int| 0 <= k < i ==> (#[trigger] names@[k])@ == "x"@ + dec_text(k as nat) + " ("@ + rv_abi_name(k) + ")"@,
            decreases 32 - i,
        {
            names.push(Text::new().s("x").dec(i as u64).s(" (").s(abi_name(i)).s(")").done());
            i = i + 1;
        }
        RegisterSchema { pc_name: lit("PC"), reg_names: names }
    }
}

/// The funct3 and funct7 codes of the register and immediate ALU mnemonics.
proof fn lemma_alu_codes()
    ensures
        r_funct("add"@) == Some((0u32, 0x0u32)),
        r_funct("sub"@) == Some((0u32, 0x20u32)),
        r_funct("slt"@) == Some((2u32, 0x0u32)),
        r_funct("sltu"@) == Some((3u32, 0x0u32)),
        r_funct("xor"@) == Some((4u32, 0x0u32)),
        r_funct("or"@) == Some((6u32, 0x0u32)),
        r_funct("and"@) == Some((7u32, 0x0u32)),
        r_funct("sll"@) == Some((1u32, 0x0u32)),
        r_funct("srl"@) == Some((5u32, 0x0u32)),
        r_funct("sra"@) == Some((5u32, 0x20u32)),
        i_funct("addi"@) == Some(0u32),
        r_funct("addi"@) is None,
        i_funct("slti"@) == Some(2u32),
        r_funct("slti"@) is None,
        i_funct("sltiu"@) == Some(3u32),
        r_funct("sltiu"@) is None,
        i_funct("xori"@) == Some(4u32),
        r_funct("xori"@) is None,
        i_funct("ori"@) == Some(6u32),
        r_funct("ori"@) is None,
        i_funct("andi"@) == Some(7u32),
        r_funct("andi"@) is None,
{
    reveal_strlit("add");
    reveal_strlit("sub");
    reveal_strlit("slt");
    reveal_strlit("sltu");
    reveal_strlit("xor");
    reveal_strlit("or");
    reveal_strlit("and");
    reveal_strlit("sll");
    reveal_strlit("srl");
    reveal_strlit("sra");
    reveal_strlit("addi");
    reveal_strlit("slti");
    reveal_strlit("sltiu");
    reveal_strlit("xori");
    reveal_strlit("ori");
    reveal_strlit("andi");
    assert("add"@[0] != "sub"@[0]);
    assert("add"@[0] != "slt"@[0]);
    assert("add"@.len() != "sltu"@.len());
    assert("add"@[0] != "xor"@[0]);
    assert("add"@.len() != "or"@.len());
    assert("add"@[1] != "and"@[1]);
    assert("add"@[0] != "sll"@[0]);
    assert("add"@[0] != "srl"@[0]);
    assert("add"@[0] != "sra"@[0]);
    assert("add"@.len() != "addi"@.len());
    assert("add"@.len() != "slti"@.len());
    assert("add"@.len() != "sltiu"@.len());
    assert("add"@.len() != "xori"@.len());
    assert("add"@[0] != "ori"@[0]);
    assert("add"@.len() != "andi"@.len());
    assert("sub"@[1] != "slt"@[1]);
    assert("sub"@.len() != "sltu"@.len());
    assert("sub"@[0] != "xor"@[0]);
    assert("sub"@.len() != "or"@.len());
    assert("sub"@[0] != "and"@[0]);
    assert("sub"@[1] != "sll"@[1]);
    assert("sub"@[1] != "srl"@[1]);
    assert("sub"@[1] != "sra"@[1]);
    assert("sub"@.len() != "addi"@.len());
    assert("sub"@.len() != "slti"@.len());
    assert("sub"@.len() != "sltiu"@.len());
    assert("sub"@.len() != "xori"@.len());
    assert("sub"@[0] != "ori"@[0]);
    assert("sub"@.len() != "andi"@.len());
    assert("slt"@.len() != "sltu"@.len());
    assert("slt"@[0] != "xor"@[0]);
    assert("slt"@.len() != "or"@.len());
    assert("slt"@[0] != "and"@[0]);
    assert("slt"@[2] != "sll"@[2]);
    assert("slt"@[1] != "srl"@[1]);
    assert("slt"@[1] != "sra"@[1]);
    assert("slt"@.len() != "addi"@.len());
    assert("slt"@.len() != "slti"@.len());
    assert("slt"@.len() != "sltiu"@.len());
    assert("slt"@.len() != "xori"@.len());
    assert("slt"@[0] != "ori"@[0]);
    assert("slt"@.len() != "andi"@.len());
    assert("sltu"@.len() != "xor"@.len());
    assert("sltu"@.len() != "or"@.len());
    assert("sltu"@.len() != "and"@.len());
    assert("sltu"@.len() != "sll"@.len());
    assert("sltu"@.len() != "srl"@.len());
    assert("sltu"@.len() != "sra"@.len());
    assert("sltu"@[0] != "addi"@[0]);
    assert("sltu"@[3] != "slti"@[3]);
    assert("sltu"@.len() != "sltiu"@.len());
    assert("sltu"@[0] != "xori"@[0]);
    assert("sltu"@.len() != "ori"@.len());
    assert("sltu"@[0] != "andi"@[0]);
    assert("xor"@.len() != "or"@.len());
    assert("xor"@[0] != "and"@[0]);
    assert("xor"@[0] != "sll"@[0]);
    assert("xor"@[0] != "srl"@[0]);
    assert("xor"@[0] != "sra"@[0]);
    assert("xor"@.len() != "addi"@.len());
    assert("xor"@.len() != "slti"@.len());
    assert("xor"@.len() != "sltiu"@.len());
    assert("xor"@.len() != "xori"@.len());
    assert("xor"@[0] != "ori"@[0]);
    assert("xor"@.len() != "andi"@.len());
    assert("or"@.len() != "and"@.len());
    assert("or"@.len() != "sll"@.len());
    assert("or"@.len() != "srl"@.len());
    assert("or"@.len() != "sra"@.len());
    assert("or"@.len() != "addi"@.len());
    assert("or"@.len() != "slti"@.len());
    assert("or"@.len() != "sltiu"@.len());
    assert("or"@.len() != "xori"@.len());
    assert("or"@.len() != "ori"@.len());
    assert("or"@.len() != "andi"@.len());
    assert("and"@[0] != "sll"@[0]);
    assert("and"@[0] != "srl"@[0]);
    assert("and"@[0] != "sra"@[0]);
    assert("and"@.len() != "addi"@.len());
    assert("and"@.len() != "slti"@.len());
    assert("and"@.len() != "sltiu"@.len());
    assert("and"@.len() != "xori"@.len());
    assert("and"@[0] != "ori"@[0]);
    assert("and"@.len() != "andi"@.len());
    assert("sll"@[1] != "srl"@[1]);
    assert("sll"@[1] != "sra"@[1]);
    assert("sll"@.len() != "addi"@.len());
    assert("sll"@.len() != "slti"@.len());
    assert("sll"@.len() != "sltiu"@.len());
    assert("sll"@.len() != "xori"@.len());
    assert("sll"@[0] != "ori"@[0]);
    assert("sll"@.len() != "andi"@.len());
    assert("srl"@[2] != "sra"@[2]);
    assert("srl"@.len() != "addi"@.len());
    assert("srl"@.len() != "slti"@.len());
    assert("srl"@.len() != "sltiu"@.len());
    assert("srl"@.len() != "xori"@.len());
    assert("srl"@[0] != "ori"@[0]);
    assert("srl"@.len() != "andi"@.len());
    assert("sra"@.len() != "addi"@.len());
    assert("sra"@.len() != "slti"@.len());
    assert("sra"@.len() != "sltiu"@.len());
    assert("sra"@.len() != "xori"@.len());
    assert("sra"@[0] != "ori"@[0]);
    assert("sra"@.len() != "andi"@.len());
    assert("addi"@[0] != "slti"@[0]);
    assert("addi"@.len() != "sltiu"@.len());
    assert("addi"@[0] != "xori"@[0]);
    assert("addi"@.len() != "ori"@.len());
    assert("addi"@[1] != "andi"@[1]);
    assert("slti"@.len() != "sltiu"@.len());
    assert("slti"@[0] != "xori"@[0]);
    assert("slti"@.len() != "ori"@.len());
    assert("slti"@[0] != "andi"@[0]);
    assert("sltiu"@.len() != "xori"@.len());
    assert("sltiu"@.len() != "ori"@.len());
    assert("sltiu"@.len() != "andi"@.len());
    assert("xori"@.len() != "ori"@.len());
    assert("xori"@[0] != "andi"@[0]);
    assert("ori"@.len() != "andi"@.len());
}

/// The fields read back from register, immediate and branch encodings are
/// the ones encoded; the low five bits of `x` are below 32.
proof fn lemma_encoded_fields(d: u32, r1: u32, r2: u32, f: u32, g: u32, v: u32, x: u32)
    by (bit_vector)
    requires
        d < 32,
        r1 < 32,
        r2 < 32,
        f < 8,
        g == 0 || g == 0x20,
    ensures
        opc(encode_r(0x33, d, f, r1, r2, g)) == 0x33,
        rd(encode_r(0x33, d, f, r1, r2, g)) == d,
        rs1(encode_r(0x33, d, f, r1, r2, g)) == r1,
        rs2(encode_r(0x33, d, f, r1, r2, g)) == r2,
        f3(encode_r(0x33, d, f, r1, r2, g)) == f,
        f7(encode_r(0x33, d, f, r1, r2, g)) == g,
        opc(encode_i(0x13, d, f, r1, v)) == 0x13,
        rd(encode_i(0x13, d, f, r1, v)) == d,
        rs1(encode_i(0x13, d, f, r1, v)) == r1,
        f3(encode_i(0x13, d, f, r1, v)) == f,
        encode_i(0x13, d, f, r1, v) >> 20u32 == v & 0xFFFu32,
        opc(encode_b(0x63, v, f, r1, r2)) == 0x63,
        rs1(encode_b(0x63, v, f, r1, r2)) == r1,
        rs2(encode_b(0x63, v, f, r1, r2)) == r2,
        f3(encode_b(0x63, v, f, r1, r2)) == f,
        x & 31u32 < 32,
        opc(encode_i(0x03, d, f, r1, v)) == 0x03,
        rd(encode_i(0x03, d, f, r1, v)) == d,
        rs1(encode_i(0x03, d, f, r1, v)) == r1,
        f3(encode_i(0x03, d, f, r1, v)) == f,
        opc(encode_s(0x23, v, f, r1, r2)) == 0x23,
        rs1(encode_s(0x23, v, f, r1, r2)) == r1,
        rs2(encode_s(0x23, v, f, r1, r2)) == r2,
        f3(encode_s(0x23, v, f, r1, r2)) == f,
{
}

/// Assembling `op rd, rs1, rs2` for a register ALU mnemonic gives a
/// register-register instruction (opcode 0x33) on those registers that
/// computes what the mnemonic names: add and sub modulo 2^32, xor, or, and,
/// slt and sltu (signed and unsigned less), sll, srl and sra by the low five
/// bits of rs2.
pub proof fn lemma_register_mnemonics(mn: Seq<char>, t: Seq<Seq<char>>, a: u32, b: u32)
    requires
        t.len() == 4,
        rv_reg_of(t[1]) is Some,
        rv_reg_of(t[2]) is Some,
        rv_reg_of(t[3]) is Some,
        mn == "add"@ || mn == "sub"@ || mn == "slt"@ || mn == "sltu"@ || mn == "xor"@ || mn == "or"@ || mn == "and"@
            || mn == "sll"@ || mn == "srl"@ || mn == "sra"@,
    ensures
        match rv_encode(mn, t) {
            Ok((w, _)) => {
                let x = alu_reg(f3(w), f7(w), a, b);
                let n = b & 31u32;
                &&& opc(w) == 0x33
                &&& rd(w) == rv_reg_of(t[1])->0
                &&& rs1(w) == rv_reg_of(t[2])->0
                &&& rs2(w) == rv_reg_of(t[3])->0
                &&& mn == "add"@ ==> (x matches Some(v) && v as int == (a + b) % 0x1_0000_0000)
                &&& mn == "sub"@ ==> (x matches Some(v) && v as int == (a - b) % 0x1_0000_0000)
                &&& mn == "xor"@ ==> x == Some(a ^ b)
                &&& mn == "or"@ ==> x == Some(a | b)
                &&& mn == "and"@ ==> x == Some(a & b)
                &&& mn == "slt"@ ==> x == Some(if (a as i32) < (b as i32) { 1u32 } else { 0u32 })
                &&& mn == "sltu"@ ==> x == Some(if a < b { 1u32 } else { 0u32 })
                &&& mn == "sll"@ ==> x == Some(a << n)
                &&& mn == "srl"@ ==> x == Some(a >> n)
                &&& mn == "sra"@ ==> x == Some(((a as i32) >> n) as u32)
            },
            Err(_) => false,
        },
{
    lemma_alu_codes();
    let d = rv_reg_of(t[1])->0;
    let r1 = rv_reg_of(t[2])->0;
    let r2 = rv_reg_of(t[3])->0;
    assert(d < 32 && r1 < 32 && r2 < 32);
    let (f, g) = r_funct(mn)->0;
    assert(f < 8 && (g == 0 || g == 0x20));
    let w = encode_r(0x33, d, f, r1, r2, g);
    lemma_encoded_fields(d, r1, r2, f, g, 0, b);
    assert(rv_encode(mn, t) == Ok::<(u32, Option<int>), Seq<char>>((w, None)));
    let n = b & 31u32;
    crate::rv32i::lemma_signed_is_i32(a, b);
    crate::rv32i::lemma_sra_is_i32_shift(a, n);
}

/// Assembling `op rd, rs1, imm` for an immediate ALU mnemonic gives an
/// immediate instruction (opcode 0x13) on those registers whose immediate
/// field holds the low twelve bits of `imm`, computing what the mnemonic
/// names: addi modulo 2^32, xori, ori, andi, slti and sltiu (signed and
/// unsigned less) with the sign-extended immediate.
pub proof fn lemma_immediate_mnemonics(mn: Seq<char>, t: Seq<Seq<char>>, a: u32)
    requires
        t.len() == 4,
        rv_reg_of(t[1]) is Some,
        rv_reg_of(t[2]) is Some,
        i32_word_of(t[3]) is Some,
        mn == "addi"@ || mn == "slti"@ || mn == "sltiu"@ || mn == "xori"@ || mn == "ori"@ || mn == "andi"@,
    ensures
        match rv_encode(mn, t) {
            Ok((w, _)) => {
                let imm = ((w as i32) >> 20u32) as u32;
                let x = alu_imm(f3(w), f7(w), a, imm);
                &&& opc(w) == 0x13
                &&& rd(w) == rv_reg_of(t[1])->0
                &&& rs1(w) == rv_reg_of(t[2])->0
                &&& w >> 20u32 == i32_word_of(t[3])->0 & 0xFFFu32
                &&& mn == "addi"@ ==> (x matches Some(v) && v as int == (a + imm) % 0x1_0000_0000)
                &&& mn == "xori"@ ==> x == Some(a ^ imm)
                &&& mn == "ori"@ ==> x == Some(a | imm)
                &&& mn == "andi"@ ==> x == Some(a & imm)
                &&& mn == "slti"@ ==> x == Some(if (a as i32) < (imm as i32) { 1u32 } else { 0u32 })
                &&& mn == "sltiu"@ ==> x == Some(if a < imm { 1u32 } else { 0u32 })
            },
            Err(_) => false,
        },
{
    lemma_alu_codes();
    let d = rv_reg_of(t[1])->0;
    let r1 = rv_reg_of(t[2])->0;
    let v = i32_word_of(t[3])->0;
    assert(d < 32 && r1 < 32);
    let f = i_funct(mn)->0;
    assert(f < 8 && f != 1 && f != 5);
    let w = encode_i(0x13, d, f, r1, v);
    let imm = ((w as i32) >> 20u32) as u32;
    lemma_encoded_fields(d, r1, 0, f, 0, v, 0);
    assert(rv_encode(mn, t) == Ok::<(u32, Option<int>), Seq<char>>((w, None)));
    crate::rv32i::lemma_signed_is_i32(a, imm);
}

/// The branch condition codes of the branch mnemonics.
proof fn lemma_branch_codes()
    ensures
        branch_funct("beq"@) == Some(0u32),
        branch_funct("bne"@) == Some(1u32),
        branch_funct("blt"@) == Some(4u32),
        branch_funct("bge"@) == Some(5u32),
        branch_funct("bltu"@) == Some(6u32),
        branch_funct("bgeu"@) == Some(7u32),
{
    reveal_strlit("beq");
    reveal_strlit("bne");
    reveal_strlit("blt");
    reveal_strlit("bge");
    reveal_strlit("bltu");
    reveal_strlit("bgeu");
    assert("bne"@[1] != "beq"@[1]);
    assert("blt"@[1] != "beq"@[1] && "blt"@[1] != "bne"@[1]);
    assert("bge"@[2] != "beq"@[2] && "bge"@[1] != "bne"@[1] && "bge"@[1] != "blt"@[1]);
    assert("bltu"@.len() != "beq"@.len() && "bltu"@.len() != "bne"@.len() && "bltu"@.len() != "blt"@.len()
        && "bltu"@.len() != "bge"@.len());
    assert("bgeu"@.len() != "beq"@.len() && "bgeu"@.len() != "bne"@.len() && "bgeu"@.len() != "blt"@.len()
        && "bgeu"@.len() != "bge"@.len() && "bgeu"@[1] != "bltu"@[1]);
}

/// Assembling `op rs1, rs2, offset` for a branch mnemonic gives a branch
/// (opcode 0x63) on those two registers whose condition is the one the
/// mnemonic names: beq equal, bne not equal, blt and bge signed less and
/// greater or equal, bltu and bgeu unsigned less and greater or equal.
pub proof fn lemma_branch_mnemonics(mn: Seq<char>, t: Seq<Seq<char>>, a: u32, b: u32)
    requires
        t.len() == 4,
        rv_reg_of(t[1]) is Some,
        rv_reg_of(t[2]) is Some,
        mn == "beq"@ || mn == "bne"@ || mn == "blt"@ || mn == "bge"@ || mn == "bltu"@ || mn == "bgeu"@,
    ensures
        match rv_encode(mn, t) {
            Ok((w, _)) => {
                &&& opc(w) == 0x63
                &&& rs1(w) == rv_reg_of(t[1])->0
                &&& rs2(w) == rv_reg_of(t[2])->0
                &&& mn == "beq"@ ==> branch_taken(f3(w), a, b) == Some(a == b)
                &&& mn == "bne"@ ==> branch_taken(f3(w), a, b) == Some(a != b)
                &&& mn == "blt"@ ==> branch_taken(f3(w), a, b) == Some((a as i32) < (b as i32))
                &&& mn == "bge"@ ==> branch_taken(f3(w), a, b) == Some((a as i32) >= (b as i32))
                &&& mn == "bltu"@ ==> branch_taken(f3(w), a, b) == Some(a < b)
                &&& mn == "bgeu"@ ==> branch_taken(f3(w), a, b) == Some(a >= b)
            },
            Err(_) => false,
        },
{
    reveal_strlit("add");
    reveal_strlit("sub");
    reveal_strlit("slt");
    reveal_strlit("sltu");
    reveal_strlit("xor");
    reveal_strlit("or");
    reveal_strlit("and");
    reveal_strlit("sll");
    reveal_strlit("srl");
    reveal_strlit("sra");
    reveal_strlit("addi");
    reveal_strlit("slti");
    reveal_strlit("sltiu");
    reveal_strlit("xori");
    reveal_strlit("ori");
    reveal_strlit("andi");
    reveal_strlit("slli");
    reveal_strlit("srli");
    reveal_strlit("srai");
    reveal_strlit("lui");
    reveal_strlit("auipc");
    reveal_strlit("ebreak");
    reveal_strlit("ret");
    reveal_strlit("lb");
    reveal_strlit("lh");
    reveal_strlit("lw");
    reveal_strlit("lbu");
    reveal_strlit("lhu");
    reveal_strlit("sb");
    reveal_strlit("sh");
    reveal_strlit("sw");
    reveal_strlit("beq");
    reveal_strlit("bne");
    reveal_strlit("blt");
    reveal_strlit("bge");
    reveal_strlit("bltu");
    reveal_strlit("bgeu");
    let r1 = rv_reg_of(t[1])->0;
    let r2 = rv_reg_of(t[2])->0;
    assert(r1 < 32 && r2 < 32);
    lemma_branch_codes();
    assert(mn.len() >= 3 && mn[0] == 'b');
    assert(r_funct(mn) is None) by {
        assert(mn[0] != "add"@[0] && mn[0] != "sub"@[0] && mn[0] != "slt"@[0] && mn[0] != "sltu"@[0] && mn[0] != "xor"@[0]
            && mn[0] != "or"@[0] && mn[0] != "and"@[0] && mn[0] != "sll"@[0] && mn[0] != "srl"@[0] && mn[0] != "sra"@[0]);
    }
    assert(i_funct(mn) is None) by {
        assert(mn[0] != "addi"@[0] && mn[0] != "slti"@[0] && mn[0] != "sltiu"@[0] && mn[0] != "xori"@[0] && mn[0] != "ori"@[0]
            && mn[0] != "andi"@[0]);
    }
    assert(!(mn == "slli"@ || mn == "srli"@ || mn == "srai"@));
    assert(!(mn == "lui"@ || mn == "auipc"@ || mn == "ebreak"@ || mn == "ret"@));
    assert(load_funct(mn) is None);
    assert(store_funct(mn) is None);
    assert(branch_funct(mn) is Some);
    assert(reg_res(t[1]) == Ok::<u32, Seq<char>>(r1));
    assert(reg_res(t[2]) == Ok::<u32, Seq<char>>(r2));
    let f = branch_funct(mn)->0;
    assert(f == 0 || f == 1 || f == 4 || f == 5 || f == 6 || f == 7);
    let imm: u32 = match i32_word_of(t[3]) {
        Some(v) => v,
        None => 0,
    };
    let w = encode_b(0x63, imm, f, r1, r2);
    lemma_encoded_fields(0, r1, r2, f, 0, imm, 0);
    crate::rv32i::lemma_signed_is_i32(a, b);
    assert(rv_encode(mn, t) == Ok::<(u32, Option<int>), Seq<char>>((w, if i32_word_of(t[3]) is Some { None } else { Some(3int) })));
}

/// The load and store mnemonics are none of the ALU, shift, upper-immediate
/// or system mnemonics, and their funct3 codes.
proof fn lemma_memory_names()
    ensures
        r_funct("lb"@) is None && i_funct("lb"@) is None,
        "lb"@ != "slli"@ && "lb"@ != "srli"@ && "lb"@ != "srai"@ && "lb"@ != "lui"@ && "lb"@ != "auipc"@ && "lb"@ != "ebreak"@ && "lb"@ != "ret"@,
        load_funct("lb"@) == Some(0u32),
        r_funct("lh"@) is None && i_funct("lh"@) is None,
        "lh"@ != "slli"@ && "lh"@ != "srli"@ && "lh"@ != "srai"@ && "lh"@ != "lui"@ && "lh"@ != "auipc"@ && "lh"@ != "ebreak"@ && "lh"@ != "ret"@,
        load_funct("lh"@) == Some(1u32),
        r_funct("lw"@) is None && i_funct("lw"@) is None,
        "lw"@ != "slli"@ && "lw"@ != "srli"@ && "lw"@ != "srai"@ && "lw"@ != "lui"@ && "lw"@ != "auipc"@ && "lw"@ != "ebreak"@ && "lw"@ != "ret"@,
        load_funct("lw"@) == Some(2u32),
        r_funct("lbu"@) is None && i_funct("lbu"@) is None,
        "lbu"@ != "slli"@ && "lbu"@ != "srli"@ && "lbu"@ != "srai"@ && "lbu"@ != "lui"@ && "lbu"@ != "auipc"@ && "lbu"@ != "ebreak"@ && "lbu"@ != "ret"@,
        load_funct("lbu"@) == Some(4u32),
        r_funct("lhu"@) is None && i_funct("lhu"@) is None,
        "lhu"@ != "slli"@ && "lhu"@ != "srli"@ && "lhu"@ != "srai"@ && "lhu"@ != "lui"@ && "lhu"@ != "auipc"@ && "lhu"@ != "ebreak"@ && "lhu"@ != "ret"@,
        load_funct("lhu"@) == Some(5u32),
        r_funct("sb"@) is None && i_funct("sb"@) is None,
        "sb"@ != "slli"@ && "sb"@ != "srli"@ && "sb"@ != "srai"@ && "sb"@ != "lui"@ && "sb"@ != "auipc"@ && "sb"@ != "ebreak"@ && "sb"@ != "ret"@,
        load_funct("sb"@) is None && store_funct("sb"@) == Some(0u32),
        r_funct("sh"@) is None && i_funct("sh"@) is None,
        "sh"@ != "slli"@ && "sh"@ != "srli"@ && "sh"@ != "srai"@ && "sh"@ != "lui"@ && "sh"@ != "auipc"@ && "sh"@ != "ebreak"@ && "sh"@ != "ret"@,
        load_funct("sh"@) is None && store_funct("sh"@) == Some(1u32),
        r_funct("sw"@) is None && i_funct("sw"@) is None,
        "sw"@ != "slli"@ && "sw"@ != "srli"@ && "sw"@ != "srai"@ && "sw"@ != "lui"@ && "sw"@ != "auipc"@ && "sw"@ != "ebreak"@ && "sw"@ != "ret"@,
        load_funct("sw"@) is None && store_funct("sw"@) == Some(2u32),
{
    reveal_strlit("add");
    reveal_strlit("sub");
    reveal_strlit("slt");
    reveal_strlit("sltu");
    reveal_strlit("xor");
    reveal_strlit("or");
    reveal_strlit("and");
    reveal_strlit("sll");
    reveal_strlit("srl");
    reveal_strlit("sra");
    reveal_strlit("addi");
    reveal_strlit("slti");
    reveal_strlit("sltiu");
    reveal_strlit("xori");
    reveal_strlit("ori");
    reveal_strlit("andi");
    reveal_strlit("slli");
    reveal_strlit("srli");
    reveal_strlit("srai");
    reveal_strlit("lui");
    reveal_strlit("auipc");
    reveal_strlit("ebreak");
    reveal_strlit("ret");
    reveal_strlit("lb");
    reveal_strlit("lh");
    reveal_strlit("lw");
    reveal_strlit("lbu");
    reveal_strlit("lhu");
    reveal_strlit("sb");
    reveal_strlit("sh");
    reveal_strlit("sw");
    assert("lb"@.len() != "add"@.len());
    assert("lb"@.len() != "sub"@.len());
    assert("lb"@.len() != "slt"@.len());
    assert("lb"@.len() != "sltu"@.len());
    assert("lb"@.len() != "xor"@.len());
    assert("lb"@[0] != "or"@[0]);
    assert("lb"@.len() != "and"@.len());
    assert("lb"@.len() != "sll"@.len());
    assert("lb"@.len() != "srl"@.len());
    assert("lb"@.len() != "sra"@.len());
    assert("lb"@.len() != "addi"@.len());
    assert("lb"@.len() != "slti"@.len());
    assert("lb"@.len() != "sltiu"@.len());
    assert("lb"@.len() != "xori"@.len());
    assert("lb"@.len() != "ori"@.len());
    assert("lb"@.len() != "andi"@.len());
    assert("lb"@.len() != "slli"@.len());
    assert("lb"@.len() != "srli"@.len());
    assert("lb"@.len() != "srai"@.len());
    assert("lb"@.len() != "lui"@.len());
    assert("lb"@.len() != "auipc"@.len());
    assert("lb"@.len() != "ebreak"@.len());
    assert("lb"@.len() != "ret"@.len());
    assert("lh"@.len() != "add"@.len());
    assert("lh"@.len() != "sub"@.len());
    assert("lh"@.len() != "slt"@.len());
    assert("lh"@.len() != "sltu"@.len());
    assert("lh"@.len() != "xor"@.len());
    assert("lh"@[0] != "or"@[0]);
    assert("lh"@.len() != "and"@.len());
    assert("lh"@.len() != "sll"@.len());
    assert("lh"@.len() != "srl"@.len());
    assert("lh"@.len() != "sra"@.len());
    assert("lh"@.len() != "addi"@.len());
    assert("lh"@.len() != "slti"@.len());
    assert("lh"@.len() != "sltiu"@.len());
    assert("lh"@.len() != "xori"@.len());
    assert("lh"@.len() != "ori"@.len());
    assert("lh"@.len() != "andi"@.len());
    assert("lh"@.len() != "slli"@.len());
    assert("lh"@.len() != "srli"@.len());
    assert("lh"@.len() != "srai"@.len());
    assert("lh"@.len() != "lui"@.len());
    assert("lh"@.len() != "auipc"@.len());
    assert("lh"@.len() != "ebreak"@.len());
    assert("lh"@.len() != "ret"@.len());
    assert("lw"@.len() != "add"@.len());
    assert("lw"@.len() != "sub"@.len());
    assert("lw"@.len() != "slt"@.len());
    assert("lw"@.len() != "sltu"@.len());
    assert("lw"@.len() != "xor"@.len());
    assert("lw"@[0] != "or"@[0]);
    assert("lw"@.len() != "and"@.len());
    assert("lw"@.len() != "sll"@.len());
    assert("lw"@.len() != "srl"@.len());
    assert("lw"@.len() != "sra"@.len());
    assert("lw"@.len() != "addi"@.len());
    assert("lw"@.len() != "slti"@.len());
    assert("lw"@.len() != "sltiu"@.len());
    assert("lw"@.len() != "xori"@.len());
    assert("lw"@.len() != "ori"@.len());
    assert("lw"@.len() != "andi"@.len());
    assert("lw"@.len() != "slli"@.len());
    assert("lw"@.len() != "srli"@.len());
    assert("lw"@.len() != "srai"@.len());
    assert("lw"@.len() != "lui"@.len());
    assert("lw"@.len() != "auipc"@.len());
    assert("lw"@.len() != "ebreak"@.len());
    assert("lw"@.len() != "ret"@.len());
    assert("lbu"@[0] != "add"@[0]);
    assert("lbu"@[0] != "sub"@[0]);
    assert("lbu"@[0] != "slt"@[0]);
    assert("lbu"@.len() != "sltu"@.len());
    assert("lbu"@[0] != "xor"@[0]);
    assert("lbu"@.len() != "or"@.len());
    assert("lbu"@[0] != "and"@[0]);
    assert("lbu"@[0] != "sll"@[0]);
    assert("lbu"@[0] != "srl"@[0]);
    assert("lbu"@[0] != "sra"@[0]);
    assert("lbu"@.len() != "addi"@.len());
    assert("lbu"@.len() != "slti"@.len());
    assert("lbu"@.len() != "sltiu"@.len());
    assert("lbu"@.len() != "xori"@.len());
    assert("lbu"@[0] != "ori"@[0]);
    assert("lbu"@.len() != "andi"@.len());
    assert("lbu"@.len() != "slli"@.len());
    assert("lbu"@.len() != "srli"@.len());
    assert("lbu"@.len() != "srai"@.len());
    assert("lbu"@[1] != "lui"@[1]);
    assert("lbu"@.len() != "auipc"@.len());
    assert("lbu"@.len() != "ebreak"@.len());
    assert("lbu"@[0] != "ret"@[0]);
    assert("lhu"@[0] != "add"@[0]);
    assert("lhu"@[0] != "sub"@[0]);
    assert("lhu"@[0] != "slt"@[0]);
    assert("lhu"@.len() != "sltu"@.len());
    assert("lhu"@[0] != "xor"@[0]);
    assert("lhu"@.len() != "or"@.len());
    assert("lhu"@[0] != "and"@[0]);
    assert("lhu"@[0] != "sll"@[0]);
    assert("lhu"@[0] != "srl"@[0]);
    assert("lhu"@[0] != "sra"@[0]);
    assert("lhu"@.len() != "addi"@.len());
    assert("lhu"@.len() != "slti"@.len());
    assert("lhu"@.len() != "sltiu"@.len());
    assert("lhu"@.len() != "xori"@.len());
    assert("lhu"@[0] != "ori"@[0]);
    assert("lhu"@.len() != "andi"@.len());
    assert("lhu"@.len() != "slli"@.len());
    assert("lhu"@.len() != "srli"@.len());
    assert("lhu"@.len() != "srai"@.len());
    assert("lhu"@[1] != "lui"@[1]);
    assert("lhu"@.len() != "auipc"@.len());
    assert("lhu"@.len() != "ebreak"@.len());
    assert("lhu"@[0] != "ret"@[0]);
    assert("sb"@.len() != "add"@.len());
    assert("sb"@.len() != "sub"@.len());
    assert("sb"@.len() != "slt"@.len());
    assert("sb"@.len() != "sltu"@.len());
    assert("sb"@.len() != "xor"@.len());
    assert("sb"@[0] != "or"@[0]);
    assert("sb"@.len() != "and"@.len());
    assert("sb"@.len() != "sll"@.len());
    assert("sb"@.len() != "srl"@.len());
    assert("sb"@.len() != "sra"@.len());
    assert("sb"@.len() != "addi"@.len());
    assert("sb"@.len() != "slti"@.len());
    assert("sb"@.len() != "sltiu"@.len());
    assert("sb"@.len() != "xori"@.len());
    assert("sb"@.len() != "ori"@.len());
    assert("sb"@.len() != "andi"@.len());
    assert("sb"@.len() != "slli"@.len());
    assert("sb"@.len() != "srli"@.len());
    assert("sb"@.len() != "srai"@.len());
    assert("sb"@.len() != "lui"@.len());
    assert("sb"@.len() != "auipc"@.len());
    assert("sb"@.len() != "ebreak"@.len());
    assert("sb"@.len() != "ret"@.len());
    assert("sh"@.len() != "add"@.len());
    assert("sh"@.len() != "sub"@.len());
    assert("sh"@.len() != "slt"@.len());
    assert("sh"@.len() != "sltu"@.len());
    assert("sh"@.len() != "xor"@.len());
    assert("sh"@[0] != "or"@[0]);
    assert("sh"@.len() != "and"@.len());
    assert("sh"@.len() != "sll"@.len());
    assert("sh"@.len() != "srl"@.len());
    assert("sh"@.len() != "sra"@.len());
    assert("sh"@.len() != "addi"@.len());
    assert("sh"@.len() != "slti"@.len());
    assert("sh"@.len() != "sltiu"@.len());
    assert("sh"@.len() != "xori"@.len());
    assert("sh"@.len() != "ori"@.len());
    assert("sh"@.len() != "andi"@.len());
    assert("sh"@.len() != "slli"@.len());
    assert("sh"@.len() != "srli"@.len());
    assert("sh"@.len() != "srai"@.len());
    assert("sh"@.len() != "lui"@.len());
    assert("sh"@.len() != "auipc"@.len());
    assert("sh"@.len() != "ebreak"@.len());
    assert("sh"@.len() != "ret"@.len());
    assert("sw"@.len() != "add"@.len());
    assert("sw"@.len() != "sub"@.len());
    assert("sw"@.len() != "slt"@.len());
    assert("sw"@.len() != "sltu"@.len());
    assert("sw"@.len() != "xor"@.len());
    assert("sw"@[0] != "or"@[0]);
    assert("sw"@.len() != "and"@.len());
    assert("sw"@.len() != "sll"@.len());
    assert("sw"@.len() != "srl"@.len());
    assert("sw"@.len() != "sra"@.len());
    assert("sw"@.len() != "addi"@.len());
    assert("sw"@.len() != "slti"@.len());
    assert("sw"@.len() != "sltiu"@.len());
    assert("sw"@.len() != "xori"@.len());
    assert("sw"@.len() != "ori"@.len());
    assert("sw"@.len() != "andi"@.len());
    assert("sw"@.len() != "slli"@.len());
    assert("sw"@.len() != "srli"@.len());
    assert("sw"@.len() != "srai"@.len());
    assert("sw"@.len() != "lui"@.len());
    assert("sw"@.len() != "auipc"@.len());
    assert("sw"@.len() != "ebreak"@.len());
    assert("sw"@.len() != "ret"@.len());
    assert("lb"@[1] != "lh"@[1]);
    assert("lb"@[1] != "lw"@[1]);
    assert("lb"@.len() != "lbu"@.len());
    assert("lb"@.len() != "lhu"@.len());
    assert("lb"@[0] != "sb"@[0]);
    assert("lb"@[0] != "sh"@[0]);
    assert("lb"@[0] != "sw"@[0]);
    assert("lh"@[1] != "lw"@[1]);
    assert("lh"@.len() != "lbu"@.len());
    assert("lh"@.len() != "lhu"@.len());
    assert("lh"@[0] != "sb"@[0]);
    assert("lh"@[0] != "sh"@[0]);
    assert("lh"@[0] != "sw"@[0]);
    assert("lw"@.len() != "lbu"@.len());
    assert("lw"@.len() != "lhu"@.len());
    assert("lw"@[0] != "sb"@[0]);
    assert("lw"@[0] != "sh"@[0]);
    assert("lw"@[0] != "sw"@[0]);
    assert("lbu"@[1] != "lhu"@[1]);
    assert("lbu"@.len() != "sb"@.len());
    assert("lbu"@.len() != "sh"@.len());
    assert("lbu"@.len() != "sw"@.len());
    assert("lhu"@.len() != "sb"@.len());
    assert("lhu"@.len() != "sh"@.len());
    assert("lhu"@.len() != "sw"@.len());
    assert("sb"@[1] != "sh"@[1]);
    assert("sb"@[1] != "sw"@[1]);
    assert("sh"@[1] != "sw"@[1]);
}

/// Assembling `lb`, `lh`, `lw`, `lbu` or `lhu rd, offset(rs1)` gives a load
/// word (opcode 0x03) on those registers with funct3 0, 1, 2, 4, resp. 5,
/// the kinds that the simulator runs as the sign-extended byte and
/// halfword, the word, and the zero-extended byte and halfword; `sb`, `sh`
/// or `sw rs2, offset(rs1)` gives a store word (opcode 0x23) with funct3 0,
/// 1, resp. 2, byte, halfword and word.
pub proof fn lemma_memory_mnemonics(mn: Seq<char>, t: Seq<Seq<char>>)
    requires
        t.len() == 3,
        rv_reg_of(t[1]) is Some,
        offset_base_of(t[2]) is Ok,
        mn == "lb"@ || mn == "lh"@ || mn == "lw"@ || mn == "lbu"@ || mn == "lhu"@ || mn == "sb"@ || mn == "sh"@ || mn == "sw"@,
    ensures
        match rv_encode(mn, t) {
            Ok((w, label)) => {
                let base = offset_base_of(t[2])->Ok_0.1;
                let is_load = mn == "lb"@ || mn == "lh"@ || mn == "lw"@ || mn == "lbu"@ || mn == "lhu"@;
                &&& label is None
                &&& rs1(w) == base
                &&& is_load ==> opc(w) == 0x03 && rd(w) == rv_reg_of(t[1])->0
                &&& !is_load ==> opc(w) == 0x23 && rs2(w) == rv_reg_of(t[1])->0
                &&& mn == "lb"@ ==> f3(w) == 0
                &&& mn == "lh"@ ==> f3(w) == 1
                &&& mn == "lw"@ ==> f3(w) == 2
                &&& mn == "lbu"@ ==> f3(w) == 4
                &&& mn == "lhu"@ ==> f3(w) == 5
                &&& mn == "sb"@ ==> f3(w) == 0
                &&& mn == "sh"@ ==> f3(w) == 1
                &&& mn == "sw"@ ==> f3(w) == 2
            },
            Err(_) => false,
        },
{
    lemma_memory_names();
    let d = rv_reg_of(t[1])->0;
    assert(d < 32);
    let (imm, b) = offset_base_of(t[2])->Ok_0;
    assert(b < 32);
    assert(reg_res(t[1]) == Ok::<u32, Seq<char>>(d));
    if load_funct(mn) is Some {
        let f = load_funct(mn)->0;
        lemma_encoded_fields(d, b, 0, f, 0, imm, 0);
        assert(rv_encode(mn, t) == Ok::<(u32, Option<int>), Seq<char>>((encode_i(0x03, d, f, b, imm), None)));
    } else {
        let f = store_funct(mn)->0;
        lemma_encoded_fields(0, b, d, f, 0, imm, 0);
        assert(rv_encode(mn, t) == Ok::<(u32, Option<int>), Seq<char>>((encode_s(0x23, imm, f, b, d), None)));
    }
}

} // verus!

//! LC-3 assembler: `.ORIG`, `.FILL`, `.BLKW`, `.END`, labels with a colon,
//! and PC-relative operands measured in words from PC+2.
use vstd::prelude::*;
use crate::plugin::{AssemblerError, SourceMapEntry, ProgramImage, RegisterSchema};
use crate::text::{
    chars_of, split_lines, split_ws, to_lower, to_upper, trim_chars, strip_trailing_chars, slice_vec, eq_lit,
    starts_with_lit, lower_seq, upper_seq, trim, strip_trailing, parse_unsigned, parse_signed, tokens, lines_spec,
};
use crate::asmutil::{
    strip_leading, strip_leading_0x, strip_leading_chars, strip_leading_0x_chars, drop_prefix, drop_prefix_chars,
    hex_prefixed, is_hex_prefixed, asm_error, msg_with, emit16, map_source, read_word16, write_word16, code_part,
    parse_u_radix, parse_i_radix, code_of,
};
use crate::labels::LabelTable;
use crate::scan::{ImageView, image_view, Scan, errs_view, lemma_errs_push, line_label, line_rest, line_number, starts_with, split_label, le16, put16};
use crate::fmt::{Text, lit};
use crate::lc3::Lc3Plugin;

verus! {

/// A register operand `R0`..`R7` (trimmed, trailing commas dropped, any case).
pub open spec fn reg_of(name: Seq<char>) -> Option<u32> {
    let n = lower_seq(strip_trailing(trim(name), ','));
    if n.len() > 0 && n[0] == 'r' {
        match parse_unsigned(n.drop_first(), 10, 0xFFFF_FFFF) {
            Some(v) => if v < 8 { Some(v as u32) } else { None },
            None => None,
        }
    } else {
        None
    }
}

/// An immediate: optional `#`, then `x`/`0x` hex or decimal, as a 16-bit signed value.
pub open spec fn imm_of(s: Seq<char>) -> Option<int> {
    let t = drop_prefix(trim(s), '#');
    if hex_prefixed(t) {
        parse_signed(strip_leading_0x(strip_leading(strip_leading(t, 'x'), 'X')), 16, -0x8000, 0x7FFF)
    } else {
        parse_signed(t, 10, -0x8000, 0x7FFF)
    }
}

/// An address: `x`/`0x` hex or decimal, as a 32-bit unsigned value.
pub open spec fn addr_of(s: Seq<char>) -> Option<nat> {
    let t = trim(s);
    if hex_prefixed(t) {
        parse_unsigned(strip_leading_0x(strip_leading(strip_leading(t, 'x'), 'X')), 16, 0xFFFF_FFFF)
    } else {
        parse_unsigned(t, 10, 0xFFFF_FFFF)
    }
}

pub fn parse_reg(name: &[char]) -> (r: Option<u32>)
    ensures
        r == reg_of(name@),
{
    let t = trim_chars(name);
    let t2 = strip_trailing_chars(t.as_slice(), ',');
    let n = to_lower(t2.as_slice());
    if n.len() > 0 && n[0] == 'r' {
        let digits = slice_vec(n.as_slice(), 1, n.len());
        assert(digits@ =~= n@.drop_first());
        match parse_u_radix(digits.as_slice(), false, 0xFFFF_FFFF) {
            Some(v) => if v < 8 { Some(v as u32) } else { None },
            None => None,
        }
    } else {
        None
    }
}

fn hex_digits_of(t: &[char]) -> (r: Vec<char>)
    ensures
        r@ == strip_leading_0x(strip_leading(strip_leading(t@, 'x'), 'X')),
{
    let a = strip_leading_chars(t, 'x');
    let b = strip_leading_chars(a.as_slice(), 'X');
    strip_leading_0x_chars(b.as_slice())
}

pub fn parse_imm(s: &[char]) -> (r: Option<i64>)
    ensures
        match r {
            Some(v) => imm_of(s@) == Some(v as int),
            None => imm_of(s@) is None,
        },
{
    let t0 = trim_chars(s);
    let t = drop_prefix_chars(t0.as_slice(), '#');
    if is_hex_prefixed(t.as_slice()) {
        let h = hex_digits_of(t.as_slice());
        parse_i_radix(h.as_slice(), true, -0x8000, 0x7FFF)
    } else {
        parse_i_radix(t.as_slice(), false, -0x8000, 0x7FFF)
    }
}

pub fn parse_hex_or_dec(s: &[char]) -> (r: Option<u64>)
    ensures
        match r {
            Some(v) => addr_of(s@) == Some(v as nat),
            None => addr_of(s@) is None,
        },
{
    let t = trim_chars(s);
    if is_hex_prefixed(t.as_slice()) {
        let h = hex_digits_of(t.as_slice());
        parse_u_radix(h.as_slice(), true, 0xFFFF_FFFF)
    } else {
        parse_u_radix(t.as_slice(), false, 0xFFFF_FFFF)
    }
}

/// A label operand waiting for its address.
pub struct PendingRef {
    pub offset: usize,
    pub pc: u32,
    pub label: Vec<char>,
    pub line: u32,
    /// Width of the PC-relative field: 9 or 11 bits.
    pub bits: u8,
}

pub open spec fn refs_fit(refs: Seq<PendingRef>, len: nat) -> bool {
    forall|i: int| 0 <= i < refs.len() ==> (#[trigger] refs[i]).offset + 2 <= len
}

/// A register operand or the error naming it.
pub open spec fn reg_res(tok: Seq<char>) -> Result<u32, Seq<char>> {
    match reg_of(tok) {
        Some(r) => Ok(r),
        None => Err("Invalid reg: "@ + tok),
    }
}

/// The opcode and usage text of the PC-relative loads and stores.
pub open spec fn pcrel_op(m: Seq<char>) -> Option<(u32, Seq<char>)> {
    if m == "LD"@ {
        Some((0x2000u32, "LD DR, label"@))
    } else if m == "LDI"@ {
        Some((0xA000u32, "LDI DR, label"@))
    } else if m == "LEA"@ {
        Some((0xE000u32, "LEA DR, label"@))
    } else if m == "ST"@ {
        Some((0x3000u32, "ST SR, label"@))
    } else if m == "STI"@ {
        Some((0xB000u32, "STI SR, label"@))
    } else {
        None
    }
}

/// Whether a token starts with `0x` or `x`.
pub open spec fn x_prefixed(a: Seq<char>) -> bool {
    (2 <= a.len() && a.subrange(0, 2) == "0x"@) || (1 <= a.len() && a.subrange(0, 1) == "x"@)
}

/// A `x`/`0x` hex or decimal value at most `max` (the `.ORIG` and `TRAP` syntax).
pub open spec fn xnum_of(a: Seq<char>, max: nat) -> Option<nat> {
    if x_prefixed(a) {
        parse_unsigned(strip_leading_0x(strip_leading(a, 'x')), 16, max)
    } else {
        parse_unsigned(a, 10, max)
    }
}

/// The word of an instruction and, for a label operand, the index of its
/// token and the width of its offset field; or the error message.
/// `m` is the upper-cased mnemonic, `t` the whitespace tokens.
pub open spec fn lc3_insn(m: Seq<char>, t: Seq<Seq<char>>) -> Result<(u16, Option<(int, u8)>), Seq<char>> {
    let nargs = t.len() - 1;
    if m == "ADD"@ || m == "AND"@ {
        let is_add = m == "ADD"@;
        let base: u32 = if is_add { 0x1000 } else { 0x5000 };
        if nargs != 3 {
            Err(if is_add { "ADD DR, SR1, SR2 or ADD DR, SR1, #imm5"@ } else { "AND DR, SR1, SR2 or AND DR, SR1, #imm5"@ })
        } else {
            match reg_res(t[1]) {
                Err(e) => Err(e),
                Ok(dr) => match reg_res(t[2]) {
                    Err(e) => Err(e),
                    Ok(sr1) => match imm_of(t[3]) {
                        Some(imm) => Ok(((base + dr * 512 + sr1 * 64 + 0x20 + (imm + 0x10000) % 32) as u16, None)),
                        None => match reg_res(t[3]) {
                            Err(e) => Err(e),
                            Ok(sr2) => Ok(((base + dr * 512 + sr1 * 64 + sr2) as u16, None)),
                        },
                    },
                },
            }
        }
    } else if m == "NOT"@ {
        if nargs != 2 {
            Err("NOT DR, SR"@)
        } else {
            match reg_res(t[1]) {
                Err(e) => Err(e),
                Ok(dr) => match reg_res(t[2]) {
                    Err(e) => Err(e),
                    Ok(sr) => Ok(((0x903F + dr * 512 + sr * 64) as u16, None)),
                },
            }
        }
    } else if branch_bits(m) is Some {
        let (n, z, p) = branch_bits(m)->0;
        if nargs != 1 {
            Err("BR label"@)
        } else {
            Ok(((n * 2048 + z * 1024 + p * 512) as u16, Some((1int, 9u8))))
        }
    } else if m == "JMP"@ || m == "RET"@ {
        if m == "RET"@ {
            Ok((0xC1C0u16, None))
        } else if nargs != 1 {
            Err("JMP BaseR"@)
        } else {
            match reg_res(t[1]) {
                Err(e) => Err(e),
                Ok(b) => Ok(((0xC000 + b * 64) as u16, None)),
            }
        }
    } else if m == "JSR"@ {
        if nargs != 1 {
            Err("JSR label"@)
        } else {
            Ok((0x4800u16, Some((1int, 11u8))))
        }
    } else if m == "JSRR"@ {
        if nargs != 1 {
            Err("JSRR BaseR"@)
        } else {
            match reg_res(t[1]) {
                Err(e) => Err(e),
                Ok(b) => Ok(((0x4000 + b * 64) as u16, None)),
            }
        }
    } else if pcrel_op(m) is Some {
        let (base, text) = pcrel_op(m)->0;
        if nargs != 2 {
            Err(text)
        } else {
            match reg_res(t[1]) {
                Err(e) => Err(e),
                Ok(r) => Ok(((base + r * 512) as u16, Some((2int, 9u8)))),
            }
        }
    } else if m == "LDR"@ || m == "STR"@ {
        let is_ldr = m == "LDR"@;
        let base: u32 = if is_ldr { 0x6000 } else { 0x7000 };
        if nargs != 3 {
            Err(if is_ldr { "LDR DR, BaseR, #offset6"@ } else { "STR SR, BaseR, #offset6"@ })
        } else {
            match reg_res(t[1]) {
                Err(e) => Err(e),
                Ok(r) => match reg_res(t[2]) {
                    Err(e) => Err(e),
                    Ok(b) => match imm_of(t[3]) {
                        None => Err("Invalid offset: "@ + t[3]),
                        Some(off) => Ok(((base + r * 512 + b * 64 + (off + 0x10000) % 64) as u16, None)),
                    },
                },
            }
        }
    } else if m == "TRAP"@ {
        if nargs != 1 {
            Err("TRAP trapvect8"@)
        } else {
            match xnum_of(t[1], 0xFFFF) {
                Some(x) => Ok(((0xF000 + x % 256) as u16, None)),
                None => Err("Invalid: "@ + t[1]),
            }
        }
    } else if m == "HALT"@ {
        Ok((0xF025u16, None))
    } else if m == "NOP"@ {
        Ok((0x0000u16, None))
    } else {
        Err("Unknown instruction: "@ + m + " (labels need a colon, e.g. _start:)"@)
    }
}

/// The little-endian bytes of a word.
pub open spec fn le_word(w: u16) -> Seq<u8> {
    seq![(w % 256) as u8, (w / 256) as u8]
}

/// The `.FILL` value.
pub open spec fn fill_of(a: Seq<char>) -> Option<u16> {
    if hex_prefixed(a) {
        match parse_unsigned(strip_leading_0x(strip_leading(strip_leading(a, 'x'), 'X')), 16, 0xFFFF) {
            Some(v) => Some(v as u16),
            None => None,
        }
    } else {
        match parse_signed(a, 10, -0x8000_0000, 0x7FFF_FFFF) {
            Some(v) => Some(((v + 0x1_0000_0000) % 0x10000) as u16),
            None => None,
        }
    }
}

/// The bytes of a line (a directive or an instruction) and its label
/// operand (token index and field width), or the error message.
pub open spec fn lc3_encode(m: Seq<char>, t: Seq<Seq<char>>) -> Result<(Seq<u8>, Option<(int, u8)>), Seq<char>> {
    let nargs = t.len() - 1;
    if m == ".ORIG"@ {
        if nargs != 1 {
            Err(".ORIG x3000"@)
        } else {
            match xnum_of(t[1], 0xFFFF_FFFF) {
                Some(_) => Ok((Seq::<u8>::empty(), None)),
                None => Err("Invalid: "@ + t[1]),
            }
        }
    } else if m == ".FILL"@ {
        if nargs != 1 {
            Err(".FILL value"@)
        } else {
            match fill_of(t[1]) {
                Some(v) => Ok((le_word(v), None)),
                None => Err("Invalid value: "@ + t[1]),
            }
        }
    } else if m == ".BLKW"@ {
        if nargs != 1 {
            Err(".BLKW count"@)
        } else {
            match parse_unsigned(t[1], 10, 0xFFFF_FFFF) {
                Some(n) => Ok((Seq::new(2 * n, |i: int| 0u8), None)),
                None => Err("Invalid count: "@ + t[1]),
            }
        }
    } else if m == ".END"@ {
        Ok((Seq::<u8>::empty(), None))
    } else {
        match lc3_insn(m, t) {
            Err(e) => Err(e),
            Ok((w, r)) => Ok((le_word(w), r)),
        }
    }
}

fn reg_tok(tok: &Vec<char>) -> (r: Result<u32, String>)
    ensures
        match r {
            Ok(v) => reg_res(tok@) == Ok::<u32, Seq<char>>(v) && v < 8,
            Err(m) => reg_res(tok@) == Err::<u32, Seq<char>>(m@),
        },
{
    match parse_reg(tok.as_slice()) {
        Some(v) => Ok(v),
        None => Err(msg_with("Invalid reg: ", tok.as_slice())),
    }
}

/// The mnemonic's branch condition bits (n, z, p), if it is a branch.
pub open spec fn branch_bits(m: Seq<char>) -> Option<(u16, u16, u16)> {
    if m == "BR"@ || m == "BRNZP"@ {
        Some((1, 1, 1))
    } else if m == "BRN"@ {
        Some((1, 0, 0))
    } else if m == "BRZ"@ {
        Some((0, 1, 0))
    } else if m == "BRP"@ {
        Some((0, 0, 1))
    } else if m == "BRNZ"@ {
        Some((1, 1, 0))
    } else if m == "BRNP"@ {
        Some((1, 0, 1))
    } else if m == "BRZP"@ {
        Some((0, 1, 1))
    } else {
        None
    }
}

fn branch_of(m: &Vec<char>) -> (r: Option<(u16, u16, u16)>)
    ensures
        r == branch_bits(m@),
{
    if eq_lit(m.as_slice(), "BR") || eq_lit(m.as_slice(), "BRNZP") {
        Some((1, 1, 1))
    } else if eq_lit(m.as_slice(), "BRN") {
        Some((1, 0, 0))
    } else if eq_lit(m.as_slice(), "BRZ") {
        Some((0, 1, 0))
    } else if eq_lit(m.as_slice(), "BRP") {
        Some((0, 0, 1))
    } else if eq_lit(m.as_slice(), "BRNZ") {
        Some((1, 1, 0))
    } else if eq_lit(m.as_slice(), "BRNP") {
        Some((1, 0, 1))
    } else if eq_lit(m.as_slice(), "BRZP") {
        Some((0, 1, 1))
    } else {
        None
    }
}

fn pcrel_of(m: &Vec<char>) -> (r: Option<(u32, &'static str)>)
    ensures
        match r {
            Some((b, s)) => pcrel_op(m@) == Some((b, s@)),
            None => pcrel_op(m@) is None,
        },
{
    let s = m.as_slice();
    if eq_lit(s, "LD") {
        Some((0x2000, "LD DR, label"))
    } else if eq_lit(s, "LDI") {
        Some((0xA000, "LDI DR, label"))
    } else if eq_lit(s, "LEA") {
        Some((0xE000, "LEA DR, label"))
    } else if eq_lit(s, "ST") {
        Some((0x3000, "ST SR, label"))
    } else if eq_lit(s, "STI") {
        Some((0xB000, "STI SR, label"))
    } else {
        None
    }
}

/// A `x`/`0x` hex or decimal value at most `max`.
fn xnum(a: &[char], max: u64) -> (r: Option<u64>)
    requires
        max <= 0xFFFF_FFFF,
    ensures
        match r {
            Some(v) => xnum_of(a@, max as nat) == Some(v as nat) && v <= max,
            None => xnum_of(a@, max as nat) is None,
        },
{
    proof {
        reveal_strlit("0x");
        reveal_strlit("x");
    }
    if starts_with_lit(a, "0x") || starts_with_lit(a, "x") {
        let s1 = strip_leading_chars(a, 'x');
        let s2 = strip_leading_0x_chars(s1.as_slice());
        parse_u_radix(s2.as_slice(), true, max)
    } else {
        parse_u_radix(a, false, max)
    }
}

fn fill_value(a: &[char]) -> (r: Option<u16>)
    ensures
        r == fill_of(a@),
{
    if is_hex_prefixed(a) {
        let s1 = strip_leading_chars(a, 'x');
        let s2 = strip_leading_chars(s1.as_slice(), 'X');
        let s3 = strip_leading_0x_chars(s2.as_slice());
        match parse_u_radix(s3.as_slice(), true, 0xFFFF) {
            Some(v) => Some(v as u16),
            None => None,
        }
    } else {
        match parse_i_radix(a, false, -0x8000_0000, 0x7FFF_FFFF) {
            Some(v) => Some(((v + 0x1_0000_0000) % 0x10000) as u16),
            None => None,
        }
    }
}

pub open spec fn views(v: Seq<Vec<char>>) -> Seq<Seq<char>> {
    Seq::new(v.len(), |k: int| v[k]@)
}

pub open spec fn opt_ref(r: Option<(usize, u8)>) -> Option<(int, u8)> {
    match r {
        Some((k, b)) => Some((k as int, b)),
        None => None,
    }
}

/// The word of one instruction and its label operand, if any.
fn lc3_word(m: &Vec<char>, toks: &Vec<Vec<char>>) -> (r: Result<(u16, Option<(usize, u8)>), String>)
    requires
        toks@.len() >= 1,
    ensures
        match r {
            Ok((w, k)) => lc3_insn(m@, views(toks@)) == Ok::<(u16, Option<(int, u8)>), Seq<char>>((w, opt_ref(k))),
            Err(msg) => lc3_insn(m@, views(toks@)) == Err::<(u16, Option<(int, u8)>), Seq<char>>(msg@),
        },
{
    let ghost t = views(toks@);
    assert(t.len() == toks@.len());
    let s = m.as_slice();
    let nargs = toks.len() - 1;
    if eq_lit(s, "ADD") || eq_lit(s, "AND") {
        let is_add = eq_lit(s, "ADD");
        let base: u32 = if is_add { 0x1000 } else { 0x5000 };
        if nargs != 3 {
            return Err(lit(if is_add { "ADD DR, SR1, SR2 or ADD DR, SR1, #imm5" } else { "AND DR, SR1, SR2 or AND DR, SR1, #imm5" }));
        }
        let dr = match reg_tok(&toks[1]) {
            Ok(v) => v,
            Err(e) => {
                return Err(e);
            },
        };
        let sr1 = match reg_tok(&toks[2]) {
            Ok(v) => v,
            Err(e) => {
                return Err(e);
            },
        };
        match parse_imm(toks[3].as_slice()) {
            Some(imm) => Ok(((base + dr * 512 + sr1 * 64 + 0x20 + ((imm + 0x10000) % 32) as u32) as u16, None)),
            None => match reg_tok(&toks[3]) {
                Err(e) => Err(e),
                Ok(sr2) => Ok(((base + dr * 512 + sr1 * 64 + sr2) as u16, None)),
            },
        }
    } else if eq_lit(s, "NOT") {
        if nargs != 2 {
            return Err(lit("NOT DR, SR"));
        }
        match reg_tok(&toks[1]) {
            Err(e) => Err(e),
            Ok(dr) => match reg_tok(&toks[2]) {
                Err(e) => Err(e),
                Ok(sr) => Ok(((0x903F + dr * 512 + sr * 64) as u16, None)),
            },
        }
    } else if let Some((n, z, p)) = branch_of(m) {
        if nargs != 1 {
            return Err(lit("BR label"));
        }
        Ok((n * 2048 + z * 1024 + p * 512, Some((1usize, 9u8))))
    } else if eq_lit(s, "JMP") || eq_lit(s, "RET") {
        if eq_lit(s, "RET") {
            Ok((0xC1C0, None))
        } else if nargs != 1 {
            Err(lit("JMP BaseR"))
        } else {
            match reg_tok(&toks[1]) {
                Err(e) => Err(e),
                Ok(b) => Ok(((0xC000 + b * 64) as u16, None)),
            }
        }
    } else if eq_lit(s, "JSR") {
        if nargs != 1 {
            return Err(lit("JSR label"));
        }
        Ok((0x4800, Some((1usize, 11u8))))
    } else if eq_lit(s, "JSRR") {
        if nargs != 1 {
            return Err(lit("JSRR BaseR"));
        }
        match reg_tok(&toks[1]) {
            Err(e) => Err(e),
            Ok(b) => Ok(((0x4000 + b * 64) as u16, None)),
        }
    } else if let Some((base, text)) = pcrel_of(m) {
        if nargs != 2 {
            return Err(lit(text));
        }
        match reg_tok(&toks[1]) {
            Err(e) => Err(e),
            Ok(r) => Ok(((base + r * 512) as u16, Some((2usize, 9u8)))),
        }
    } else if eq_lit(s, "LDR") || eq_lit(s, "STR") {
        let is_ldr = eq_lit(s, "LDR");
        let base: u32 = if is_ldr { 0x6000 } else { 0x7000 };
        if nargs != 3 {
            return Err(lit(if is_ldr { "LDR DR, BaseR, #offset6" } else { "STR SR, BaseR, #offset6" }));
        }
        match reg_tok(&toks[1]) {
            Err(e) => Err(e),
            Ok(r) => match reg_tok(&toks[2]) {
                Err(e) => Err(e),
                Ok(b) => match parse_imm(toks[3].as_slice()) {
                    None => Err(msg_with("Invalid offset: ", toks[3].as_slice())),
                    Some(off) => Ok(((base + r * 512 + b * 64 + ((off + 0x10000) % 64) as u32) as u16, None)),
                },
            },
        }
    } else if eq_lit(s, "TRAP") {
        if nargs != 1 {
            return Err(lit("TRAP trapvect8"));
        }
        match xnum(toks[1].as_slice(), 0xFFFF) {
            Some(x) => Ok(((0xF000 + x % 256) as u16, None)),
            None => Err(msg_with("Invalid: ", toks[1].as_slice())),
        }
    } else if eq_lit(s, "HALT") {
        Ok((0xF025, None))
    } else if eq_lit(s, "NOP") {
        Ok((0x0000, None))
    } else {
        Err(Text::new().s("Unknown instruction: ").all(s).s(" (labels need a colon, e.g. _start:)").done())
    }
}

/// Encodes one line; returns the number of words emitted.
#[verifier::spinoff_prover]
#[verifier::rlimit(40)]
fn parse_lc3_instruction(
    line: &[char],
    line_num: u32,
    col: u32,
    pc: u32,
    bytes: &mut Vec<u8>,
    source_map: &mut Vec<SourceMapEntry>,
    pending: &mut Vec<PendingRef>,
) -> (r: Result<u32, AssemblerError>)
    requires
        refs_fit(old(pending)@, old(bytes)@.len()),
    ensures
        ({
            let t = tokens(line@);
            if t.len() == 0 {
                &&& r == Ok::<u32, AssemblerError>(0)
                &&& final(bytes)@ == old(bytes)@
                &&& final(source_map)@ == old(source_map)@
                &&& final(pending)@ == old(pending)@
            } else {
                &&& final(source_map)@ == old(source_map)@.push(SourceMapEntry { pc, line: line_num, column: col })
                &&& match lc3_encode(upper_seq(t[0]), t) {
                    Ok((bs, k)) => {
                        &&& r matches Ok(words) && bs.len() == 2 * words
                        &&& final(bytes)@ == old(bytes)@ + bs
                        &&& final(pending)@.len() == old(pending)@.len() + (if k is Some { 1int } else { 0int })
                        &&& forall|i: int| 0 <= i < old(pending)@.len() ==> #[trigger] final(pending)@[i] == old(pending)@[i]
                        &&& k matches Some((ki, bits)) ==> {
                            let p = final(pending)@.last();
                            &&& p.offset == old(bytes)@.len()
                            &&& p.pc == pc
                            &&& p.label@ == t[ki]
                            &&& p.line == line_num
                            &&& p.bits == bits
                        }
                    },
                    Err(msg) => {
                        &&& r matches Err(e) && e.line == line_num && e.column == col && e.message@ == msg
                        &&& final(bytes)@ == old(bytes)@
                        &&& final(pending)@ == old(pending)@
                    },
                }
            }
        }),
        refs_fit(final(pending)@, final(bytes)@.len()),
        final(bytes)@.len() >= old(bytes)@.len(),
        (r matches Ok(w) ==> final(bytes)@.len() == old(bytes)@.len() + 2 * w),
{
    let toks = split_ws(line);
    if toks.len() == 0 {
        return Ok(0);
    }
    proof {
        assert(views(toks@) =~= tokens(line@));
    }
    map_source(source_map, pc, line_num, col);
    let mnemonic = to_upper(toks[0].as_slice());
    let nargs = toks.len() - 1;
    let ghost b0 = bytes@;
    let ghost p0 = pending@;
    if eq_lit(mnemonic.as_slice(), ".ORIG") {
        if nargs != 1 {
            return Err(asm_error(line_num, col, lit(".ORIG x3000")));
        }
        return match xnum(toks[1].as_slice(), 0xFFFF_FFFF) {
            Some(_) => Ok(0),
            None => Err(asm_error(line_num, col, msg_with("Invalid: ", toks[1].as_slice()))),
        };
    } else if eq_lit(mnemonic.as_slice(), ".FILL") {
        if nargs != 1 {
            return Err(asm_error(line_num, col, lit(".FILL value")));
        }
        return match fill_value(toks[1].as_slice()) {
            Some(v) => {
                emit16(bytes, v);
                Ok(1)
            },
            None => Err(asm_error(line_num, col, msg_with("Invalid value: ", toks[1].as_slice()))),
        };
    } else if eq_lit(mnemonic.as_slice(), ".BLKW") {
        if nargs != 1 {
            return Err(asm_error(line_num, col, lit(".BLKW count")));
        }
        let n = match parse_u_radix(toks[1].as_slice(), false, 0xFFFF_FFFF) {
            Some(v) => v as u32,
            None => {
                return Err(asm_error(line_num, col, msg_with("Invalid count: ", toks[1].as_slice())));
            },
        };
        let mut k: u32 = 0;
        while k < n
            invariant
                k <= n,
                bytes@ == b0 + Seq::new(2 * (k as nat), |i: int| 0u8),
                refs_fit(pending@, b0.len()),
            decreases n - k,
        {
            emit16(bytes, 0);
            assert(b0 + Seq::new(2 * ((k + 1) as nat), |i: int| 0u8) =~= b0 + Seq::new(2 * (k as nat), |i: int| 0u8) + seq![0u8, 0u8]);
            k = k + 1;
        }
        return Ok(n);
    } else if eq_lit(mnemonic.as_slice(), ".END") {
        return Ok(0);
    }
    match lc3_word(&mnemonic, &toks) {
        Err(msg) => Err(asm_error(line_num, col, msg)),
        Ok((w, label)) => {
            let pos = emit16(bytes, w);
            match label {
                Some((ki, bits)) => {
                    pending.push(PendingRef { offset: pos, pc, label: toks[ki].clone(), line: line_num, bits });
                },
                None => {},
            }
            proof {
                assert forall|i: int| 0 <= i < pending@.len() implies (#[trigger] pending@[i]).offset + 2 <= bytes@.len() by {
                    if i < p0.len() {
                        assert(pending@[i] == p0[i]);
                    }
                }
            }
            Ok(1)
        },
    }
}

/// A pending reference seen as offset, address, label, line and field width.
pub type Lc3Ref = (int, u32, Seq<char>, u32, u8);

pub open spec fn lc3_ref_view(p: PendingRef) -> Lc3Ref {
    (p.offset as int, p.pc, p.label@, p.line, p.bits)
}

pub open spec fn lc3_refs_view(ps: Seq<PendingRef>) -> Seq<Lc3Ref> {
    ps.map_values(|p: PendingRef| lc3_ref_view(p))
}

/// The first pass before any line: origin x3000.
pub open spec fn lc3_init() -> Scan<Lc3Ref> {
    Scan {
        bytes: Seq::empty(),
        smap: Seq::empty(),
        errors: Seq::empty(),
        labels: Map::empty(),
        refs: Seq::empty(),
        start: 0x3000,
        pc: 0x3000,
        ended: false,
    }
}

/// One instruction or directive (the text after any label) at the current address.
#[verifier::opaque]
pub open spec fn lc3_instr(st: Scan<Lc3Ref>, body: Seq<char>, ln: u32) -> Scan<Lc3Ref> {
    let t = tokens(body);
    if t.len() == 0 {
        st
    } else {
        let smap = st.smap.push(SourceMapEntry { pc: st.pc, line: ln, column: 1 });
        match lc3_encode(upper_seq(t[0]), t) {
            Ok((bs, k)) => Scan {
                bytes: st.bytes + bs,
                smap,
                refs: match k {
                    Some((ki, bits)) => st.refs.push((st.bytes.len() as int, st.pc, t[ki], ln, bits)),
                    None => st.refs,
                },
                pc: ((st.pc + bs.len()) % 0x1_0000_0000) as u32,
                ..st
            },
            Err(msg) => Scan { smap, errors: st.errors.push((ln, 1u32, msg)), ..st },
        }
    }
}

/// One source line (index `i`) of the first pass.
pub open spec fn lc3_line(st: Scan<Lc3Ref>, i: int, raw: Seq<char>) -> Scan<Lc3Ref> {
    let line = code_of(raw, ';');
    let up = upper_seq(line);
    if st.ended || line.len() == 0 {
        st
    } else if starts_with(up, ".ORIG"@) {
        let parts = tokens(line);
        if parts.len() >= 2 && addr_of(parts[1]) is Some {
            let v = (addr_of(parts[1]).unwrap() % 0x10000) as u32;
            Scan { start: v, pc: v, ..st }
        } else {
            st
        }
    } else if trim(up) == ".END"@ {
        Scan { ended: true, ..st }
    } else {
        let st1 = match line_label(line) {
            Some(l) => Scan { labels: st.labels.insert(l, st.pc), ..st },
            None => st,
        };
        let body = line_rest(line);
        if body.len() == 0 {
            st1
        } else {
            lc3_instr(st1, body, line_number(i))
        }
    }
}

/// The first pass over the first `n` lines.
pub open spec fn lc3_scan(lines: Seq<Seq<char>>, n: nat) -> Scan<Lc3Ref>
    decreases n,
{
    if n == 0 || n > lines.len() {
        lc3_init()
    } else {
        lc3_line(lc3_scan(lines, (n - 1) as nat), n - 1, lines[n - 1])
    }
}

proof fn lemma_lc3_ended(lines: Seq<Seq<char>>, n: nat, m: nat)
    requires
        0 < n <= m <= lines.len(),
        lc3_scan(lines, n).ended,
    ensures
        lc3_scan(lines, m) == lc3_scan(lines, n),
    decreases m - n,
{
    if m > n {
        lemma_lc3_ended(lines, n, (m - 1) as nat);
    }
}

/// The signed distance in words from the address after the instruction to `target`.
pub open spec fn lc3_words_to(target: u32, pc: u32) -> int {
    let d = target - (pc + 2) % 0x10000;
    if d >= 0 { d / 2 } else { -((-d) / 2) }
}

/// The second pass for one reference: the instruction gets its offset field,
/// or an error is recorded.
pub open spec fn lc3_patch(b: Seq<u8>, es: Seq<(u32, u32, Seq<char>)>, labels: Map<Seq<char>, u32>, r: Lc3Ref) -> (
    Seq<u8>,
    Seq<(u32, u32, Seq<char>)>,
) {
    let (off, pc, label, line, bits) = r;
    if labels.contains_key(label) {
        let dw = lc3_words_to(labels[label], pc);
        let insn = le16(b, off);
        if bits == 9 {
            if dw < -256 || dw > 255 {
                (put16(b, off, insn as u16), es.push((line, 1u32, "Label '"@ + label + "' out of range for PCoffset9"@)))
            } else {
                (put16(b, off, ((insn - insn % 512) + (dw + 0x10000) % 512) as u16), es)
            }
        } else if bits == 11 {
            if dw < -1024 || dw > 1023 {
                (put16(b, off, insn as u16), es.push((line, 1u32, "Label '"@ + label + "' out of range for PCoffset11"@)))
            } else {
                (put16(b, off, ((insn - insn % 2048) + (dw + 0x10000) % 2048) as u16), es)
            }
        } else {
            (put16(b, off, insn as u16), es)
        }
    } else {
        (b, es.push((line, 1u32, "Unknown label: "@ + label)))
    }
}

/// The second pass over a list of references, in order.
pub open spec fn lc3_patch_all(b: Seq<u8>, es: Seq<(u32, u32, Seq<char>)>, labels: Map<Seq<char>, u32>, refs: Seq<Lc3Ref>) -> (
    Seq<u8>,
    Seq<(u32, u32, Seq<char>)>,
)
    decreases refs.len(),
{
    if refs.len() == 0 {
        (b, es)
    } else {
        let (b1, e1) = lc3_patch_all(b, es, labels, refs.drop_last());
        lc3_patch(b1, e1, labels, refs.last())
    }
}

/// Resolves one pending label reference into its instruction.
fn patch(bytes: &mut Vec<u8>, errors: &mut Vec<AssemblerError>, labels: &LabelTable, p: &PendingRef)
    requires
        p.offset + 2 <= old(bytes)@.len(),
        labels.wf(),
    ensures
        (final(bytes)@, errs_view(final(errors)@)) == lc3_patch(old(bytes)@, errs_view(old(errors)@), labels.view(), lc3_ref_view(*p)),
        final(bytes)@.len() == old(bytes)@.len(),
{
    match labels.get(p.label.as_slice()) {
        Some(target) => {
            let base = (p.pc as u64 + 2) % 0x10000;
            let diff_bytes: i64 = target as i64 - base as i64;
            let diff_words: i64 = if diff_bytes >= 0 { diff_bytes / 2 } else { -((-diff_bytes) / 2) };
            let insn = read_word16(bytes, p.offset);
            let patched: u16 = if p.bits == 9 {
                if diff_words < -256 || diff_words > 255 {
                    let m = Text::new().s("Label '").all(p.label.as_slice()).s("' out of range for PCoffset9").done();
                    let e = asm_error(p.line, 1, m);
                    proof { lemma_errs_push(errors@, e); }
                    errors.push(e);
                    insn
                } else {
                    (insn - insn % 512) + ((diff_words + 0x10000) % 512) as u16
                }
            } else if p.bits == 11 {
                if diff_words < -1024 || diff_words > 1023 {
                    let m = Text::new().s("Label '").all(p.label.as_slice()).s("' out of range for PCoffset11").done();
                    let e = asm_error(p.line, 1, m);
                    proof { lemma_errs_push(errors@, e); }
                    errors.push(e);
                    insn
                } else {
                    (insn - insn % 2048) + ((diff_words + 0x10000) % 2048) as u16
                }
            } else {
                insn
            };
            write_word16(bytes, p.offset, patched);
        },
        None => {
            let e = asm_error(p.line, 1, msg_with("Unknown label: ", p.label.as_slice()));
            proof { lemma_errs_push(errors@, e); }
            errors.push(e);
        },
    }
}

/// The first-pass state that the assembler's working values stand for.
pub open spec fn lc3_scan_of(
    bytes: Seq<u8>,
    smap: Seq<SourceMapEntry>,
    errors: Seq<AssemblerError>,
    labels: Map<Seq<char>, u32>,
    refs: Seq<PendingRef>,
    start: u32,
    pc: u32,
    ended: bool,
) -> Scan<Lc3Ref> {
    Scan { bytes, smap, errors: errs_view(errors), labels, refs: lc3_refs_view(refs), start, pc, ended }
}

/// The first pass over one source line; returns whether it was `.END`.
#[verifier::spinoff_prover]
fn scan_line(
    raw: &[char],
    li: usize,
    bytes: &mut Vec<u8>,
    source_map: &mut Vec<SourceMapEntry>,
    errors: &mut Vec<AssemblerError>,
    labels: &mut LabelTable,
    pending: &mut Vec<PendingRef>,
    start_pc: &mut u32,
    pc: &mut u32,
) -> (ended: bool)
    requires
        old(labels).wf(),
        refs_fit(old(pending)@, old(bytes)@.len()),
        li < usize::MAX,
    ensures
        final(labels).wf(),
        refs_fit(final(pending)@, final(bytes)@.len()),
        lc3_scan_of(final(bytes)@, final(source_map)@, final(errors)@, final(labels).view(), final(pending)@, *final(start_pc), *final(pc), ended)
            == lc3_line(
            lc3_scan_of(old(bytes)@, old(source_map)@, old(errors)@, old(labels).view(), old(pending)@, *old(start_pc), *old(pc), false),
            li as int,
            raw@,
        ),
{
    let line_num: u32 = ((li as u64 + 1) % 0x1_0000_0000) as u32;
    let line = code_part(raw, ';');
    if line.len() == 0 {
        return false;
    }
    let up = to_upper(line.as_slice());
    if starts_with_lit(up.as_slice(), ".ORIG") {
        let parts = split_ws(line.as_slice());
        if parts.len() >= 2 {
            match parse_hex_or_dec(parts[1].as_slice()) {
                Some(v) => {
                    *start_pc = (v % 0x10000) as u32;
                    *pc = *start_pc;
                },
                None => {},
            }
        }
        return false;
    }
    let upt = trim_chars(up.as_slice());
    if eq_lit(upt.as_slice(), ".END") {
        return true;
    }
    let (label, body) = split_label(&line);
    match label {
        Some(l) => {
            labels.insert(l, *pc);
        },
        None => {},
    }
    if body.len() == 0 {
        return false;
    }
    let ghost st1 = lc3_scan_of(bytes@, source_map@, errors@, labels.view(), pending@, *start_pc, *pc, false);
    scan_instr(body.as_slice(), line_num, bytes, source_map, errors, pending, pc, Ghost(st1));
    false
}

/// One instruction or directive of the first pass at `pc`, which moves on by
/// the words it took.
fn scan_instr(
    body: &[char],
    line_num: u32,
    bytes: &mut Vec<u8>,
    source_map: &mut Vec<SourceMapEntry>,
    errors: &mut Vec<AssemblerError>,
    pending: &mut Vec<PendingRef>,
    pc: &mut u32,
    Ghost(st): Ghost<Scan<Lc3Ref>>,
)
    requires
        refs_fit(old(pending)@, old(bytes)@.len()),
        st.bytes == old(bytes)@,
        st.smap == old(source_map)@,
        st.errors == errs_view(old(errors)@),
        st.refs == lc3_refs_view(old(pending)@),
        st.pc == *old(pc),
    ensures
        refs_fit(final(pending)@, final(bytes)@.len()),
        ({
            let st2 = lc3_instr(st, body@, line_num);
            &&& final(bytes)@ == st2.bytes
            &&& final(source_map)@ == st2.smap
            &&& errs_view(final(errors)@) == st2.errors
            &&& lc3_refs_view(final(pending)@) == st2.refs
            &&& *final(pc) == st2.pc
            &&& st2.labels == st.labels
            &&& st2.start == st.start
            &&& st2.ended == st.ended
        }),
{
    reveal(lc3_instr);
    match parse_lc3_instruction(body, line_num, 1, *pc, bytes, source_map, pending) {
        Ok(words) => {
            *pc = ((*pc as u64 + (words as u64) * 2) % 0x1_0000_0000) as u32;
            proof {
                assert(lc3_refs_view(pending@) =~= lc3_instr(st, body@, line_num).refs);
            }
        },
        Err(e) => {
            proof {
                lemma_errs_push(errors@, e);
            }
            errors.push(e);
        },
    }
}


/// What assembling LC-3 source gives.
pub open spec fn lc3_image(source: Seq<char>) -> ImageView {
    let lines = lines_spec(source);
    let sc = lc3_scan(lines, lines.len());
    let fin = lc3_patch_all(sc.bytes, sc.errors, sc.labels, sc.refs);
    (fin.0, sc.smap, fin.1, if sc.labels.contains_key("_start"@) { sc.labels["_start"@] } else { sc.start })
}

impl Lc3Plugin {
    /// Assembles LC-3 source text into a program image: a first pass over
    /// the lines (up to `.END`), then each label operand patched in order;
    /// the entry point is `_start` when defined, else the origin.
    #[verifier::spinoff_prover]
    pub fn assemble(&self, source: &str) -> (img: ProgramImage)
        ensures
            image_view(img) == lc3_image(source@),
    {
        let src = chars_of(source);
        let lines = split_lines(src.as_slice());
        let ghost ls = lines_spec(source@);
        let mut bytes: Vec<u8> = Vec::new();
        let mut source_map: Vec<SourceMapEntry> = Vec::new();
        let mut errors: Vec<AssemblerError> = Vec::new();
        let mut labels = LabelTable::new();
        let mut pending: Vec<PendingRef> = Vec::new();
        let mut start_pc: u32 = 0x3000;
        let mut pc: u32 = 0x3000;
        let mut li: usize = 0;
        proof {
            assert(errs_view(errors@) =~= Seq::empty());
            assert(lc3_refs_view(pending@) =~= Seq::empty());
        }
        while li < lines.len()
            invariant_except_break
                !lc3_scan(ls, li as nat).ended,
            invariant
                labels.wf(),
                refs_fit(pending@, bytes@.len()),
                li <= lines@.len(),
                lines@.len() == ls.len(),
                forall|k: int| 0 <= k < lines@.len() ==> #[trigger] lines@[k]@ == ls[k],
                lc3_scan(ls, li as nat) == lc3_scan_of(bytes@, source_map@, errors@, labels.view(), pending@, start_pc, pc, lc3_scan(ls, li as nat).ended),
            ensures
                li <= ls.len(),
                li == ls.len() || (0 < li && lc3_scan(ls, li as nat).ended),
            decreases lines@.len() - li,
        {
            let ended = scan_line(lines[li].as_slice(), li, &mut bytes, &mut source_map, &mut errors, &mut labels, &mut pending, &mut start_pc, &mut pc);
            li = li + 1;
            if ended {
                break;
            }
        }
        proof {
            if li < ls.len() {
                lemma_lc3_ended(ls, li as nat, ls.len());
            }
        }
        let ghost sc = lc3_scan(ls, ls.len());
        let ghost refs = sc.refs;
        let mut k: usize = 0;
        proof {
            assert(refs.subrange(0, 0) =~= Seq::<Lc3Ref>::empty());
        }
        while k < pending.len()
            invariant
                labels.wf(),
                labels.view() == sc.labels,
                refs_fit(pending@, bytes@.len()),
                k <= pending@.len(),
                refs == lc3_refs_view(pending@),
                (bytes@, errs_view(errors@)) == lc3_patch_all(sc.bytes, sc.errors, sc.labels, refs.subrange(0, k as int)),
            decreases pending@.len() - k,
        {
            patch(&mut bytes, &mut errors, &labels, &pending[k]);
            proof {
                assert(refs.subrange(0, k + 1).drop_last() =~= refs.subrange(0, k as int));
                assert(refs.subrange(0, k + 1).last() == lc3_ref_view(pending@[k as int]));
            }
            k = k + 1;
        }
        proof {
            assert(refs.subrange(0, refs.len() as int) =~= refs);
        }
        let start_name = chars_of("_start");
        let entry_pc = match labels.get(start_name.as_slice()) {
            Some(a) => a,
            None => start_pc,
        };
        ProgramImage { bytes, entry_pc, source_map, errors }
    }

    /// Register names for display: R0-R7 and the PSR.
    pub fn register_schema(&self) -> (s: RegisterSchema)
        ensures
            s.pc_name@ == "PC"@,
            s.reg_names@.len() == 9,
            forall|i: int| 0 <= i < 8 ==> (#[trigger] s.reg_names@[i])@ == seq!['R', crate::text::digit_char(i as nat)],
            s.reg_names@[8]@ == "PSR (NZP)"@,
    {
        let mut names: Vec<String> = Vec::new();
        let mut i: u64 = 0;
        while i < 8
            invariant
                i <= 8,
                names@.len() == i,
                forall|k: int| 0 <= k < i ==> (#[trigger] names@[k])@ == seq!['R', crate::text::digit_char(k as nat)],
            decreases 8 - i,
        {
            let t = Text::new().s("R").dec(i);
            proof {
                reveal_strlit("R");
                assert(crate::text::dec_text(i as nat) =~= seq![crate::text::digit_char(i as nat)]);
            }
            names.push(t.done());
            i = i + 1;
        }
        names.push(lit("PSR (NZP)"));
        RegisterSchema { pc_name: lit("PC"), reg_names: names }
    }
}

/// The condition bits of the branch mnemonics.
proof fn lemma_branch_names()
    ensures
        branch_bits("BR"@) == Some((1u16, 1u16, 1u16)),
        branch_bits("BRN"@) == Some((1u16, 0u16, 0u16)),
        branch_bits("BRZ"@) == Some((0u16, 1u16, 0u16)),
        branch_bits("BRP"@) == Some((0u16, 0u16, 1u16)),
        branch_bits("BRNZ"@) == Some((1u16, 1u16, 0u16)),
        branch_bits("BRNP"@) == Some((1u16, 0u16, 1u16)),
        branch_bits("BRZP"@) == Some((0u16, 1u16, 1u16)),
        branch_bits("BRNZP"@) == Some((1u16, 1u16, 1u16)),
        "BR"@ != "ADD"@ && "BR"@ != "AND"@ && "BR"@ != "NOT"@,
        "BRN"@ != "ADD"@ && "BRN"@ != "AND"@ && "BRN"@ != "NOT"@,
        "BRZ"@ != "ADD"@ && "BRZ"@ != "AND"@ && "BRZ"@ != "NOT"@,
        "BRP"@ != "ADD"@ && "BRP"@ != "AND"@ && "BRP"@ != "NOT"@,
        "BRNZ"@ != "ADD"@ && "BRNZ"@ != "AND"@ && "BRNZ"@ != "NOT"@,
        "BRNP"@ != "ADD"@ && "BRNP"@ != "AND"@ && "BRNP"@ != "NOT"@,
        "BRZP"@ != "ADD"@ && "BRZP"@ != "AND"@ && "BRZP"@ != "NOT"@,
        "BRNZP"@ != "ADD"@ && "BRNZP"@ != "AND"@ && "BRNZP"@ != "NOT"@,
{
    reveal_strlit("ADD");
    reveal_strlit("AND");
    reveal_strlit("NOT");
    reveal_strlit("BR");
    reveal_strlit("BRN");
    reveal_strlit("BRZ");
    reveal_strlit("BRP");
    reveal_strlit("BRNZ");
    reveal_strlit("BRNP");
    reveal_strlit("BRZP");
    reveal_strlit("BRNZP");
    assert("ADD"@[1] != "AND"@[1]);
    assert("ADD"@[0] != "NOT"@[0]);
    assert("ADD"@.len() != "BR"@.len());
    assert("ADD"@[0] != "BRN"@[0]);
    assert("ADD"@[0] != "BRZ"@[0]);
    assert("ADD"@[0] != "BRP"@[0]);
    assert("ADD"@.len() != "BRNZ"@.len());
    assert("ADD"@.len() != "BRNP"@.len());
    assert("ADD"@.len() != "BRZP"@.len());
    assert("ADD"@.len() != "BRNZP"@.len());
    assert("AND"@[0] != "NOT"@[0]);
    assert("AND"@.len() != "BR"@.len());
    assert("AND"@[0] != "BRN"@[0]);
    assert("AND"@[0] != "BRZ"@[0]);
    assert("AND"@[0] != "BRP"@[0]);
    assert("AND"@.len() != "BRNZ"@.len());
    assert("AND"@.len() != "BRNP"@.len());
    assert("AND"@.len() != "BRZP"@.len());
    assert("AND"@.len() != "BRNZP"@.len());
    assert("NOT"@.len() != "BR"@.len());
    assert("NOT"@[0] != "BRN"@[0]);
    assert("NOT"@[0] != "BRZ"@[0]);
    assert("NOT"@[0] != "BRP"@[0]);
    assert("NOT"@.len() != "BRNZ"@.len());
    assert("NOT"@.len() != "BRNP"@.len());
    assert("NOT"@.len() != "BRZP"@.len());
    assert("NOT"@.len() != "BRNZP"@.len());
    assert("BR"@.len() != "BRN"@.len());
    assert("BR"@.len() != "BRZ"@.len());
    assert("BR"@.len() != "BRP"@.len());
    assert("BR"@.len() != "BRNZ"@.len());
    assert("BR"@.len() != "BRNP"@.len());
    assert("BR"@.len() != "BRZP"@.len());
    assert("BR"@.len() != "BRNZP"@.len());
    assert("BRN"@[2] != "BRZ"@[2]);
    assert("BRN"@[2] != "BRP"@[2]);
    assert("BRN"@.len() != "BRNZ"@.len());
    assert("BRN"@.len() != "BRNP"@.len());
    assert("BRN"@.len() != "BRZP"@.len());
    assert("BRN"@.len() != "BRNZP"@.len());
    assert("BRZ"@[2] != "BRP"@[2]);
    assert("BRZ"@.len() != "BRNZ"@.len());
    assert("BRZ"@.len() != "BRNP"@.len());
    assert("BRZ"@.len() != "BRZP"@.len());
    assert("BRZ"@.len() != "BRNZP"@.len());
    assert("BRP"@.len() != "BRNZ"@.len());
    assert("BRP"@.len() != "BRNP"@.len());
    assert("BRP"@.len() != "BRZP"@.len());
    assert("BRP"@.len() != "BRNZP"@.len());
    assert("BRNZ"@[3] != "BRNP"@[3]);
    assert("BRNZ"@[2] != "BRZP"@[2]);
    assert("BRNZ"@.len() != "BRNZP"@.len());
    assert("BRNP"@[2] != "BRZP"@[2]);
    assert("BRNP"@.len() != "BRNZP"@.len());
    assert("BRZP"@.len() != "BRNZP"@.len());
}

/// Assembling a branch `BR`, `BRn`, `BRz`, `BRp`, `BRnz`, `BRnp`, `BRzp` or
/// `BRnzp` (upper case) with its label gives a word with opcode 0 and a
/// zero offset field, to be patched from the label (the operand at index 1,
/// nine bits). Bit 11 (branch on negative) is set exactly when the
/// mnemonic names n or is plain BR, bit 10 (zero) when it names z or is
/// BR, bit 9 (positive) when it names p or is BR.
pub proof fn lemma_branch_mnemonics(m: Seq<char>, t: Seq<Seq<char>>)
    requires
        t.len() == 2,
        m == "BR"@ || m == "BRN"@ || m == "BRZ"@ || m == "BRP"@ || m == "BRNZ"@ || m == "BRNP"@ || m == "BRZP"@
            || m == "BRNZP"@,
    ensures
        match lc3_insn(m, t) {
            Ok((w, label)) => {
                &&& label == Some((1int, 9u8))
                &&& w / 4096 == 0
                &&& w % 512 == 0
                &&& ((w / 2048) % 2 == 1 <==> (m == "BR"@ || m == "BRN"@ || m == "BRNZ"@ || m == "BRNP"@ || m == "BRNZP"@))
                &&& ((w / 1024) % 2 == 1 <==> (m == "BR"@ || m == "BRZ"@ || m == "BRNZ"@ || m == "BRZP"@ || m == "BRNZP"@))
                &&& ((w / 512) % 2 == 1 <==> (m == "BR"@ || m == "BRP"@ || m == "BRNP"@ || m == "BRZP"@ || m == "BRNZP"@))
            },
            Err(_) => false,
        },
{
    lemma_branch_names();
    let (n, z, p) = branch_bits(m)->0;
    assert(n <= 1 && z <= 1 && p <= 1);
    let w = (n * 2048 + z * 1024 + p * 512) as u16;
    assert(w == n * 2048 + z * 1024 + p * 512);
    assert(lc3_insn(m, t) == Ok::<(u16, Option<(int, u8)>), Seq<char>>((w, Some((1int, 9u8)))));
}

/// Assembling `ADD` or `AND DR, SR1, SR2` gives the word 0x1000, resp.
/// 0x5000 (opcode 1 or 5: the simulator's add and bitwise and) plus DR
/// times 512 (bits 11-9), SR1 times 64 (bits 8-6) and SR2 (bits 2-0);
/// with an immediate third operand, 0x20 (bit 5) plus the immediate's low
/// five bits in two's complement instead of SR2. `NOT DR, SR` gives 0x9000
/// (opcode 9, bitwise complement) plus DR and SR so placed plus 63 (the low
/// six bits set).
#[verifier::rlimit(40)]
pub proof fn lemma_operate_mnemonics(m: Seq<char>, t: Seq<Seq<char>>)
    requires
        m == "ADD"@ || m == "AND"@ || m == "NOT"@,
        t.len() == (if m == "NOT"@ { 3int } else { 4int }),
        reg_of(t[1]) is Some,
        reg_of(t[2]) is Some,
        m != "NOT"@ ==> (imm_of(t[3]) is Some || reg_of(t[3]) is Some),
    ensures
        ({
            let dr = reg_of(t[1])->0;
            let sr1 = reg_of(t[2])->0;
            let base: int = if m == "ADD"@ { 0x1000 } else if m == "AND"@ { 0x5000 } else { 0x9000 };
            let low: int = if m == "NOT"@ {
                63
            } else if imm_of(t[3]) is Some {
                0x20 + (imm_of(t[3])->0 + 0x10000) % 32
            } else {
                reg_of(t[3])->0 as int
            };
            &&& dr < 8
            &&& sr1 < 8
            &&& 0 <= low < 64
            &&& lc3_insn(m, t) == Ok::<(u16, Option<(int, u8)>), Seq<char>>(((base + dr * 512 + sr1 * 64 + low) as u16, None))
        }),
{
    reveal_strlit("ADD");
    reveal_strlit("AND");
    reveal_strlit("NOT");
    assert("ADD"@[1] != "AND"@[1]);
    assert("ADD"@[0] != "NOT"@[0]);
    assert("AND"@[0] != "NOT"@[0]);
    if m != "NOT"@ && imm_of(t[3]) is None {
        assert(reg_of(t[3])->0 < 8);
    }
}

} // verus!

//! MIPS assembler: one instruction per line, `label:` prefixes, `#`
//! comments; branch and jump operands are labels.
use vstd::prelude::*;
use crate::plugin::{AssemblerError, SourceMapEntry, ProgramImage};
use crate::text::{
    chars_of, split_lines, split_ws, to_lower, trim_chars, find, slice_vec, eq_lit, lower_seq, trim,
    strip_trailing, strip_trailing_chars, parse_unsigned, parse_signed, parse_uint, parse_int, tokens, find_char, wrap32,
    lines_spec, before_char,
};
use crate::asmutil::{asm_error, msg_with, read_word32, write_word32};
use crate::labels::LabelTable;
use crate::scan::{ImageView, image_view, Scan, errs_view, lemma_errs_push, line_label, line_rest, line_number, split_label, le32, put32};
use crate::fmt::{Text, lit};
use crate::mips::MipsPlugin;

verus! {

/// A numbered register name after a letter: `$a0`..`$a3`, `$t0`..`$t9`, `$s0`..`$s8`.
pub open spec fn numbered(rest: Seq<char>) -> Option<nat> {
    parse_unsigned(rest.drop_first(), 10, 0xFFFF_FFFF)
}

/// A register operand: `$` and a name or number, or `zero`; trimmed,
/// trailing commas dropped, any case.
pub open spec fn mips_reg_of(name: Seq<char>) -> Option<u32> {
    let n = lower_seq(strip_trailing(trim(name), ','));
    if n.len() > 0 && n[0] == '$' {
        let rest = n.drop_first();
        if rest == "zero"@ {
            Some(0)
        } else if rest == "at"@ {
            Some(1)
        } else if rest == "v0"@ {
            Some(2)
        } else if rest == "v1"@ {
            Some(3)
        } else if rest.len() > 0 && rest[0] == 'a' && numbered(rest) is None {
            None
        } else if rest.len() > 0 && rest[0] == 'a' && numbered(rest).unwrap() <= 3 {
            Some((4 + numbered(rest).unwrap()) as u32)
        } else if rest.len() > 0 && rest[0] == 't' && numbered(rest) is None {
            None
        } else if rest.len() > 0 && rest[0] == 't' && numbered(rest).unwrap() <= 7 {
            Some((8 + numbered(rest).unwrap()) as u32)
        } else if rest.len() > 0 && rest[0] == 't' && numbered(rest).unwrap() <= 9 {
            Some((24 + numbered(rest).unwrap() - 8) as u32)
        } else if rest == "k0"@ {
            Some(26)
        } else if rest == "k1"@ {
            Some(27)
        } else if rest == "gp"@ {
            Some(28)
        } else if rest == "sp"@ {
            Some(29)
        } else if rest == "fp"@ || rest == "s8"@ {
            Some(30)
        } else if rest == "ra"@ {
            Some(31)
        } else if rest.len() > 0 && rest[0] == 's' && numbered(rest) is None {
            None
        } else if rest.len() > 0 && rest[0] == 's' && numbered(rest).unwrap() <= 7 {
            Some((16 + numbered(rest).unwrap()) as u32)
        } else if rest.len() > 0 && rest[0] == 's' && numbered(rest).unwrap() == 8 {
            Some(30)
        } else {
            match parse_unsigned(rest, 10, 0xFFFF_FFFF) {
                Some(v) => if v < 32 { Some(v as u32) } else { None },
                None => None,
            }
        }
    } else if n == "zero"@ {
        Some(0)
    } else {
        None
    }
}

pub fn parse_mips_reg(name: &[char]) -> (r: Option<u32>)
    ensures
        r == mips_reg_of(name@),
        r matches Some(v) ==> v < 32,
{
    let t = trim_chars(name);
    let t2 = strip_trailing_chars(t.as_slice(), ',');
    let n = to_lower(t2.as_slice());
    if n.len() > 0 && n[0] == '$' {
        let rest = slice_vec(n.as_slice(), 1, n.len());
        assert(rest@ =~= n@.drop_first());
        let r = rest.as_slice();
        let num: Option<u64> = if rest.len() > 0 {
            let d = slice_vec(r, 1, rest.len());
            assert(d@ =~= rest@.drop_first());
            parse_uint(d.as_slice(), 10, 0xFFFF_FFFF)
        } else {
            None
        };
        if eq_lit(r, "zero") {
            Some(0)
        } else if eq_lit(r, "at") {
            Some(1)
        } else if eq_lit(r, "v0") {
            Some(2)
        } else if eq_lit(r, "v1") {
            Some(3)
        } else if rest.len() > 0 && r[0] == 'a' && num.is_none() {
            None
        } else if rest.len() > 0 && r[0] == 'a' && num.unwrap() <= 3 {
            Some((4 + num.unwrap()) as u32)
        } else if rest.len() > 0 && r[0] == 't' && num.is_none() {
            None
        } else if rest.len() > 0 && r[0] == 't' && num.unwrap() <= 7 {
            Some((8 + num.unwrap()) as u32)
        } else if rest.len() > 0 && r[0] == 't' && num.unwrap() <= 9 {
            Some((24 + num.unwrap() - 8) as u32)
        } else if eq_lit(r, "k0") {
            Some(26)
        } else if eq_lit(r, "k1") {
            Some(27)
        } else if eq_lit(r, "gp") {
            Some(28)
        } else if eq_lit(r, "sp") {
            Some(29)
        } else if eq_lit(r, "fp") || eq_lit(r, "s8") {
            Some(30)
        } else if eq_lit(r, "ra") {
            Some(31)
        } else if rest.len() > 0 && r[0] == 's' && num.is_none() {
            None
        } else if rest.len() > 0 && r[0] == 's' && num.unwrap() <= 7 {
            Some((16 + num.unwrap()) as u32)
        } else if rest.len() > 0 && r[0] == 's' && num.unwrap() == 8 {
            Some(30)
        } else {
            match parse_uint(r, 10, 0xFFFF_FFFF) {
                Some(v) => if v < 32 { Some(v as u32) } else { None },
                None => None,
            }
        }
    } else if eq_lit(n.as_slice(), "zero") {
        Some(0)
    } else {
        None
    }
}

/// An `i32` immediate, `0x`/`0X` hex or decimal, as a word.
pub open spec fn mips_imm_of(s: Seq<char>) -> Option<u32> {
    let t = trim(s);
    let v = if t.len() >= 2 && t[0] == '0' && (t[1] == 'x' || t[1] == 'X') {
        parse_signed(t.subrange(2, t.len() as int), 16, -0x8000_0000, 0x7FFF_FFFF)
    } else {
        parse_signed(t, 10, -0x8000_0000, 0x7FFF_FFFF)
    };
    match v {
        Some(x) => Some(wrap32(x)),
        None => None,
    }
}

fn mips_imm(s: &[char]) -> (r: Option<u32>)
    ensures
        r == mips_imm_of(s@),
{
    let t = trim_chars(s);
    let v = if t.len() >= 2 && t[0] == '0' && (t[1] == 'x' || t[1] == 'X') {
        let h = slice_vec(t.as_slice(), 2, t.len());
        parse_int(h.as_slice(), 16, -0x8000_0000, 0x7FFF_FFFF)
    } else {
        parse_int(t.as_slice(), 10, -0x8000_0000, 0x7FFF_FFFF)
    };
    match v {
        Some(x) => Some(if x < 0 { (x + 0x1_0000_0000) as u32 } else { x as u32 }),
        None => None,
    }
}

/// `offset(rs)` or `(rs)`: the decimal offset as a word and the base
/// register, or the error message.
pub open spec fn offset_base_of(s: Seq<char>) -> Result<(u32, u32), Seq<char>> {
    let t = trim(s);
    match find_char(t, '(') {
        Some(p) => {
            let off = trim(t.subrange(0, p));
            let base = strip_trailing(trim(t.subrange(p + 1, t.len() as int)), ')');
            let imm = if off.len() == 0 {
                Some(0u32)
            } else {
                match parse_signed(off, 10, -0x8000_0000, 0x7FFF_FFFF) {
                    Some(x) => Some(wrap32(x)),
                    None => None,
                }
            };
            match imm {
                None => Err("Invalid offset: "@ + off),
                Some(w) => match mips_reg_of(base) {
                    Some(r) => Ok((w, r)),
                    None => Err("Invalid reg: "@ + base),
                },
            }
        },
        None => Err("Expected offset(rs) format: "@ + t),
    }
}

fn offset_base(s: &[char]) -> (r: Result<(u32, u32), String>)
    ensures
        match r {
            Ok((w, b)) => offset_base_of(s@) == Ok::<(u32, u32), Seq<char>>((w, b)) && b < 32,
            Err(m) => offset_base_of(s@) == Err::<(u32, u32), Seq<char>>(m@),
        },
{
    let t = trim_chars(s);
    match find(t.as_slice(), '(') {
        Some(p) => {
            let tn = t.len();
            let o = slice_vec(t.as_slice(), 0, p);
            let off = trim_chars(o.as_slice());
            let b0 = slice_vec(t.as_slice(), p + 1, tn);
            let b1 = trim_chars(b0.as_slice());
            let base = strip_trailing_chars(b1.as_slice(), ')');
            let imm: u32 = if off.len() == 0 {
                0
            } else {
                match parse_int(off.as_slice(), 10, -0x8000_0000, 0x7FFF_FFFF) {
                    Some(x) => if x < 0 { (x + 0x1_0000_0000) as u32 } else { x as u32 },
                    None => {
                        return Err(msg_with("Invalid offset: ", off.as_slice()));
                    },
                }
            };
            match parse_mips_reg(base.as_slice()) {
                Some(r) => Ok((imm, r)),
                None => Err(msg_with("Invalid reg: ", base.as_slice())),
            }
        },
        None => Err(msg_with("Expected offset(rs) format: ", t.as_slice())),
    }
}

pub open spec fn encode_r(funct: u32, rd: u32, rs: u32, rt: u32, shamt: u32) -> u32 {
    (rs << 21u32) | (rt << 16u32) | (rd << 11u32) | (shamt << 6u32) | funct
}

pub open spec fn encode_i(op: u32, rs: u32, rt: u32, imm: u32) -> u32 {
    (op << 26u32) | (rs << 21u32) | (rt << 16u32) | (imm & 0xFFFFu32)
}

fn enc_r(funct: u32, rd: u32, rs: u32, rt: u32, shamt: u32) -> (w: u32)
    ensures
        w == encode_r(funct, rd, rs, rt, shamt),
{
    (rs << 21u32) | (rt << 16u32) | (rd << 11u32) | (shamt << 6u32) | funct
}

fn enc_i(op: u32, rs: u32, rt: u32, imm: u32) -> (w: u32)
    ensures
        w == encode_i(op, rs, rt, imm),
{
    (op << 26u32) | (rs << 21u32) | (rt << 16u32) | (imm & 0xFFFFu32)
}

/// A label operand: a branch offset (`jump` false) or a jump target.
pub struct MipsRef {
    pub offset: usize,
    pub label: Vec<char>,
    pub line: u32,
    pub jump: bool,
}

pub open spec fn refs_fit(refs: Seq<MipsRef>, len: nat) -> bool {
    forall|i: int| 0 <= i < refs.len() ==> (#[trigger] refs[i]).offset + 4 <= len
}

/// The funct of a three-register ALU mnemonic.
pub open spec fn alu_funct(mn: Seq<char>) -> Option<u32> {
    if mn == "add"@ {
        Some(0x20u32)
    } else if mn == "sub"@ {
        Some(0x22u32)
    } else if mn == "and"@ {
        Some(0x24u32)
    } else if mn == "or"@ {
        Some(0x25u32)
    } else if mn == "slt"@ {
        Some(0x2Au32)
    } else if mn == "sltu"@ {
        Some(0x2Bu32)
    } else if mn == "nor"@ {
        Some(0x27u32)
    } else if mn == "xor"@ {
        Some(0x26u32)
    } else {
        None
    }
}

fn alu_funct_of(m: &[char]) -> (r: Option<u32>)
    ensures
        r == alu_funct(m@),
{
    if eq_lit(m, "add") {
        Some(0x20)
    } else if eq_lit(m, "sub") {
        Some(0x22)
    } else if eq_lit(m, "and") {
        Some(0x24)
    } else if eq_lit(m, "or") {
        Some(0x25)
    } else if eq_lit(m, "slt") {
        Some(0x2A)
    } else if eq_lit(m, "sltu") {
        Some(0x2B)
    } else if eq_lit(m, "nor") {
        Some(0x27)
    } else if eq_lit(m, "xor") {
        Some(0x26)
    } else {
        None
    }
}

/// The funct of a multiply or divide mnemonic.
pub open spec fn md_funct(mn: Seq<char>) -> u32 {
    if mn == "mult"@ {
        0x18u32
    } else if mn == "multu"@ {
        0x19u32
    } else if mn == "div"@ {
        0x1Au32
    } else {
        0x1Bu32
    }
}

/// A register operand or the error naming it.
pub open spec fn reg_res(tok: Seq<char>) -> Result<u32, Seq<char>> {
    match mips_reg_of(tok) {
        Some(r) => Ok(r),
        None => Err("Invalid reg: "@ + tok),
    }
}

/// Two register operands.
pub open spec fn regs2(t: Seq<Seq<char>>, a: int, b: int) -> Result<(u32, u32), Seq<char>> {
    match reg_res(t[a]) {
        Err(e) => Err(e),
        Ok(x) => match reg_res(t[b]) {
            Err(e) => Err(e),
            Ok(y) => Ok((x, y)),
        },
    }
}

/// Three register operands.
pub open spec fn regs3(t: Seq<Seq<char>>) -> Result<(u32, u32, u32), Seq<char>> {
    match regs2(t, 1, 2) {
        Err(e) => Err(e),
        Ok((x, y)) => match reg_res(t[3]) {
            Err(e) => Err(e),
            Ok(z) => Ok((x, y, z)),
        },
    }
}

/// The word of an instruction and, for a label operand, the index of its
/// token and whether it is a jump target; or the error message. `mn` is the
/// lower-cased mnemonic, `t` the whitespace tokens of the line.
pub open spec fn mips_encode(mn: Seq<char>, t: Seq<Seq<char>>) -> Result<(u32, Option<(int, bool)>), Seq<char>> {
    let n = t.len() - 1;
    if alu_funct(mn) is Some {
        if n != 3 {
            Err(mn + " rd, rs, rt"@)
        } else {
            match regs3(t) {
                Err(e) => Err(e),
                Ok((rd, rs, rt)) => Ok((encode_r(alu_funct(mn)->0, rd, rs, rt, 0), None)),
            }
        }
    } else if mn == "sll"@ || mn == "srl"@ || mn == "sra"@ {
        let f: u32 = if mn == "sll"@ { 0 } else if mn == "srl"@ { 2 } else { 3 };
        if n != 3 {
            Err(mn + " rd, rt, shamt"@)
        } else {
            match regs2(t, 1, 2) {
                Err(e) => Err(e),
                Ok((rd, rt)) => match parse_unsigned(t[3], 10, 0xFFFF_FFFF) {
                    None => Err("Invalid shamt: "@ + t[3]),
                    Some(sh) => if sh > 31 {
                        Err("shamt must be 0–31"@)
                    } else {
                        Ok((encode_r(f, rd, 0, rt, sh as u32), None))
                    },
                },
            }
        }
    } else if mn == "sllv"@ || mn == "srlv"@ || mn == "srav"@ {
        let f: u32 = if mn == "sllv"@ { 4 } else if mn == "srlv"@ { 6 } else { 7 };
        if n != 3 {
            Err(mn + " rd, rt, rs"@)
        } else {
            match regs3(t) {
                Err(e) => Err(e),
                Ok((rd, rt, rs)) => Ok((encode_r(f, rd, rs, rt, 0), None)),
            }
        }
    } else if mn == "jr"@ {
        if n != 1 {
            Err(mn + " rs"@)
        } else {
            match reg_res(t[1]) {
                Err(e) => Err(e),
                Ok(rs) => Ok((encode_r(0x08, 0, rs, 0, 0), None)),
            }
        }
    } else if mn == "jalr"@ {
        if n < 1 || n > 2 {
            Err(mn + " [rd,] rs"@)
        } else if n == 2 {
            match regs2(t, 1, 2) {
                Err(e) => Err(e),
                Ok((rd, rs)) => Ok((encode_r(0x09, rd, rs, 0, 0), None)),
            }
        } else {
            match reg_res(t[1]) {
                Err(e) => Err(e),
                Ok(rs) => Ok((encode_r(0x09, 31, rs, 0, 0), None)),
            }
        }
    } else if mn == "mfhi"@ || mn == "mflo"@ {
        if n != 1 {
            Err(mn + " rd"@)
        } else {
            match reg_res(t[1]) {
                Err(e) => Err(e),
                Ok(rd) => Ok((encode_r(if mn == "mfhi"@ { 0x10u32 } else { 0x12u32 }, rd, 0, 0, 0), None)),
            }
        }
    } else if mn == "mult"@ || mn == "multu"@ || mn == "div"@ || mn == "divu"@ {
        if n != 2 {
            Err(mn + " rs, rt"@)
        } else {
            match regs2(t, 1, 2) {
                Err(e) => Err(e),
                Ok((rs, rt)) => Ok((encode_r(md_funct(mn), 0, rs, rt, 0), None)),
            }
        }
    } else if mn == "syscall"@ {
        if n != 0 {
            Err(mn + " (no args)"@)
        } else {
            Ok((encode_r(0x0C, 0, 0, 0, 0), None))
        }
    } else if mn == "addi"@ || mn == "slti"@ || mn == "sltiu"@ || mn == "xori"@ {
        let op: u32 = if mn == "addi"@ { 0x08 } else if mn == "slti"@ { 0x0A } else if mn == "sltiu"@ { 0x0B } else { 0x0E };
        if n != 3 {
            Err(mn + " rt, rs, imm"@)
        } else {
            match regs2(t, 1, 2) {
                Err(e) => Err(e),
                Ok((rt, rs)) => match mips_imm_of(t[3]) {
                    None => Err("Invalid imm: "@ + t[3]),
                    Some(imm) => Ok((encode_i(op, rs, rt, imm), None)),
                },
            }
        }
    } else if mn == "lui"@ || mn == "li"@ {
        if n != 2 {
            Err(mn + " rt, imm"@)
        } else {
            match reg_res(t[1]) {
                Err(e) => Err(e),
                Ok(rt) => match mips_imm_of(t[2]) {
                    None => Err("Invalid imm: "@ + t[2]),
                    Some(imm) => Ok((encode_i(if mn == "lui"@ { 0x0Fu32 } else { 0x09u32 }, 0, rt, imm), None)),
                },
            }
        }
    } else if mn == "lb"@ || mn == "lh"@ || mn == "lw"@ || mn == "sw"@ || mn == "sb"@ || mn == "sh"@ {
        let op: u32 = if mn == "lb"@ {
            0x20
        } else if mn == "lh"@ {
            0x21
        } else if mn == "lw"@ {
            0x23
        } else if mn == "sw"@ {
            0x2B
        } else if mn == "sb"@ {
            0x28
        } else {
            0x29
        };
        if n != 2 {
            Err(mn + " rt, offset(rs)"@)
        } else {
            match reg_res(t[1]) {
                Err(e) => Err(e),
                Ok(rt) => match offset_base_of(t[2]) {
                    Err(m) => Err(m),
                    Ok((off, rs)) => Ok((encode_i(op, rs, rt, off), None)),
                },
            }
        }
    } else if mn == "beq"@ || mn == "bne"@ {
        if n != 3 {
            Err(mn + " rs, rt, label"@)
        } else {
            match regs2(t, 1, 2) {
                Err(e) => Err(e),
                Ok((rs, rt)) => Ok((encode_i(if mn == "beq"@ { 0x04u32 } else { 0x05u32 }, rs, rt, 0), Some((3int, false)))),
            }
        }
    } else if mn == "j"@ || mn == "jal"@ {
        if n != 1 {
            Err(mn + " label"@)
        } else {
            Ok(((if mn == "j"@ { 0x02u32 } else { 0x03u32 }) << 26u32, Some((1int, true))))
        }
    } else if mn == "nop"@ {
        Ok((0u32, None))
    } else {
        Err("Unknown instruction: "@ + mn)
    }
}

fn reg_tok(tok: &Vec<char>) -> (r: Result<u32, String>)
    ensures
        match r {
            Ok(v) => reg_res(tok@) == Ok::<u32, Seq<char>>(v) && v < 32,
            Err(m) => reg_res(tok@) == Err::<u32, Seq<char>>(m@),
        },
{
    match parse_mips_reg(tok.as_slice()) {
        Some(v) => Ok(v),
        None => Err(msg_with("Invalid reg: ", tok.as_slice())),
    }
}

fn usage(mn: &[char], form: &str) -> (m: String)
    ensures
        m@ == mn@ + form@,
{
    Text::new().all(mn).s(form).done()
}

/// The little-endian bytes of a word.
pub open spec fn word_bytes(w: u32) -> Seq<u8> {
    seq![(w % 256) as u8, ((w / 0x100) % 256) as u8, ((w / 0x1_0000) % 256) as u8, (w / 0x100_0000) as u8]
}

fn emit(bytes: &mut Vec<u8>, w: u32) -> (off: usize)
    ensures
        off == old(bytes)@.len(),
        final(bytes)@ == old(bytes)@ + word_bytes(w),
{
    let off = bytes.len();
    bytes.push((w % 256) as u8);
    bytes.push(((w / 0x100) % 256) as u8);
    bytes.push(((w / 0x1_0000) % 256) as u8);
    bytes.push((w / 0x100_0000) as u8);
    assert(bytes@ =~= old(bytes)@ + word_bytes(w));
    off
}

pub open spec fn opt_label(k: Option<(usize, bool)>) -> Option<(int, bool)> {
    match k {
        Some((x, j)) => Some((x as int, j)),
        None => None,
    }
}

/// The views of a list of tokens.
pub open spec fn views(v: Seq<Vec<char>>) -> Seq<Seq<char>> {
    Seq::new(v.len(), |k: int| v[k]@)
}

/// The word of one instruction and its label operand, if any.
fn mips_word(m: &[char], toks: &Vec<Vec<char>>) -> (r: Result<(u32, Option<(usize, bool)>), String>)
    requires
        toks@.len() >= 1,
    ensures
        match r {
            Ok((w, k)) => mips_encode(m@, views(toks@)) == Ok::<(u32, Option<(int, bool)>), Seq<char>>((w, opt_label(k))),
            Err(msg) => mips_encode(m@, views(toks@)) == Err::<(u32, Option<(int, bool)>), Seq<char>>(msg@),
        },
{
    let ghost t = views(toks@);
    assert(t.len() == toks@.len());
    let n = toks.len() - 1;
    if let Some(f) = alu_funct_of(m) {
        if n != 3 {
            Err(usage(m, " rd, rs, rt"))
        } else {
            match reg_tok(&toks[1]) {
                Err(e) => Err(e),
                Ok(rd) => match reg_tok(&toks[2]) {
                    Err(e) => Err(e),
                    Ok(rs) => match reg_tok(&toks[3]) {
                        Err(e) => Err(e),
                        Ok(rt) => Ok((enc_r(f, rd, rs, rt, 0), None)),
                    },
                },
            }
        }
    } else if eq_lit(m, "sll") || eq_lit(m, "srl") || eq_lit(m, "sra") {
        let f: u32 = if eq_lit(m, "sll") { 0 } else if eq_lit(m, "srl") { 2 } else { 3 };
        if n != 3 {
            Err(usage(m, " rd, rt, shamt"))
        } else {
            match reg_tok(&toks[1]) {
                Err(e) => Err(e),
                Ok(rd) => match reg_tok(&toks[2]) {
                    Err(e) => Err(e),
                    Ok(rt) => match parse_uint(toks[3].as_slice(), 10, 0xFFFF_FFFF) {
                        None => Err(msg_with("Invalid shamt: ", toks[3].as_slice())),
                        Some(sh) => if sh > 31 {
                            Err(lit("shamt must be 0–31"))
                        } else {
                            Ok((enc_r(f, rd, 0, rt, sh as u32), None))
                        },
                    },
                },
            }
        }
    } else if eq_lit(m, "sllv") || eq_lit(m, "srlv") || eq_lit(m, "srav") {
        let f: u32 = if eq_lit(m, "sllv") { 4 } else if eq_lit(m, "srlv") { 6 } else { 7 };
        if n != 3 {
            Err(usage(m, " rd, rt, rs"))
        } else {
            match reg_tok(&toks[1]) {
                Err(e) => Err(e),
                Ok(rd) => match reg_tok(&toks[2]) {
                    Err(e) => Err(e),
                    Ok(rt) => match reg_tok(&toks[3]) {
                        Err(e) => Err(e),
                        Ok(rs) => Ok((enc_r(f, rd, rs, rt, 0), None)),
                    },
                },
            }
        }
    } else if eq_lit(m, "jr") {
        if n != 1 {
            Err(usage(m, " rs"))
        } else {
            match reg_tok(&toks[1]) {
                Err(e) => Err(e),
                Ok(rs) => Ok((enc_r(0x08, 0, rs, 0, 0), None)),
            }
        }
    } else if eq_lit(m, "jalr") {
        if n < 1 || n > 2 {
            Err(usage(m, " [rd,] rs"))
        } else if n == 2 {
            match reg_tok(&toks[1]) {
                Err(e) => Err(e),
                Ok(rd) => match reg_tok(&toks[2]) {
                    Err(e) => Err(e),
                    Ok(rs) => Ok((enc_r(0x09, rd, rs, 0, 0), None)),
                },
            }
        } else {
            match reg_tok(&toks[1]) {
                Err(e) => Err(e),
                Ok(rs) => Ok((enc_r(0x09, 31, rs, 0, 0), None)),
            }
        }
    } else if eq_lit(m, "mfhi") || eq_lit(m, "mflo") {
        if n != 1 {
            Err(usage(m, " rd"))
        } else {
            match reg_tok(&toks[1]) {
                Err(e) => Err(e),
                Ok(rd) => Ok((enc_r(if eq_lit(m, "mfhi") { 0x10 } else { 0x12 }, rd, 0, 0, 0), None)),
            }
        }
    } else if eq_lit(m, "mult") || eq_lit(m, "multu") || eq_lit(m, "div") || eq_lit(m, "divu") {
        let f: u32 = if eq_lit(m, "mult") {
            0x18
        } else if eq_lit(m, "multu") {
            0x19
        } else if eq_lit(m, "div") {
            0x1A
        } else {
            0x1B
        };
        if n != 2 {
            Err(usage(m, " rs, rt"))
        } else {
            match reg_tok(&toks[1]) {
                Err(e) => Err(e),
                Ok(rs) => match reg_tok(&toks[2]) {
                    Err(e) => Err(e),
                    Ok(rt) => Ok((enc_r(f, 0, rs, rt, 0), None)),
                },
            }
        }
    } else if eq_lit(m, "syscall") {
        if n != 0 {
            Err(usage(m, " (no args)"))
        } else {
            Ok((enc_r(0x0C, 0, 0, 0, 0), None))
        }
    } else if eq_lit(m, "addi") || eq_lit(m, "slti") || eq_lit(m, "sltiu") || eq_lit(m, "xori") {
        let op: u32 = if eq_lit(m, "addi") { 0x08 } else if eq_lit(m, "slti") { 0x0A } else if eq_lit(m, "sltiu") { 0x0B } else { 0x0E };
        if n != 3 {
            Err(usage(m, " rt, rs, imm"))
        } else {
            match reg_tok(&toks[1]) {
                Err(e) => Err(e),
                Ok(rt) => match reg_tok(&toks[2]) {
                    Err(e) => Err(e),
                    Ok(rs) => match mips_imm(toks[3].as_slice()) {
                        None => Err(msg_with("Invalid imm: ", toks[3].as_slice())),
                        Some(imm) => Ok((enc_i(op, rs, rt, imm), None)),
                    },
                },
            }
        }
    } else if eq_lit(m, "lui") || eq_lit(m, "li") {
        if n != 2 {
            Err(usage(m, " rt, imm"))
        } else {
            match reg_tok(&toks[1]) {
                Err(e) => Err(e),
                Ok(rt) => match mips_imm(toks[2].as_slice()) {
                    None => Err(msg_with("Invalid imm: ", toks[2].as_slice())),
                    Some(imm) => Ok((enc_i(if eq_lit(m, "lui") { 0x0F } else { 0x09 }, 0, rt, imm), None)),
                },
            }
        }
    } else if eq_lit(m, "lb") || eq_lit(m, "lh") || eq_lit(m, "lw") || eq_lit(m, "sw") || eq_lit(m, "sb") || eq_lit(m, "sh") {
        let op: u32 = if eq_lit(m, "lb") {
            0x20
        } else if eq_lit(m, "lh") {
            0x21
        } else if eq_lit(m, "lw") {
            0x23
        } else if eq_lit(m, "sw") {
            0x2B
        } else if eq_lit(m, "sb") {
            0x28
        } else {
            0x29
        };
        if n != 2 {
            Err(usage(m, " rt, offset(rs)"))
        } else {
            match reg_tok(&toks[1]) {
                Err(e) => Err(e),
                Ok(rt) => match offset_base(toks[2].as_slice()) {
                    Err(msg) => Err(msg),
                    Ok((off, rs)) => Ok((enc_i(op, rs, rt, off), None)),
                },
            }
        }
    } else if eq_lit(m, "beq") || eq_lit(m, "bne") {
        if n != 3 {
            Err(usage(m, " rs, rt, label"))
        } else {
            match reg_tok(&toks[1]) {
                Err(e) => Err(e),
                Ok(rs) => match reg_tok(&toks[2]) {
                    Err(e) => Err(e),
                    Ok(rt) => Ok((enc_i(if eq_lit(m, "beq") { 0x04 } else { 0x05 }, rs, rt, 0), Some((3usize, false)))),
                },
            }
        }
    } else if eq_lit(m, "j") || eq_lit(m, "jal") {
        if n != 1 {
            Err(usage(m, " label"))
        } else {
            Ok(((if eq_lit(m, "j") { 0x02u32 } else { 0x03u32 }) << 26u32, Some((1usize, true))))
        }
    } else if eq_lit(m, "nop") {
        Ok((0, None))
    } else {
        Err(msg_with("Unknown instruction: ", m))
    }
}

/// Encodes one instruction at `pc`: its four bytes are appended, a source
/// map entry is recorded, and a label operand is remembered for patching.
pub fn parse_mips_instruction(
    line: &[char],
    line_num: u32,
    col: u32,
    pc: u32,
    bytes: &mut Vec<u8>,
    source_map: &mut Vec<SourceMapEntry>,
    pending: &mut Vec<MipsRef>,
) -> (res: Result<(), AssemblerError>)
    requires
        refs_fit(old(pending)@, old(bytes)@.len()),
    ensures
        ({
            let t = tokens(line@);
            if t.len() == 0 {
                &&& res is Ok
                &&& final(bytes)@ == old(bytes)@
                &&& final(source_map)@ == old(source_map)@
                &&& final(pending)@ == old(pending)@
            } else {
                &&& final(source_map)@ == old(source_map)@.push(SourceMapEntry { pc, line: line_num, column: col })
                &&& match mips_encode(lower_seq(t[0]), t) {
                    Ok((w, k)) => {
                        &&& res is Ok
                        &&& final(bytes)@ == old(bytes)@ + word_bytes(w)
                        &&& final(pending)@.len() == old(pending)@.len() + (if k is Some { 1int } else { 0int })
                        &&& forall|i: int| 0 <= i < old(pending)@.len() ==> #[trigger] final(pending)@[i] == old(pending)@[i]
                        &&& k matches Some((ki, jump)) ==> {
                            let p = final(pending)@.last();
                            &&& p.offset == old(bytes)@.len()
                            &&& p.label@ == t[ki]
                            &&& p.line == line_num
                            &&& p.jump == jump
                        }
                    },
                    Err(msg) => {
                        &&& res matches Err(e) && e.line == line_num && e.column == col && e.message@ == msg
                        &&& final(bytes)@ == old(bytes)@
                        &&& final(pending)@ == old(pending)@
                    },
                }
            }
        }),
        refs_fit(final(pending)@, final(bytes)@.len()),
{
    let toks = split_ws(line);
    if toks.len() == 0 {
        return Ok(());
    }
    source_map.push(SourceMapEntry { pc, line: line_num, column: col });
    let mn = to_lower(toks[0].as_slice());
    proof {
        assert(views(toks@) =~= tokens(line@));
    }
    match mips_word(mn.as_slice(), &toks) {
        Err(msg) => Err(asm_error(line_num, col, msg)),
        Ok((w, label_arg)) => {
            let ghost p0 = pending@;
            let pos = emit(bytes, w);
            match label_arg {
                Some((k, jump)) => {
                    pending.push(MipsRef { offset: pos, label: toks[k].clone(), line: line_num, jump });
                },
                None => {},
            }
            proof {
                assert forall|i: int| 0 <= i < pending@.len() implies (#[trigger] pending@[i]).offset + 4 <= bytes@.len() by {
                    if i < p0.len() {
                        assert(pending@[i] == p0[i]);
                    }
                }
            }
            Ok(())
        },
    }
}

/// A pending reference seen as offset, label, line and whether it is a jump.
pub type MipsRefView = (int, Seq<char>, u32, bool);

pub open spec fn mips_ref_view(p: MipsRef) -> MipsRefView {
    (p.offset as int, p.label@, p.line, p.jump)
}

pub open spec fn mips_refs_view(ps: Seq<MipsRef>) -> Seq<MipsRefView> {
    ps.map_values(|p: MipsRef| mips_ref_view(p))
}

/// The first pass before any line: address 0.
pub open spec fn mips_init() -> Scan<MipsRefView> {
    Scan {
        bytes: Seq::empty(),
        smap: Seq::empty(),
        errors: Seq::empty(),
        labels: Map::empty(),
        refs: Seq::empty(),
        start: 0,
        pc: 0,
        ended: false,
    }
}

/// One instruction (the text after any label) at the current address; the
/// address moves on by four whether or not it assembled.
#[verifier::opaque]
pub open spec fn mips_instr(st: Scan<MipsRefView>, body: Seq<char>, ln: u32) -> Scan<MipsRefView> {
    let t = tokens(body);
    let next = ((st.pc + 4) % 0x1_0000_0000) as u32;
    if t.len() == 0 {
        Scan { pc: next, ..st }
    } else {
        let smap = st.smap.push(SourceMapEntry { pc: st.pc, line: ln, column: 1 });
        match mips_encode(lower_seq(t[0]), t) {
            Ok((w, k)) => Scan {
                bytes: st.bytes + word_bytes(w),
                smap,
                refs: match k {
                    Some((ki, jump)) => st.refs.push((st.bytes.len() as int, t[ki], ln, jump)),
                    None => st.refs,
                },
                pc: next,
                ..st
            },
            Err(msg) => Scan { smap, errors: st.errors.push((ln, 1u32, msg)), pc: next, ..st },
        }
    }
}

/// One source line (index `i`) of the first pass; `#` starts a comment.
pub open spec fn mips_line(st: Scan<MipsRefView>, i: int, raw: Seq<char>) -> Scan<MipsRefView> {
    let line = trim(before_char(raw, '#'));
    if line.len() == 0 {
        st
    } else {
        let st1 = match line_label(line) {
            Some(l) => Scan { labels: st.labels.insert(l, st.pc), ..st },
            None => st,
        };
        let body = line_rest(line);
        if body.len() == 0 {
            st1
        } else {
            mips_instr(st1, body, line_number(i))
        }
    }
}

/// The first pass over the first `n` lines.
pub open spec fn mips_scan(lines: Seq<Seq<char>>, n: nat) -> Scan<MipsRefView>
    decreases n,
{
    if n == 0 || n > lines.len() {
        mips_init()
    } else {
        mips_line(mips_scan(lines, (n - 1) as nat), n - 1, lines[n - 1])
    }
}

/// The 16-bit branch field reaching `target` from the instruction at `off`:
/// the word distance from the next instruction.
pub open spec fn mips_branch_field(target: u32, off: int) -> u32 {
    let next = ((off % 0x1_0000_0000) + 4) % 0x1_0000_0000;
    let d = (target + 0x1_0000_0000 - next) % 0x1_0000_0000;
    if d >= 0x8000_0000 {
        (((0x1_0000_0000 - (0x1_0000_0000 - d) / 4) % 0x1_0000_0000) as u32) & 0xFFFFu32
    } else {
        ((d / 4) as u32) & 0xFFFFu32
    }
}

/// The second pass for one reference: the branch gets its offset or the jump
/// its target, or an error is recorded.
pub open spec fn mips_patch(b: Seq<u8>, es: Seq<(u32, u32, Seq<char>)>, labels: Map<Seq<char>, u32>, r: MipsRefView) -> (
    Seq<u8>,
    Seq<(u32, u32, Seq<char>)>,
) {
    let (off, label, line, jump) = r;
    if labels.contains_key(label) {
        let target = labels[label];
        let insn = le32(b, off) as u32;
        let w = if !jump {
            (insn & 0xFFFF_0000u32) | mips_branch_field(target, off)
        } else {
            (insn & 0xFC00_0000u32) | ((target >> 2u32) & 0x03FF_FFFFu32)
        };
        (put32(b, off, w), es)
    } else {
        (b, es.push((line, 1u32, "Unknown label: "@ + label)))
    }
}

/// The second pass over a list of references, in order.
pub open spec fn mips_patch_all(b: Seq<u8>, es: Seq<(u32, u32, Seq<char>)>, labels: Map<Seq<char>, u32>, refs: Seq<MipsRefView>) -> (
    Seq<u8>,
    Seq<(u32, u32, Seq<char>)>,
)
    decreases refs.len(),
{
    if refs.len() == 0 {
        (b, es)
    } else {
        let (b1, e1) = mips_patch_all(b, es, labels, refs.drop_last());
        mips_patch(b1, e1, labels, refs.last())
    }
}

/// Fills in a branch offset or jump target.
fn patch_ref(bytes: &mut Vec<u8>, errors: &mut Vec<AssemblerError>, labels: &LabelTable, r: &MipsRef)
    requires
        labels.wf(),
        r.offset + 4 <= old(bytes)@.len(),
    ensures
        (final(bytes)@, errs_view(final(errors)@)) == mips_patch(old(bytes)@, errs_view(old(errors)@), labels.view(), mips_ref_view(*r)),
        final(bytes)@.len() == old(bytes)@.len(),
{
    match labels.get(r.label.as_slice()) {
        Some(target) => {
            let insn = read_word32(bytes, r.offset);
            let patched = if !r.jump {
                let next = ((r.offset as u64 % 0x1_0000_0000) + 4) % 0x1_0000_0000;
                let d = (target as u64 + 0x1_0000_0000 - next) % 0x1_0000_0000;
                let field: u32 = if d >= 0x8000_0000 {
                    (((0x1_0000_0000 - (0x1_0000_0000 - d) / 4) % 0x1_0000_0000) as u32) & 0xFFFFu32
                } else {
                    ((d / 4) as u32) & 0xFFFFu32
                };
                (insn & 0xFFFF_0000u32) | field
            } else {
                (insn & 0xFC00_0000u32) | ((target >> 2u32) & 0x03FF_FFFFu32)
            };
            write_word32(bytes, r.offset, patched);
        },
        None => {
            let e = asm_error(r.line, 1, msg_with("Unknown label: ", r.label.as_slice()));
            proof { lemma_errs_push(errors@, e); }
            errors.push(e);
        },
    }
}

/// The first-pass state that the assembler's working values stand for.
pub open spec fn mips_scan_of(
    bytes: Seq<u8>,
    smap: Seq<SourceMapEntry>,
    errors: Seq<AssemblerError>,
    labels: Map<Seq<char>, u32>,
    refs: Seq<MipsRef>,
    pc: u32,
) -> Scan<MipsRefView> {
    Scan { bytes, smap, errors: errs_view(errors), labels, refs: mips_refs_view(refs), start: 0, pc, ended: false }
}

/// The first pass over one source line.
#[verifier::spinoff_prover]
fn scan_line(
    raw: &[char],
    li: usize,
    bytes: &mut Vec<u8>,
    source_map: &mut Vec<SourceMapEntry>,
    errors: &mut Vec<AssemblerError>,
    labels: &mut LabelTable,
    pending: &mut Vec<MipsRef>,
    pc: &mut u32,
)
    requires
        old(labels).wf(),
        refs_fit(old(pending)@, old(bytes)@.len()),
        li < usize::MAX,
    ensures
        final(labels).wf(),
        refs_fit(final(pending)@, final(bytes)@.len()),
        mips_scan_of(final(bytes)@, final(source_map)@, final(errors)@, final(labels).view(), final(pending)@, *final(pc))
            == mips_line(mips_scan_of(old(bytes)@, old(source_map)@, old(errors)@, old(labels).view(), old(pending)@, *old(pc)), li as int, raw@),
{
    let line_num: u32 = ((li as u64 + 1) % 0x1_0000_0000) as u32;
    let b = crate::text::take_before(raw, '#');
    let line = trim_chars(b.as_slice());
    if line.len() == 0 {
        return;
    }
    let (label, body) = split_label(&line);
    match label {
        Some(l) => {
            labels.insert(l, *pc);
        },
        None => {},
    }
    if body.len() == 0 {
        return;
    }
    let ghost st1 = mips_scan_of(bytes@, source_map@, errors@, labels.view(), pending@, *pc);
    scan_instr(body.as_slice(), line_num, bytes, source_map, errors, pending, pc, Ghost(st1));
}

/// One instruction of the first pass at `pc`, which moves on by four.
fn scan_instr(
    body: &[char],
    line_num: u32,
    bytes: &mut Vec<u8>,
    source_map: &mut Vec<SourceMapEntry>,
    errors: &mut Vec<AssemblerError>,
    pending: &mut Vec<MipsRef>,
    pc: &mut u32,
    Ghost(st): Ghost<Scan<MipsRefView>>,
)
    requires
        refs_fit(old(pending)@, old(bytes)@.len()),
        st.bytes == old(bytes)@,
        st.smap == old(source_map)@,
        st.errors == errs_view(old(errors)@),
        st.refs == mips_refs_view(old(pending)@),
        st.pc == *old(pc),
    ensures
        refs_fit(final(pending)@, final(bytes)@.len()),
        ({
            let st2 = mips_instr(st, body@, line_num);
            &&& final(bytes)@ == st2.bytes
            &&& final(source_map)@ == st2.smap
            &&& errs_view(final(errors)@) == st2.errors
            &&& mips_refs_view(final(pending)@) == st2.refs
            &&& *final(pc) == st2.pc
            &&& st2.labels == st.labels
            &&& st2.start == st.start
            &&& st2.ended == st.ended
        }),
{
    reveal(mips_instr);
    match parse_mips_instruction(body, line_num, 1, *pc, bytes, source_map, pending) {
        Err(e) => {
            proof {
                lemma_errs_push(errors@, e);
            }
            errors.push(e);
        },
        Ok(()) => {
            proof {
                assert(mips_refs_view(pending@) =~= mips_instr(st, body@, line_num).refs);
            }
        },
    }
    *pc = pc.wrapping_add(4);
}

/// The entry point: `_start`, else `main`, else 0.
pub open spec fn mips_entry(labels: Map<Seq<char>, u32>) -> u32 {
    if labels.contains_key("_start"@) {
        labels["_start"@]
    } else if labels.contains_key("main"@) {
        labels["main"@]
    } else {
        0
    }
}


/// What assembling MIPS source gives.
pub open spec fn mips_image(source: Seq<char>) -> ImageView {
    let lines = lines_spec(source);
    let sc = mips_scan(lines, lines.len());
    let fin = mips_patch_all(sc.bytes, sc.errors, sc.labels, sc.refs);
    (fin.0, sc.smap, fin.1, mips_entry(sc.labels))
}

impl MipsPlugin {
    /// Assembles MIPS source text into a program image: a first pass over
    /// the lines, then each label operand patched in order.
    pub fn assemble(&self, source: &str) -> (img: ProgramImage)
        ensures
            image_view(img) == mips_image(source@),
    {
        let src = chars_of(source);
        let lines = split_lines(src.as_slice());
        let ghost ls = lines_spec(source@);
        let mut bytes: Vec<u8> = Vec::new();
        let mut source_map: Vec<SourceMapEntry> = Vec::new();
        let mut errors: Vec<AssemblerError> = Vec::new();
        let mut labels = LabelTable::new();
        let mut pending: Vec<MipsRef> = Vec::new();
        let mut pc: u32 = 0;
        let mut li: usize = 0;
        proof {
            assert(errs_view(errors@) =~= Seq::empty());
            assert(mips_refs_view(pending@) =~= Seq::empty());
        }
        while li < lines.len()
            invariant
                labels.wf(),
                refs_fit(pending@, bytes@.len()),
                li <= lines@.len(),
                lines@.len() == ls.len(),
                forall|k: int| 0 <= k < lines@.len() ==> #[trigger] lines@[k]@ == ls[k],
                mips_scan(ls, li as nat) == mips_scan_of(bytes@, source_map@, errors@, labels.view(), pending@, pc),
            decreases lines@.len() - li,
        {
            scan_line(lines[li].as_slice(), li, &mut bytes, &mut source_map, &mut errors, &mut labels, &mut pending, &mut pc);
            li = li + 1;
        }
        let ghost sc = mips_scan(ls, ls.len());
        let ghost refs = sc.refs;
        let mut k: usize = 0;
        proof {
            assert(refs.subrange(0, 0) =~= Seq::<MipsRefView>::empty());
        }
        while k < pending.len()
            invariant
                labels.wf(),
                labels.view() == sc.labels,
                refs_fit(pending@, bytes@.len()),
                k <= pending@.len(),
                refs == mips_refs_view(pending@),
                (bytes@, errs_view(errors@)) == mips_patch_all(sc.bytes, sc.errors, sc.labels, refs.subrange(0, k as int)),
            decreases pending@.len() - k,
        {
            patch_ref(&mut bytes, &mut errors, &labels, &pending[k]);
            proof {
                assert(refs.subrange(0, k + 1).drop_last() =~= refs.subrange(0, k as int));
                assert(refs.subrange(0, k + 1).last() == mips_ref_view(pending@[k as int]));
            }
            k = k + 1;
        }
        proof {
            assert(refs.subrange(0, refs.len() as int) =~= refs);
        }
        let start = chars_of("_start");
        let main_name = chars_of("main");
        let entry_pc = match labels.get(start.as_slice()) {
            Some(a) => a,
            None => match labels.get(main_name.as_slice()) {
                Some(a) => a,
                None => 0,
            },
        };
        ProgramImage { bytes, entry_pc, source_map, errors }
    }
}

/// The functs of the three-register ALU mnemonics.
proof fn lemma_alu_functs()
    ensures
        alu_funct("add"@) == Some(0x20u32),
        alu_funct("sub"@) == Some(0x22u32),
        alu_funct("and"@) == Some(0x24u32),
        alu_funct("or"@) == Some(0x25u32),
        alu_funct("slt"@) == Some(0x2Au32),
        alu_funct("sltu"@) == Some(0x2Bu32),
        alu_funct("nor"@) == Some(0x27u32),
        alu_funct("xor"@) == Some(0x26u32),
{
    reveal_strlit("add");
    reveal_strlit("sub");
    reveal_strlit("and");
    reveal_strlit("or");
    reveal_strlit("slt");
    reveal_strlit("sltu");
    reveal_strlit("nor");
    reveal_strlit("xor");
    assert("add"@[0] != "sub"@[0]);
    assert("add"@[1] != "and"@[1]);
    assert("add"@.len() != "or"@.len());
    assert("add"@[0] != "slt"@[0]);
    assert("add"@.len() != "sltu"@.len());
    assert("add"@[0] != "nor"@[0]);
    assert("add"@[0] != "xor"@[0]);
    assert("sub"@[0] != "and"@[0]);
    assert("sub"@.len() != "or"@.len());
    assert("sub"@[1] != "slt"@[1]);
    assert("sub"@.len() != "sltu"@.len());
    assert("sub"@[0] != "nor"@[0]);
    assert("sub"@[0] != "xor"@[0]);
    assert("and"@.len() != "or"@.len());
    assert("and"@[0] != "slt"@[0]);
    assert("and"@.len() != "sltu"@.len());
    assert("and"@[0] != "nor"@[0]);
    assert("and"@[0] != "xor"@[0]);
    assert("or"@.len() != "slt"@.len());
    assert("or"@.len() != "sltu"@.len());
    assert("or"@.len() != "nor"@.len());
    assert("or"@.len() != "xor"@.len());
    assert("slt"@.len() != "sltu"@.len());
    assert("slt"@[0] != "nor"@[0]);
    assert("slt"@[0] != "xor"@[0]);
    assert("sltu"@.len() != "nor"@.len());
    assert("sltu"@.len() != "xor"@.len());
    assert("nor"@[0] != "xor"@[0]);
}

/// The register fields of a shift-free R-type word are the registers
/// encoded, and its opcode is zero.
proof fn lemma_r_fields(f: u32, d: u32, a: u32, b: u32)
    by (bit_vector)
    requires
        f < 64,
        d < 32,
        a < 32,
        b < 32,
    ensures
        encode_r(f, d, a, b, 0) >> 26u32 == 0,
        crate::mips::rd(encode_r(f, d, a, b, 0)) == d,
        crate::mips::rs(encode_r(f, d, a, b, 0)) == a,
        crate::mips::rt(encode_r(f, d, a, b, 0)) == b,
        crate::mips::shamt(encode_r(f, d, a, b, 0)) == 0,
        crate::mips::funct(encode_r(f, d, a, b, 0)) == f,
{
}

proof fn lemma_reg_bound(name: Seq<char>)
    ensures
        mips_reg_of(name) matches Some(v) ==> v < 32,
{
}

/// Assembling `op rd, rs, rt` for add, sub, and, or, xor, nor, slt or sltu
/// gives a word with opcode 0 and shift amount 0 on those registers, and
/// the value that the simulator computes from it for rs = `a` and rt = `b`
/// is the one the mnemonic names: the sum or difference modulo 2^32, the
/// bitwise and, or, exclusive-or or nor, or the signed or unsigned
/// comparison.
pub proof fn lemma_alu_mnemonics(mn: Seq<char>, t: Seq<Seq<char>>, a: u32, b: u32)
    requires
        t.len() == 4,
        mips_reg_of(t[1]) is Some,
        mips_reg_of(t[2]) is Some,
        mips_reg_of(t[3]) is Some,
        mn == "add"@ || mn == "sub"@ || mn == "and"@ || mn == "or"@ || mn == "slt"@ || mn == "sltu"@ || mn == "nor"@
            || mn == "xor"@,
    ensures
        match mips_encode(mn, t) {
            Ok((w, label)) => {
                let x = crate::mips::r_value(crate::mips::funct(w), crate::mips::shamt(w), a, b, Seq::<u32>::empty(), 0);
                &&& label is None
                &&& w >> 26u32 == 0
                &&& crate::mips::shamt(w) == 0
                &&& crate::mips::rd(w) == mips_reg_of(t[1])->0
                &&& crate::mips::rs(w) == mips_reg_of(t[2])->0
                &&& crate::mips::rt(w) == mips_reg_of(t[3])->0
                &&& mn == "add"@ ==> (x matches Some(v) && v as int == (a + b) % 0x1_0000_0000)
                &&& mn == "sub"@ ==> (x matches Some(v) && v as int == (a - b) % 0x1_0000_0000)
                &&& mn == "and"@ ==> x == Some(a & b)
                &&& mn == "or"@ ==> x == Some(a | b)
                &&& mn == "xor"@ ==> x == Some(a ^ b)
                &&& mn == "nor"@ ==> x == Some(!(a | b))
                &&& mn == "slt"@ ==> x == Some(if (a as i32) < (b as i32) { 1u32 } else { 0u32 })
                &&& mn == "sltu"@ ==> x == Some(if a < b { 1u32 } else { 0u32 })
            },
            Err(_) => false,
        },
{
    lemma_alu_functs();
    lemma_reg_bound(t[1]);
    lemma_reg_bound(t[2]);
    lemma_reg_bound(t[3]);
    let d = mips_reg_of(t[1])->0;
    let x = mips_reg_of(t[2])->0;
    let y = mips_reg_of(t[3])->0;
    let f = alu_funct(mn)->0;
    assert(regs3(t) == Ok::<(u32, u32, u32), Seq<char>>((d, x, y)));
    lemma_r_fields(f, d, x, y);
    let w = encode_r(f, d, x, y, 0);
    assert(mips_encode(mn, t) == Ok::<(u32, Option<(int, bool)>), Seq<char>>((w, None)));
    crate::rv32i::lemma_signed_is_i32(a, b);
    crate::rv32i::lemma_signed_wraps(a, b);
}

/// The immediate and branch mnemonics below are none of the others.
proof fn lemma_imm_branch_names()
    ensures
        alu_funct("addi"@) is None,
        "addi"@ != "sll"@ && "addi"@ != "srl"@ && "addi"@ != "sra"@ && "addi"@ != "sllv"@ && "addi"@ != "srlv"@ && "addi"@ != "srav"@ && "addi"@ != "jr"@ && "addi"@ != "jalr"@ && "addi"@ != "mfhi"@ && "addi"@ != "mflo"@ && "addi"@ != "mult"@ && "addi"@ != "multu"@ && "addi"@ != "div"@ && "addi"@ != "divu"@ && "addi"@ != "syscall"@ && "addi"@ != "slti"@ && "addi"@ != "sltiu"@ && "addi"@ != "xori"@ && "addi"@ != "lui"@ && "addi"@ != "li"@ && "addi"@ != "lb"@ && "addi"@ != "lh"@ && "addi"@ != "lw"@ && "addi"@ != "sw"@ && "addi"@ != "sb"@ && "addi"@ != "sh"@ && "addi"@ != "beq"@ && "addi"@ != "bne"@,
        alu_funct("slti"@) is None,
        "slti"@ != "sll"@ && "slti"@ != "srl"@ && "slti"@ != "sra"@ && "slti"@ != "sllv"@ && "slti"@ != "srlv"@ && "slti"@ != "srav"@ && "slti"@ != "jr"@ && "slti"@ != "jalr"@ && "slti"@ != "mfhi"@ && "slti"@ != "mflo"@ && "slti"@ != "mult"@ && "slti"@ != "multu"@ && "slti"@ != "div"@ && "slti"@ != "divu"@ && "slti"@ != "syscall"@ && "slti"@ != "addi"@ && "slti"@ != "sltiu"@ && "slti"@ != "xori"@ && "slti"@ != "lui"@ && "slti"@ != "li"@ && "slti"@ != "lb"@ && "slti"@ != "lh"@ && "slti"@ != "lw"@ && "slti"@ != "sw"@ && "slti"@ != "sb"@ && "slti"@ != "sh"@ && "slti"@ != "beq"@ && "slti"@ != "bne"@,
        alu_funct("sltiu"@) is None,
        "sltiu"@ != "sll"@ && "sltiu"@ != "srl"@ && "sltiu"@ != "sra"@ && "sltiu"@ != "sllv"@ && "sltiu"@ != "srlv"@ && "sltiu"@ != "srav"@ && "sltiu"@ != "jr"@ && "sltiu"@ != "jalr"@ && "sltiu"@ != "mfhi"@ && "sltiu"@ != "mflo"@ && "sltiu"@ != "mult"@ && "sltiu"@ != "multu"@ && "sltiu"@ != "div"@ && "sltiu"@ != "divu"@ && "sltiu"@ != "syscall"@ && "sltiu"@ != "addi"@ && "sltiu"@ != "slti"@ && "sltiu"@ != "xori"@ && "sltiu"@ != "lui"@ && "sltiu"@ != "li"@ && "sltiu"@ != "lb"@ && "sltiu"@ != "lh"@ && "sltiu"@ != "lw"@ && "sltiu"@ != "sw"@ && "sltiu"@ != "sb"@ && "sltiu"@ != "sh"@ && "sltiu"@ != "beq"@ && "sltiu"@ != "bne"@,
        alu_funct("xori"@) is None,
        "xori"@ != "sll"@ && "xori"@ != "srl"@ && "xori"@ != "sra"@ && "xori"@ != "sllv"@ && "xori"@ != "srlv"@ && "xori"@ != "srav"@ && "xori"@ != "jr"@ && "xori"@ != "jalr"@ && "xori"@ != "mfhi"@ && "xori"@ != "mflo"@ && "xori"@ != "mult"@ && "xori"@ != "multu"@ && "xori"@ != "div"@ && "xori"@ != "divu"@ && "xori"@ != "syscall"@ && "xori"@ != "addi"@ && "xori"@ != "slti"@ && "xori"@ != "sltiu"@ && "xori"@ != "lui"@ && "xori"@ != "li"@ && "xori"@ != "lb"@ && "xori"@ != "lh"@ && "xori"@ != "lw"@ && "xori"@ != "sw"@ && "xori"@ != "sb"@ && "xori"@ != "sh"@ && "xori"@ != "beq"@ && "xori"@ != "bne"@,
        alu_funct("beq"@) is None,
        "beq"@ != "sll"@ && "beq"@ != "srl"@ && "beq"@ != "sra"@ && "beq"@ != "sllv"@ && "beq"@ != "srlv"@ && "beq"@ != "srav"@ && "beq"@ != "jr"@ && "beq"@ != "jalr"@ && "beq"@ != "mfhi"@ && "beq"@ != "mflo"@ && "beq"@ != "mult"@ && "beq"@ != "multu"@ && "beq"@ != "div"@ && "beq"@ != "divu"@ && "beq"@ != "syscall"@ && "beq"@ != "addi"@ && "beq"@ != "slti"@ && "beq"@ != "sltiu"@ && "beq"@ != "xori"@ && "beq"@ != "lui"@ && "beq"@ != "li"@ && "beq"@ != "lb"@ && "beq"@ != "lh"@ && "beq"@ != "lw"@ && "beq"@ != "sw"@ && "beq"@ != "sb"@ && "beq"@ != "sh"@ && "beq"@ != "bne"@,
        alu_funct("bne"@) is None,
        "bne"@ != "sll"@ && "bne"@ != "srl"@ && "bne"@ != "sra"@ && "bne"@ != "sllv"@ && "bne"@ != "srlv"@ && "bne"@ != "srav"@ && "bne"@ != "jr"@ && "bne"@ != "jalr"@ && "bne"@ != "mfhi"@ && "bne"@ != "mflo"@ && "bne"@ != "mult"@ && "bne"@ != "multu"@ && "bne"@ != "div"@ && "bne"@ != "divu"@ && "bne"@ != "syscall"@ && "bne"@ != "addi"@ && "bne"@ != "slti"@ && "bne"@ != "sltiu"@ && "bne"@ != "xori"@ && "bne"@ != "lui"@ && "bne"@ != "li"@ && "bne"@ != "lb"@ && "bne"@ != "lh"@ && "bne"@ != "lw"@ && "bne"@ != "sw"@ && "bne"@ != "sb"@ && "bne"@ != "sh"@ && "bne"@ != "beq"@,
{
    reveal_strlit("add");
    reveal_strlit("sub");
    reveal_strlit("and");
    reveal_strlit("or");
    reveal_strlit("slt");
    reveal_strlit("sltu");
    reveal_strlit("nor");
    reveal_strlit("xor");
    reveal_strlit("sll");
    reveal_strlit("srl");
    reveal_strlit("sra");
    reveal_strlit("sllv");
    reveal_strlit("srlv");
    reveal_strlit("srav");
    reveal_strlit("jr");
    reveal_strlit("jalr");
    reveal_strlit("mfhi");
    reveal_strlit("mflo");
    reveal_strlit("mult");
    reveal_strlit("multu");
    reveal_strlit("div");
    reveal_strlit("divu");
    reveal_strlit("syscall");
    reveal_strlit("addi");
    reveal_strlit("slti");
    reveal_strlit("sltiu");
    reveal_strlit("xori");
    reveal_strlit("lui");
    reveal_strlit("li");
    reveal_strlit("lb");
    reveal_strlit("lh");
    reveal_strlit("lw");
    reveal_strlit("sw");
    reveal_strlit("sb");
    reveal_strlit("sh");
    reveal_strlit("beq");
    reveal_strlit("bne");
    assert("addi"@.len() != "add"@.len());
    assert("addi"@.len() != "sub"@.len());
    assert("addi"@.len() != "and"@.len());
    assert("addi"@.len() != "or"@.len());
    assert("addi"@.len() != "slt"@.len());
    assert("addi"@[0] != "sltu"@[0]);
    assert("addi"@.len() != "nor"@.len());
    assert("addi"@.len() != "xor"@.len());
    assert("addi"@.len() != "sll"@.len());
    assert("addi"@.len() != "srl"@.len());
    assert("addi"@.len() != "sra"@.len());
    assert("addi"@[0] != "sllv"@[0]);
    assert("addi"@[0] != "srlv"@[0]);
    assert("addi"@[0] != "srav"@[0]);
    assert("addi"@.len() != "jr"@.len());
    assert("addi"@[0] != "jalr"@[0]);
    assert("addi"@[0] != "mfhi"@[0]);
    assert("addi"@[0] != "mflo"@[0]);
    assert("addi"@[0] != "mult"@[0]);
    assert("addi"@.len() != "multu"@.len());
    assert("addi"@.len() != "div"@.len());
    assert("addi"@[0] != "divu"@[0]);
    assert("addi"@.len() != "syscall"@.len());
    assert("addi"@[0] != "slti"@[0]);
    assert("addi"@.len() != "sltiu"@.len());
    assert("addi"@[0] != "xori"@[0]);
    assert("addi"@.len() != "lui"@.len());
    assert("addi"@.len() != "li"@.len());
    assert("addi"@.len() != "lb"@.len());
    assert("addi"@.len() != "lh"@.len());
    assert("addi"@.len() != "lw"@.len());
    assert("addi"@.len() != "sw"@.len());
    assert("addi"@.len() != "sb"@.len());
    assert("addi"@.len() != "sh"@.len());
    assert("addi"@.len() != "beq"@.len());
    assert("addi"@.len() != "bne"@.len());
    assert("slti"@.len() != "add"@.len());
    assert("slti"@.len() != "sub"@.len());
    assert("slti"@.len() != "and"@.len());
    assert("slti"@.len() != "or"@.len());
    assert("slti"@.len() != "slt"@.len());
    assert("slti"@[3] != "sltu"@[3]);
    assert("slti"@.len() != "nor"@.len());
    assert("slti"@.len() != "xor"@.len());
    assert("slti"@.len() != "sll"@.len());
    assert("slti"@.len() != "srl"@.len());
    assert("slti"@.len() != "sra"@.len());
    assert("slti"@[2] != "sllv"@[2]);
    assert("slti"@[1] != "srlv"@[1]);
    assert("slti"@[1] != "srav"@[1]);
    assert("slti"@.len() != "jr"@.len());
    assert("slti"@[0] != "jalr"@[0]);
    assert("slti"@[0] != "mfhi"@[0]);
    assert("slti"@[0] != "mflo"@[0]);
    assert("slti"@[0] != "mult"@[0]);
    assert("slti"@.len() != "multu"@.len());
    assert("slti"@.len() != "div"@.len());
    assert("slti"@[0] != "divu"@[0]);
    assert("slti"@.len() != "syscall"@.len());
    assert("slti"@[0] != "addi"@[0]);
    assert("slti"@.len() != "sltiu"@.len());
    assert("slti"@[0] != "xori"@[0]);
    assert("slti"@.len() != "lui"@.len());
    assert("slti"@.len() != "li"@.len());
    assert("slti"@.len() != "lb"@.len());
    assert("slti"@.len() != "lh"@.len());
    assert("slti"@.len() != "lw"@.len());
    assert("slti"@.len() != "sw"@.len());
    assert("slti"@.len() != "sb"@.len());
    assert("slti"@.len() != "sh"@.len());
    assert("slti"@.len() != "beq"@.len());
    assert("slti"@.len() != "bne"@.len());
    assert("sltiu"@.len() != "add"@.len());
    assert("sltiu"@.len() != "sub"@.len());
    assert("sltiu"@.len() != "and"@.len());
    assert("sltiu"@.len() != "or"@.len());
    assert("sltiu"@.len() != "slt"@.len());
    assert("sltiu"@.len() != "sltu"@.len());
    assert("sltiu"@.len() != "nor"@.len());
    assert("sltiu"@.len() != "xor"@.len());
    assert("sltiu"@.len() != "sll"@.len());
    assert("sltiu"@.len() != "srl"@.len());
    assert("sltiu"@.len() != "sra"@.len());
    assert("sltiu"@.len() != "sllv"@.len());
    assert("sltiu"@.len() != "srlv"@.len());
    assert("sltiu"@.len() != "srav"@.len());
    assert("sltiu"@.len() != "jr"@.len());
    assert("sltiu"@.len() != "jalr"@.len());
    assert("sltiu"@.len() != "mfhi"@.len());
    assert("sltiu"@.len() != "mflo"@.len());
    assert("sltiu"@.len() != "mult"@.len());
    assert("sltiu"@[0] != "multu"@[0]);
    assert("sltiu"@.len() != "div"@.len());
    assert("sltiu"@.len() != "divu"@.len());
    assert("sltiu"@.len() != "syscall"@.len());
    assert("sltiu"@.len() != "addi"@.len());
    assert("sltiu"@.len() != "slti"@.len());
    assert("sltiu"@.len() != "xori"@.len());
    assert("sltiu"@.len() != "lui"@.len());
    assert("sltiu"@.len() != "li"@.len());
    assert("sltiu"@.len() != "lb"@.len());
    assert("sltiu"@.len() != "lh"@.len());
    assert("sltiu"@.len() != "lw"@.len());
    assert("sltiu"@.len() != "sw"@.len());
    assert("sltiu"@.len() != "sb"@.len());
    assert("sltiu"@.len() != "sh"@.len());
    assert("sltiu"@.len() != "beq"@.len());
    assert("sltiu"@.len() != "bne"@.len());
    assert("xori"@.len() != "add"@.len());
    assert("xori"@.len() != "sub"@.len());
    assert("xori"@.len() != "and"@.len());
    assert("xori"@.len() != "or"@.len());
    assert("xori"@.len() != "slt"@.len());
    assert("xori"@[0] != "sltu"@[0]);
    assert("xori"@.len() != "nor"@.len());
    assert("xori"@.len() != "xor"@.len());
    assert("xori"@.len() != "sll"@.len());
    assert("xori"@.len() != "srl"@.len());
    assert("xori"@.len() != "sra"@.len());
    assert("xori"@[0] != "sllv"@[0]);
    assert("xori"@[0] != "srlv"@[0]);
    assert("xori"@[0] != "srav"@[0]);
    assert("xori"@.len() != "jr"@.len());
    assert("xori"@[0] != "jalr"@[0]);
    assert("xori"@[0] != "mfhi"@[0]);
    assert("xori"@[0] != "mflo"@[0]);
    assert("xori"@[0] != "mult"@[0]);
    assert("xori"@.len() != "multu"@.len());
    assert("xori"@.len() != "div"@.len());
    assert("xori"@[0] != "divu"@[0]);
    assert("xori"@.len() != "syscall"@.len());
    assert("xori"@[0] != "addi"@[0]);
    assert("xori"@[0] != "slti"@[0]);
    assert("xori"@.len() != "sltiu"@.len());
    assert("xori"@.len() != "lui"@.len());
    assert("xori"@.len() != "li"@.len());
    assert("xori"@.len() != "lb"@.len());
    assert("xori"@.len() != "lh"@.len());
    assert("xori"@.len() != "lw"@.len());
    assert("xori"@.len() != "sw"@.len());
    assert("xori"@.len() != "sb"@.len());
    assert("xori"@.len() != "sh"@.len());
    assert("xori"@.len() != "beq"@.len());
    assert("xori"@.len() != "bne"@.len());
    assert("beq"@[0] != "add"@[0]);
    assert("beq"@[0] != "sub"@[0]);
    assert("beq"@[0] != "and"@[0]);
    assert("beq"@.len() != "or"@.len());
    assert("beq"@[0] != "slt"@[0]);
    assert("beq"@.len() != "sltu"@.len());
    assert("beq"@[0] != "nor"@[0]);
    assert("beq"@[0] != "xor"@[0]);
    assert("beq"@[0] != "sll"@[0]);
    assert("beq"@[0] != "srl"@[0]);
    assert("beq"@[0] != "sra"@[0]);
    assert("beq"@.len() != "sllv"@.len());
    assert("beq"@.len() != "srlv"@.len());
    assert("beq"@.len() != "srav"@.len());
    assert("beq"@.len() != "jr"@.len());
    assert("beq"@.len() != "jalr"@.len());
    assert("beq"@.len() != "mfhi"@.len());
    assert("beq"@.len() != "mflo"@.len());
    assert("beq"@.len() != "mult"@.len());
    assert("beq"@.len() != "multu"@.len());
    assert("beq"@[0] != "div"@[0]);
    assert("beq"@.len() != "divu"@.len());
    assert("beq"@.len() != "syscall"@.len());
    assert("beq"@.len() != "addi"@.len());
    assert("beq"@.len() != "slti"@.len());
    assert("beq"@.len() != "sltiu"@.len());
    assert("beq"@.len() != "xori"@.len());
    assert("beq"@[0] != "lui"@[0]);
    assert("beq"@.len() != "li"@.len());
    assert("beq"@.len() != "lb"@.len());
    assert("beq"@.len() != "lh"@.len());
    assert("beq"@.len() != "lw"@.len());
    assert("beq"@.len() != "sw"@.len());
    assert("beq"@.len() != "sb"@.len());
    assert("beq"@.len() != "sh"@.len());
    assert("beq"@[1] != "bne"@[1]);
    assert("bne"@[0] != "add"@[0]);
    assert("bne"@[0] != "sub"@[0]);
    assert("bne"@[0] != "and"@[0]);
    assert("bne"@.len() != "or"@.len());
    assert("bne"@[0] != "slt"@[0]);
    assert("bne"@.len() != "sltu"@.len());
    assert("bne"@[0] != "nor"@[0]);
    assert("bne"@[0] != "xor"@[0]);
    assert("bne"@[0] != "sll"@[0]);
    assert("bne"@[0] != "srl"@[0]);
    assert("bne"@[0] != "sra"@[0]);
    assert("bne"@.len() != "sllv"@.len());
    assert("bne"@.len() != "srlv"@.len());
    assert("bne"@.len() != "srav"@.len());
    assert("bne"@.len() != "jr"@.len());
    assert("bne"@.len() != "jalr"@.len());
    assert("bne"@.len() != "mfhi"@.len());
    assert("bne"@.len() != "mflo"@.len());
    assert("bne"@.len() != "mult"@.len());
    assert("bne"@.len() != "multu"@.len());
    assert("bne"@[0] != "div"@[0]);
    assert("bne"@.len() != "divu"@.len());
    assert("bne"@.len() != "syscall"@.len());
    assert("bne"@.len() != "addi"@.len());
    assert("bne"@.len() != "slti"@.len());
    assert("bne"@.len() != "sltiu"@.len());
    assert("bne"@.len() != "xori"@.len());
    assert("bne"@[0] != "lui"@[0]);
    assert("bne"@.len() != "li"@.len());
    assert("bne"@.len() != "lb"@.len());
    assert("bne"@.len() != "lh"@.len());
    assert("bne"@.len() != "lw"@.len());
    assert("bne"@.len() != "sw"@.len());
    assert("bne"@.len() != "sb"@.len());
    assert("bne"@.len() != "sh"@.len());
    assert("bne"@[1] != "beq"@[1]);
}

/// The fields of an I-type word are the ones encoded.
proof fn lemma_i_fields(op: u32, a: u32, b: u32, imm: u32)
    by (bit_vector)
    requires
        op < 64,
        a < 32,
        b < 32,
    ensures
        encode_i(op, a, b, imm) >> 26u32 == op,
        crate::mips::rs(encode_i(op, a, b, imm)) == a,
        crate::mips::rt(encode_i(op, a, b, imm)) == b,
        encode_i(op, a, b, imm) & 0xFFFFu32 == imm & 0xFFFFu32,
{
}

/// Assembling `addi`, `slti`, `sltiu` or `xori rt, rs, imm` gives an I-type
/// word with opcode 0x08, 0x0A, 0x0B, resp. 0x0E (the opcodes the simulator
/// runs as the wrapping add, the signed and unsigned comparison and the
/// exclusive-or with the immediate), rt and rs as named and the low
/// sixteen bits of the immediate; `beq` or `bne rs, rt, label` gives opcode
/// 0x04, resp. 0x05 (branch on equal, not equal) with rs and rt as named
/// and the label at operand 3 to patch as a branch offset.
pub proof fn lemma_imm_branch_mnemonics(mn: Seq<char>, t: Seq<Seq<char>>)
    requires
        t.len() == 4,
        mips_reg_of(t[1]) is Some,
        mips_reg_of(t[2]) is Some,
        mn == "addi"@ || mn == "slti"@ || mn == "sltiu"@ || mn == "xori"@ || mn == "beq"@ || mn == "bne"@,
        !(mn == "beq"@ || mn == "bne"@) ==> mips_imm_of(t[3]) is Some,
    ensures
        match mips_encode(mn, t) {
            Ok((w, label)) => {
                let op = w >> 26u32;
                let branch = mn == "beq"@ || mn == "bne"@;
                &&& !branch ==> label is None && crate::mips::rt(w) == mips_reg_of(t[1])->0 && crate::mips::rs(w)
                    == mips_reg_of(t[2])->0 && w & 0xFFFFu32 == mips_imm_of(t[3])->0 & 0xFFFFu32
                &&& branch ==> label == Some((3int, false)) && crate::mips::rs(w) == mips_reg_of(t[1])->0
                    && crate::mips::rt(w) == mips_reg_of(t[2])->0
                &&& mn == "addi"@ ==> op == 0x08
                &&& mn == "slti"@ ==> op == 0x0A
                &&& mn == "sltiu"@ ==> op == 0x0B
                &&& mn == "xori"@ ==> op == 0x0E
                &&& mn == "beq"@ ==> op == 0x04
                &&& mn == "bne"@ ==> op == 0x05
            },
            Err(_) => false,
        },
{
    lemma_imm_branch_names();
    lemma_reg_bound(t[1]);
    lemma_reg_bound(t[2]);
    let x = mips_reg_of(t[1])->0;
    let y = mips_reg_of(t[2])->0;
    assert(regs2(t, 1, 2) == Ok::<(u32, u32), Seq<char>>((x, y)));
    if mn == "beq"@ || mn == "bne"@ {
        let op: u32 = if mn == "beq"@ { 0x04 } else { 0x05 };
        lemma_i_fields(op, x, y, 0);
        assert(mips_encode(mn, t) == Ok::<(u32, Option<(int, bool)>), Seq<char>>((encode_i(op, x, y, 0), Some((3int, false)))));
    } else {
        let op: u32 = if mn == "addi"@ { 0x08 } else if mn == "slti"@ { 0x0A } else if mn == "sltiu"@ { 0x0B } else { 0x0E };
        let imm = mips_imm_of(t[3])->0;
        lemma_i_fields(op, y, x, imm);
        assert(mips_encode(mn, t) == Ok::<(u32, Option<(int, bool)>), Seq<char>>((encode_i(op, y, x, imm), None)));
    }
}

} // verus!

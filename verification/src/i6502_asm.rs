//! 6502 assembler: one instruction per line, `label:` prefixes, `.ORG` to
//! place code (gaps filled with zeros), `;` comments.
use vstd::prelude::*;
use crate::plugin::{AssemblerError, SourceMapEntry, ProgramImage};
use crate::text::{
    chars_of, split_lines, split_ws, to_upper, to_lower, trim_chars, find, slice_vec, eq_lit, starts_with_lit,
    upper_seq, lower_seq, trim, tokens, parse_unsigned, parse_uint, lines_spec, find_char, lemma_find_char,
};
use crate::asmutil::{strip_leading, strip_leading_0x, strip_leading_chars, strip_leading_0x_chars, asm_error, code_part, code_of};
use crate::labels::LabelTable;
use crate::scan::{ImageView, image_view, Scan, errs_view, lemma_errs_push, line_number, starts_with};
use crate::fmt::{Text, lit};
use crate::i8085_asm::{pad, hex4, org_back_msg, start_differs_msg};
use crate::i6502::I6502Plugin;

verus! {

/// An 8-bit operand: `$hh` or `0xhh` in hex, `#$hh` or `#d` immediate, or decimal.
pub open spec fn imm8_of(s: Seq<char>) -> Option<u8> {
    let t = trim(s);
    let l = lower_seq(t);
    let v = if (l.len() > 0 && l[0] == '$') || (l.len() >= 2 && l[0] == '0' && l[1] == 'x') {
        parse_unsigned(strip_leading_0x(strip_leading(t, '$')), 16, 255)
    } else if l.len() > 0 && l[0] == '#' {
        let rest = trim(t.drop_first());
        if rest.len() > 0 && rest[0] == '$' {
            parse_unsigned(strip_leading(rest, '$'), 16, 255)
        } else {
            parse_unsigned(rest, 10, 255)
        }
    } else {
        parse_unsigned(t, 10, 255)
    };
    match v {
        Some(n) => Some(n as u8),
        None => None,
    }
}

/// A 16-bit hex operand, with any leading `$` or `0x` removed.
pub open spec fn imm16_of(s: Seq<char>) -> Option<nat> {
    parse_unsigned(strip_leading_0x(strip_leading(trim(s), '$')), 16, 0xFFFF)
}

/// The immediate-only forms: `#` operand required.
pub open spec fn imm_form(name: Seq<char>, op: u8, arg: Seq<char>) -> Result<Seq<u8>, Seq<char>> {
    if arg.len() > 0 && arg[0] == '#' {
        match imm8_of(arg) {
            Some(v) => Ok(seq![op, v]),
            None => Err("Invalid "@ + name + " immediate"@),
        }
    } else {
        Err(name + " #imm only"@)
    }
}

/// The memory forms of LDA and STA: a `$` address below 0x100 takes the
/// zero-page opcode, any other operand the absolute one.
pub open spec fn addr_form(zp: u8, ab: u8, arg: Seq<char>) -> Seq<u8> {
    if arg.len() > 0 && arg[0] == '$' {
        match parse_unsigned(strip_leading(arg, '$'), 16, 0xFFFF) {
            Some(a) => if a < 0x100 {
                seq![zp, a as u8]
            } else {
                seq![ab, (a % 256) as u8, (a / 256) as u8]
            },
            None => seq![ab, 0u8, 0u8],
        }
    } else {
        seq![ab, 0u8, 0u8]
    }
}

/// The opcode of a mnemonic without operand.
pub open spec fn implied_op(mn: Seq<char>) -> Option<u8> {
    if mn == "NOP"@ {
        Some(0xEAu8)
    } else if mn == "BRK"@ {
        Some(0x00u8)
    } else if mn == "TAX"@ {
        Some(0xAAu8)
    } else if mn == "TAY"@ {
        Some(0xA8u8)
    } else if mn == "TXA"@ {
        Some(0x8Au8)
    } else if mn == "TYA"@ {
        Some(0x98u8)
    } else if mn == "INX"@ {
        Some(0xE8u8)
    } else if mn == "INY"@ {
        Some(0xC8u8)
    } else if mn == "RTS"@ {
        Some(0x60u8)
    } else if mn == "CLC"@ {
        Some(0x18u8)
    } else if mn == "SEC"@ {
        Some(0x38u8)
    } else if mn == "PHA"@ {
        Some(0x48u8)
    } else if mn == "PLA"@ {
        Some(0x68u8)
    } else {
        None
    }
}

/// The opcode of an immediate-only mnemonic.
pub open spec fn immediate_op(mn: Seq<char>) -> Option<u8> {
    if mn == "LDX"@ {
        Some(0xA2u8)
    } else if mn == "LDY"@ {
        Some(0xA0u8)
    } else if mn == "ADC"@ {
        Some(0x69u8)
    } else if mn == "SBC"@ {
        Some(0xE9u8)
    } else if mn == "ORA"@ {
        Some(0x09u8)
    } else if mn == "EOR"@ {
        Some(0x49u8)
    } else if mn == "AND"@ {
        Some(0x29u8)
    } else if mn == "CMP"@ {
        Some(0xC9u8)
    } else {
        None
    }
}

pub open spec fn branch_op(mn: Seq<char>) -> Option<u8> {
    if mn == "BCC"@ {
        Some(0x90u8)
    } else if mn == "BCS"@ {
        Some(0xB0u8)
    } else if mn == "BNE"@ {
        Some(0xD0u8)
    } else if mn == "BEQ"@ {
        Some(0xF0u8)
    } else {
        None
    }
}

/// The bytes of the instruction `mn arg` (labels left as zeros), or the error message.
pub open spec fn encode(mn: Seq<char>, arg: Seq<char>) -> Result<Seq<u8>, Seq<char>> {
    if implied_op(mn) is Some {
        Ok(seq![implied_op(mn)->0])
    } else if immediate_op(mn) is Some {
        imm_form(mn, immediate_op(mn)->0, arg)
    } else if branch_op(mn) is Some {
        Ok(seq![branch_op(mn)->0, 0u8])
    } else if mn == "LDA"@ {
        if arg.len() > 0 && arg[0] == '#' {
            match imm8_of(arg) {
                Some(v) => Ok(seq![0xA9u8, v]),
                None => Err("Invalid LDA immediate"@),
            }
        } else {
            Ok(addr_form(0xA5, 0xAD, arg))
        }
    } else if mn == "STA"@ {
        Ok(addr_form(0x85, 0x8D, arg))
    } else if mn == "JMP"@ || mn == "JSR"@ {
        let op: u8 = if mn == "JMP"@ { 0x4C } else { 0x20 };
        match imm16_of(strip_leading(arg, '$')) {
            Some(a) => Ok(seq![op, (a % 256) as u8, (a / 256) as u8]),
            None => Ok(seq![op, 0u8, 0u8]),
        }
    } else {
        Err("Unknown mnemonic: "@ + mn)
    }
}

/// Whether the encoding of `mn arg` leaves an address for a label: `Some(true)`
/// for a two-byte address, `Some(false)` for a branch offset.
pub open spec fn placeholder(mn: Seq<char>, arg: Seq<char>) -> Option<bool> {
    if branch_op(mn) is Some {
        Some(false)
    } else if mn == "JMP"@ || mn == "JSR"@ {
        if imm16_of(strip_leading(arg, '$')) is Some { None } else { Some(true) }
    } else if mn == "LDA"@ || mn == "STA"@ {
        if mn == "LDA"@ && arg.len() > 0 && arg[0] == '#' {
            None
        } else if arg.len() > 0 && arg[0] == '$' && parse_unsigned(strip_leading(arg, '$'), 16, 0xFFFF) is Some {
            None
        } else {
            Some(true)
        }
    } else {
        None
    }
}

/// The label name an address operand refers to.
pub open spec fn ref_label(arg: Seq<char>) -> Seq<char> {
    strip_leading(trim(arg), '$')
}

/// The operand text of an instruction: its second whitespace token.
pub open spec fn arg_of(toks: Seq<Seq<char>>) -> Seq<char> {
    if toks.len() > 1 {
        trim(toks[1])
    } else {
        Seq::empty()
    }
}

/// An operand waiting for a label: where it is, the name, and whether it is
/// a two-byte address (else a one-byte branch offset).
pub struct Ref6502 {
    pub offset: usize,
    pub label: Vec<char>,
    pub wide: bool,
}

fn imm8(s: &[char]) -> (r: Option<u8>)
    ensures
        r == imm8_of(s@),
{
    let t = trim_chars(s);
    let l = to_lower(t.as_slice());
    let v = if (l.len() > 0 && l[0] == '$') || (l.len() >= 2 && l[0] == '0' && l[1] == 'x') {
        let a = strip_leading_chars(t.as_slice(), '$');
        let b = strip_leading_0x_chars(a.as_slice());
        parse_uint(b.as_slice(), 16, 255)
    } else if l.len() > 0 && l[0] == '#' {
        let r0 = slice_vec(t.as_slice(), 1, t.len());
        assert(r0@ =~= t@.drop_first());
        let rest = trim_chars(r0.as_slice());
        if rest.len() > 0 && rest[0] == '$' {
            let h = strip_leading_chars(rest.as_slice(), '$');
            parse_uint(h.as_slice(), 16, 255)
        } else {
            parse_uint(rest.as_slice(), 10, 255)
        }
    } else {
        parse_uint(t.as_slice(), 10, 255)
    };
    match v {
        Some(n) => Some(n as u8),
        None => None,
    }
}

fn imm16(s: &[char]) -> (r: Option<u64>)
    ensures
        match r {
            Some(v) => imm16_of(s@) == Some(v as nat),
            None => imm16_of(s@) is None,
        },
{
    let t = trim_chars(s);
    let a = strip_leading_chars(t.as_slice(), '$');
    let b = strip_leading_0x_chars(a.as_slice());
    parse_uint(b.as_slice(), 16, 0xFFFF)
}

fn hex_addr(arg: &[char]) -> (r: Option<u64>)
    ensures
        match r {
            Some(v) => parse_unsigned(strip_leading(arg@, '$'), 16, 0xFFFF) == Some(v as nat),
            None => parse_unsigned(strip_leading(arg@, '$'), 16, 0xFFFF) is None,
        },
{
    let h = strip_leading_chars(arg, '$');
    parse_uint(h.as_slice(), 16, 0xFFFF)
}

fn implied_opcode(mn: &[char]) -> (r: Option<u8>)
    ensures
        r == implied_op(mn@),
{
    if eq_lit(mn, "NOP") {
        Some(0xEA)
    } else if eq_lit(mn, "BRK") {
        Some(0x00)
    } else if eq_lit(mn, "TAX") {
        Some(0xAA)
    } else if eq_lit(mn, "TAY") {
        Some(0xA8)
    } else if eq_lit(mn, "TXA") {
        Some(0x8A)
    } else if eq_lit(mn, "TYA") {
        Some(0x98)
    } else if eq_lit(mn, "INX") {
        Some(0xE8)
    } else if eq_lit(mn, "INY") {
        Some(0xC8)
    } else if eq_lit(mn, "RTS") {
        Some(0x60)
    } else if eq_lit(mn, "CLC") {
        Some(0x18)
    } else if eq_lit(mn, "SEC") {
        Some(0x38)
    } else if eq_lit(mn, "PHA") {
        Some(0x48)
    } else if eq_lit(mn, "PLA") {
        Some(0x68)
    } else {
        None
    }
}

fn immediate_opcode(mn: &[char]) -> (r: Option<u8>)
    ensures
        r == immediate_op(mn@),
{
    if eq_lit(mn, "LDX") {
        Some(0xA2)
    } else if eq_lit(mn, "LDY") {
        Some(0xA0)
    } else if eq_lit(mn, "ADC") {
        Some(0x69)
    } else if eq_lit(mn, "SBC") {
        Some(0xE9)
    } else if eq_lit(mn, "ORA") {
        Some(0x09)
    } else if eq_lit(mn, "EOR") {
        Some(0x49)
    } else if eq_lit(mn, "AND") {
        Some(0x29)
    } else if eq_lit(mn, "CMP") {
        Some(0xC9)
    } else {
        None
    }
}

fn branch_opcode(mn: &[char]) -> (r: Option<u8>)
    ensures
        r == branch_op(mn@),
{
    if eq_lit(mn, "BCC") {
        Some(0x90)
    } else if eq_lit(mn, "BCS") {
        Some(0xB0)
    } else if eq_lit(mn, "BNE") {
        Some(0xD0)
    } else if eq_lit(mn, "BEQ") {
        Some(0xF0)
    } else {
        None
    }
}

fn addr_bytes(zp: u8, ab: u8, arg: &[char]) -> (r: Vec<u8>)
    ensures
        r@ == addr_form(zp, ab, arg@),
{
    if arg.len() > 0 && arg[0] == '$' {
        match hex_addr(arg) {
            Some(a) => if a < 0x100 {
                vec![zp, a as u8]
            } else {
                vec![ab, (a % 256) as u8, (a / 256) as u8]
            },
            None => vec![ab, 0u8, 0u8],
        }
    } else {
        vec![ab, 0u8, 0u8]
    }
}

/// The bytes of one instruction, or the error message.
pub fn encode_6502(mn: &[char], arg: &[char]) -> (r: Result<Vec<u8>, String>)
    ensures
        match r {
            Ok(b) => encode(mn@, arg@) == Ok::<Seq<u8>, Seq<char>>(b@),
            Err(m) => encode(mn@, arg@) == Err::<Seq<u8>, Seq<char>>(m@),
        },
{
    if let Some(op) = implied_opcode(mn) {
        let v = vec![op];
        assert(v@ =~= seq![op]);
        return Ok(v);
    }
    if let Some(op) = immediate_opcode(mn) {
        if arg.len() > 0 && arg[0] == '#' {
            return match imm8(arg) {
                Some(v) => Ok(vec![op, v]),
                None => Err(Text::new().s("Invalid ").all(mn).s(" immediate").done()),
            };
        } else {
            return Err(Text::new().all(mn).s(" #imm only").done());
        }
    }
    if let Some(op) = branch_opcode(mn) {
        return Ok(vec![op, 0u8]);
    }
    if eq_lit(mn, "LDA") {
        if arg.len() > 0 && arg[0] == '#' {
            match imm8(arg) {
                Some(v) => Ok(vec![0xA9u8, v]),
                None => Err(lit("Invalid LDA immediate")),
            }
        } else {
            Ok(addr_bytes(0xA5, 0xAD, arg))
        }
    } else if eq_lit(mn, "STA") {
        Ok(addr_bytes(0x85, 0x8D, arg))
    } else if eq_lit(mn, "JMP") || eq_lit(mn, "JSR") {
        let op: u8 = if eq_lit(mn, "JMP") { 0x4C } else { 0x20 };
        let a0 = strip_leading_chars(arg, '$');
        match imm16(a0.as_slice()) {
            Some(a) => Ok(vec![op, (a % 256) as u8, (a / 256) as u8]),
            None => Ok(vec![op, 0u8, 0u8]),
        }
    } else {
        Err(Text::new().s("Unknown mnemonic: ").all(mn).done())
    }
}

fn placeholder_of(mn: &[char], arg: &[char]) -> (r: Option<bool>)
    ensures
        r == placeholder(mn@, arg@),
{
    if branch_opcode(mn).is_some() {
        Some(false)
    } else if eq_lit(mn, "JMP") || eq_lit(mn, "JSR") {
        let a0 = strip_leading_chars(arg, '$');
        if imm16(a0.as_slice()).is_some() { None } else { Some(true) }
    } else if eq_lit(mn, "LDA") || eq_lit(mn, "STA") {
        if eq_lit(mn, "LDA") && arg.len() > 0 && arg[0] == '#' {
            None
        } else if arg.len() > 0 && arg[0] == '$' && hex_addr(arg).is_some() {
            None
        } else {
            Some(true)
        }
    } else {
        None
    }
}

/// Encodes one instruction at `pc`: its bytes are appended, a source map
/// entry is recorded, and an operand naming a label is remembered for patching.
pub fn parse_6502_instruction(
    line: &[char],
    line_num: u32,
    col: u32,
    pc: u32,
    bytes: &mut Vec<u8>,
    source_map: &mut Vec<SourceMapEntry>,
    pending: &mut Vec<Ref6502>,
) -> (res: Result<(), AssemblerError>)
    ensures
        ({
            let toks = tokens(line@);
            let mn = upper_seq(toks[0]);
            let arg = arg_of(toks);
            if toks.len() == 0 {
                &&& res is Ok
                &&& final(bytes)@ == old(bytes)@
                &&& final(source_map)@ == old(source_map)@
                &&& final(pending)@ == old(pending)@
            } else {
                &&& final(source_map)@ == old(source_map)@.push(SourceMapEntry { pc, line: line_num, column: col })
                &&& match encode(mn, arg) {
                    Ok(bs) => res is Ok && final(bytes)@ == old(bytes)@ + bs,
                    Err(msg) => (res matches Err(e) && e.line == line_num && e.column == col && e.message@ == msg)
                        && final(bytes)@ == old(bytes)@,
                }
                &&& final(pending)@.len() == old(pending)@.len() + (if encode(mn, arg) is Ok
                    && placeholder(mn, arg) is Some && parse_unsigned(ref_label(arg), 16, 0xFFFF) is None { 1int } else { 0int })
                &&& forall|i: int| 0 <= i < old(pending)@.len() ==> #[trigger] final(pending)@[i] == old(pending)@[i]
                &&& final(pending)@.len() > old(pending)@.len() ==> {
                    let p = final(pending)@.last();
                    &&& p.offset == old(bytes)@.len() + 1
                    &&& p.label@ == ref_label(arg)
                    &&& placeholder(mn, arg) == Some(p.wide)
                }
            }
        }),
{
    let parts = split_ws(line);
    if parts.len() == 0 {
        return Ok(());
    }
    let mn = to_upper(parts[0].as_slice());
    let arg: Vec<char> = if parts.len() > 1 { trim_chars(parts[1].as_slice()) } else { Vec::new() };
    assert(arg@ == arg_of(tokens(line@)));
    source_map.push(SourceMapEntry { pc, line: line_num, column: col });
    match encode_6502(mn.as_slice(), arg.as_slice()) {
        Err(m) => Err(asm_error(line_num, col, m)),
        Ok(bs) => {
            let start = bytes.len();
            let ghost b0 = bytes@;
            let mut i: usize = 0;
            while i < bs.len()
                invariant
                    i <= bs@.len(),
                    bytes@ == b0 + bs@.subrange(0, i as int),
                decreases bs@.len() - i,
            {
                bytes.push(bs[i]);
                assert(bs@.subrange(0, i + 1) =~= bs@.subrange(0, i as int).push(bs@[i as int]));
                i = i + 1;
            }
            assert(bs@.subrange(0, bs@.len() as int) =~= bs@);
            match placeholder_of(mn.as_slice(), arg.as_slice()) {
                Some(wide) => {
                    let end = bytes.len();
                    assert(end == start + bs@.len() && bs@.len() >= 1);
                    let t = trim_chars(arg.as_slice());
                    let label = strip_leading_chars(t.as_slice(), '$');
                    if parse_uint(label.as_slice(), 16, 0xFFFF).is_none() {
                        pending.push(Ref6502 { offset: start + 1, label, wide });
                    }
                },
                None => {},
            }
            Ok(())
        },
    }
}

/// A pending reference seen as the offset of its operand, its label, and
/// whether it is a 16-bit address (else a branch offset).
pub type Ref6502View = (int, Seq<char>, bool);

pub open spec fn ref6502_view(p: Ref6502) -> Ref6502View {
    (p.offset as int, p.label@, p.wide)
}

pub open spec fn refs6502_view(ps: Seq<Ref6502>) -> Seq<Ref6502View> {
    ps.map_values(|p: Ref6502| ref6502_view(p))
}

/// The first pass of the 6502 assembler: the gathered state and whether
/// `.ORG` has set the origin (kept in `start`).
pub type Scan6502 = (Scan<Ref6502View>, bool);

pub open spec fn i6502_init() -> Scan6502 {
    (
        Scan {
            bytes: Seq::empty(),
            smap: Seq::empty(),
            errors: Seq::empty(),
            labels: Map::empty(),
            refs: Seq::empty(),
            start: 0,
            pc: 0,
            ended: false,
        },
        false,
    )
}

/// One instruction at the current address; the address moves on by the
/// bytes it took. An operand that is not a hex number is a label to patch.
#[verifier::opaque]
pub open spec fn i6502_instr(st: Scan<Ref6502View>, body: Seq<char>, ln: u32) -> Scan<Ref6502View> {
    let toks = tokens(body);
    if toks.len() == 0 {
        st
    } else {
        let mn = upper_seq(toks[0]);
        let arg = arg_of(toks);
        let smap = st.smap.push(SourceMapEntry { pc: st.pc, line: ln, column: 1 });
        match encode(mn, arg) {
            Ok(bs) => Scan {
                bytes: st.bytes + bs,
                smap,
                refs: if placeholder(mn, arg) is Some && parse_unsigned(ref_label(arg), 16, 0xFFFF) is None {
                    st.refs.push((st.bytes.len() + 1int, ref_label(arg), placeholder(mn, arg).unwrap()))
                } else {
                    st.refs
                },
                pc: ((st.pc + bs.len()) % 0x1_0000_0000) as u32,
                ..st
            },
            Err(msg) => Scan { smap, errors: st.errors.push((ln, 1u32, msg)), ..st },
        }
    }
}

/// The address of an `.ORG` operand: hex, with an optional `$` or `0x`.
pub open spec fn org_addr(a: Seq<char>) -> Option<nat> {
    parse_unsigned(strip_leading_0x(strip_leading(a, '$')), 16, 0xFFFF)
}

/// One source line (index `i`) of the first pass. A line with a `:` defines
/// the label before it (when not empty) and assembles what follows; `.ORG`
/// sets the origin the first time (while nothing is emitted), later it pads
/// forward with zeros.
pub open spec fn i6502_line(s: Scan6502, i: int, raw: Seq<char>) -> Scan6502 {
    let (st, org_set) = s;
    let line = code_of(raw, ';');
    let ln = line_number(i);
    if line.len() == 0 {
        s
    } else {
        match find_char(line, ':') {
            Some(idx) => {
                let label = trim(line.subrange(0, idx));
                let st1 = if label.len() > 0 { Scan { labels: st.labels.insert(label, st.pc), ..st } } else { st };
                let rest = trim(line.subrange(idx + 1, line.len() as int));
                if rest.len() == 0 {
                    (st1, org_set)
                } else {
                    (i6502_instr(st1, rest, ln), org_set)
                }
            },
            None => {
                if starts_with(upper_seq(line), ".ORG "@) {
                    let parts = tokens(line);
                    if parts.len() >= 2 && org_addr(parts[1]) is Some {
                        let addr = org_addr(parts[1]).unwrap() as u32;
                        if !org_set && st.bytes.len() == 0 {
                            (Scan { start: addr, pc: addr, ..st }, true)
                        } else if addr >= st.pc {
                            (Scan { bytes: st.bytes + Seq::new((addr - st.pc) as nat, |k: int| 0u8), pc: addr, ..st }, org_set)
                        } else {
                            (Scan { errors: st.errors.push((ln, 1u32, org_back_msg(st.pc, addr))), ..st }, org_set)
                        }
                    } else {
                        s
                    }
                } else {
                    (i6502_instr(st, line, ln), org_set)
                }
            },
        }
    }
}

/// The first pass over the first `n` lines.
pub open spec fn i6502_scan(lines: Seq<Seq<char>>, n: nat) -> Scan6502
    decreases n,
{
    if n == 0 || n > lines.len() {
        i6502_init()
    } else {
        i6502_line(i6502_scan(lines, (n - 1) as nat), n - 1, lines[n - 1])
    }
}

/// `v` as a 32-bit two's complement value.
pub open spec fn wrap32(v: int) -> int {
    (v + 0x8000_0000) % 0x1_0000_0000 - 0x8000_0000
}

/// The distance, as a 32-bit two's complement value, from the instruction
/// after a branch whose offset byte is at image offset `off` (that is, from
/// address `origin + off + 1`) to `target`.
pub open spec fn branch_distance(target: u32, origin: u32, off: int) -> int {
    wrap32(target - (origin + off + 1))
}

/// The second pass for one reference: a 16-bit address written
/// little-endian, or the branch distance written as a signed byte when it
/// fits one; an undefined label is an error at line 0.
pub open spec fn i6502_patch(
    b: Seq<u8>,
    es: Seq<(u32, u32, Seq<char>)>,
    labels: Map<Seq<char>, u32>,
    origin: u32,
    r: Ref6502View,
) -> (Seq<u8>, Seq<(u32, u32, Seq<char>)>) {
    let (off, label, wide) = r;
    if labels.contains_key(label) {
        let target = labels[label];
        if wide {
            if off < b.len() && off + 1 < b.len() {
                (b.update(off, (target & 0xFFu32) as u8).update(off + 1, (target >> 8u32) as u8), es)
            } else {
                (b, es)
            }
        } else {
            let rel = branch_distance(target, origin, off);
            if -128 <= rel <= 127 && off < b.len() {
                (b.update(off, (rel % 256) as u8), es)
            } else {
                (b, es)
            }
        }
    } else {
        (b, es.push((0u32, 1u32, "Unknown label: "@ + label)))
    }
}

/// The second pass over a list of references, in order.
pub open spec fn i6502_patch_all(
    b: Seq<u8>,
    es: Seq<(u32, u32, Seq<char>)>,
    labels: Map<Seq<char>, u32>,
    origin: u32,
    refs: Seq<Ref6502View>,
) -> (Seq<u8>, Seq<(u32, u32, Seq<char>)>)
    decreases refs.len(),
{
    if refs.len() == 0 {
        (b, es)
    } else {
        let (b1, e1) = i6502_patch_all(b, es, labels, origin, refs.drop_last());
        i6502_patch(b1, e1, labels, origin, refs.last())
    }
}

fn branch_distance_of(target: u32, origin: u32, off: usize) -> (d: i64)
    ensures
        d == branch_distance(target, origin, off as int),
        -0x8000_0000 <= d < 0x8000_0000,
{
    let o: u64 = off as u64 % 0x1_0000_0000;
    let e: u64 = target as u64 + 0x2_8000_0000 - origin as u64 - o - 1;
    let w: u64 = e % 0x1_0000_0000;
    proof {
        let k: int = off as int / 0x1_0000_0000;
        assert(off as int == k * 0x1_0000_0000 + o) by (nonlinear_arith)
            requires
                o == off as int % 0x1_0000_0000,
                k == off as int / 0x1_0000_0000,
        ;
        let v: int = target - (origin + off + 1) + 0x8000_0000;
        assert(v == e - (k + 2) * 0x1_0000_0000);
        assert(v % 0x1_0000_0000 == e as int % 0x1_0000_0000) by (nonlinear_arith)
            requires
                v == e - (k + 2) * 0x1_0000_0000,
        ;
    }
    w as i64 - 0x8000_0000
}

/// Fills in a label's address or branch offset.
fn patch(bytes: &mut Vec<u8>, errors: &mut Vec<AssemblerError>, labels: &LabelTable, origin: u32, r: &Ref6502)
    requires
        labels.wf(),
    ensures
        (final(bytes)@, errs_view(final(errors)@)) == i6502_patch(old(bytes)@, errs_view(old(errors)@), labels.view(), origin, ref6502_view(*r)),
        final(bytes)@.len() == old(bytes)@.len(),
{
    match labels.get(r.label.as_slice()) {
        Some(target) => {
            if r.wide {
                if r.offset < bytes.len() && r.offset + 1 < bytes.len() {
                    bytes.set(r.offset, (target & 0xFFu32) as u8);
                    bytes.set(r.offset + 1, (target >> 8u32) as u8);
                }
            } else {
                let rel = branch_distance_of(target, origin, r.offset);
                if -128 <= rel && rel <= 127 && r.offset < bytes.len() {
                    let byte: u8 = if rel < 0 { (rel + 256) as u8 } else { rel as u8 };
                    bytes.set(r.offset, byte);
                }
            }
        },
        None => {
            let e = asm_error(0, 1, Text::new().s("Unknown label: ").all(r.label.as_slice()).done());
            proof { lemma_errs_push(errors@, e); }
            errors.push(e);
        },
    }
}

/// The first-pass state that the assembler's working values stand for.
pub open spec fn i6502_scan_of(
    bytes: Seq<u8>,
    smap: Seq<SourceMapEntry>,
    errors: Seq<AssemblerError>,
    labels: Map<Seq<char>, u32>,
    refs: Seq<Ref6502>,
    origin: u32,
    pc: u32,
    origin_set: bool,
) -> Scan6502 {
    (
        Scan {
            bytes,
            smap,
            errors: errs_view(errors),
            labels,
            refs: refs6502_view(refs),
            start: origin,
            pc,
            ended: false,
        },
        origin_set,
    )
}

/// The first pass over one source line.
#[verifier::spinoff_prover]
fn scan_line(
    raw: &[char],
    li: usize,
    bytes: &mut Vec<u8>,
    source_map: &mut Vec<SourceMapEntry>,
    errors: &mut Vec<AssemblerError>,
    labels: &mut LabelTable,
    pending: &mut Vec<Ref6502>,
    origin: &mut u32,
    pc: &mut u32,
    origin_set: &mut bool,
)
    requires
        old(labels).wf(),
        li < usize::MAX,
    ensures
        final(labels).wf(),
        i6502_scan_of(final(bytes)@, final(source_map)@, final(errors)@, final(labels).view(), final(pending)@, *final(origin), *final(pc), *final(origin_set))
            == i6502_line(
            i6502_scan_of(old(bytes)@, old(source_map)@, old(errors)@, old(labels).view(), old(pending)@, *old(origin), *old(pc), *old(origin_set)),
            li as int,
            raw@,
        ),
{
    let ghost st = i6502_scan_of(bytes@, source_map@, errors@, labels.view(), pending@, *origin, *pc, *origin_set);
    let line_num: u32 = ((li as u64 + 1) % 0x1_0000_0000) as u32;
    let line = code_part(raw, ';');
    proof {
        lemma_find_char(line@, ':');
    }
    if line.len() == 0 {
        return;
    }
    let col: u32 = 1;
    let body: Vec<char> = match find(line.as_slice(), ':') {
        Some(idx) => {
            let lab = slice_vec(line.as_slice(), 0, idx);
            let label = trim_chars(lab.as_slice());
            if label.len() > 0 {
                labels.insert(label, *pc);
            }
            let rest0 = slice_vec(line.as_slice(), idx + 1, line.len());
            let rest = trim_chars(rest0.as_slice());
            if rest.len() == 0 {
                return;
            }
            rest
        },
        None => {
            let up = to_upper(line.as_slice());
            if starts_with_lit(up.as_slice(), ".ORG ") {
                let parts = split_ws(line.as_slice());
                if parts.len() >= 2 {
                    let a0 = strip_leading_chars(parts[1].as_slice(), '$');
                    let a1 = strip_leading_0x_chars(a0.as_slice());
                    match parse_uint(a1.as_slice(), 16, 0xFFFF) {
                        Some(a) => {
                            let addr = a as u32;
                            if !*origin_set && bytes.len() == 0 {
                                *origin = addr;
                                *pc = addr;
                                *origin_set = true;
                            } else if addr >= *pc {
                                pad(bytes, addr - *pc);
                                *pc = addr;
                            } else {
                                let m = Text::new().s(".ORG cannot move PC backwards (0x").string(&hex4(*pc)).s(" -> 0x").string(
                                    &hex4(addr),
                                ).s(")").done();
                                let e = asm_error(line_num, col, m);
                                proof {
                                    lemma_errs_push(errors@, e);
                                }
                                errors.push(e);
                            }
                        },
                        None => {},
                    }
                }
                return;
            }
            line
        },
    };
    let ghost st1 = i6502_scan_of(bytes@, source_map@, errors@, labels.view(), pending@, *origin, *pc, *origin_set).0;
    scan_instr(body.as_slice(), line_num, bytes, source_map, errors, pending, pc, Ghost(st1));
}

/// One instruction of the first pass at `pc`, which moves on by the bytes it took.
fn scan_instr(
    body: &[char],
    line_num: u32,
    bytes: &mut Vec<u8>,
    source_map: &mut Vec<SourceMapEntry>,
    errors: &mut Vec<AssemblerError>,
    pending: &mut Vec<Ref6502>,
    pc: &mut u32,
    Ghost(st): Ghost<Scan<Ref6502View>>,
)
    requires
        st.bytes == old(bytes)@,
        st.smap == old(source_map)@,
        st.errors == errs_view(old(errors)@),
        st.refs == refs6502_view(old(pending)@),
        st.pc == *old(pc),
    ensures
        ({
            let st2 = i6502_instr(st, body@, line_num);
            &&& final(bytes)@ == st2.bytes
            &&& final(source_map)@ == st2.smap
            &&& errs_view(final(errors)@) == st2.errors
            &&& refs6502_view(final(pending)@) == st2.refs
            &&& *final(pc) == st2.pc
            &&& st2.labels == st.labels
            &&& st2.start == st.start
            &&& st2.ended == st.ended
        }),
{
    reveal(i6502_instr);
    let start_len = bytes.len();
    let ghost p0 = pending@;
    match parse_6502_instruction(body, line_num, 1, *pc, bytes, source_map, pending) {
        Err(e) => {
            proof {
                lemma_errs_push(errors@, e);
            }
            errors.push(e);
        },
        Ok(()) => {},
    }
    proof {
        let toks = tokens(body@);
        if toks.len() > 0 {
            let mn = upper_seq(toks[0]);
            let arg = arg_of(toks);
            if encode(mn, arg) is Ok && placeholder(mn, arg) is Some && parse_unsigned(ref_label(arg), 16, 0xFFFF) is None {
                assert(refs6502_view(pending@) =~= refs6502_view(p0).push((start_len + 1int, ref_label(arg), placeholder(mn, arg).unwrap())));
            } else {
                assert(refs6502_view(pending@) =~= refs6502_view(p0));
            }
        }
    }
    *pc = ((*pc as u64 + (bytes.len() - start_len) as u64) % 0x1_0000_0000) as u32;
}


/// What assembling 6502 source gives.
pub open spec fn i6502_image(source: Seq<char>) -> ImageView {
    let lines = lines_spec(source);
    let (sc, org_set) = i6502_scan(lines, lines.len());
    let fin = i6502_patch_all(sc.bytes, sc.errors, sc.labels, sc.start, sc.refs);
    let has_start = sc.labels.contains_key("_start"@);
    let st = sc.labels["_start"@];
    (fin.0, sc.smap, if org_set && has_start && st != sc.start { fin.1.push((0u32, 1u32, start_differs_msg(st, sc.start))) } else { fin.1 }, if has_start { st } else { sc.start })
}

impl I6502Plugin {
    /// Assembles 6502 source text into a program image: a first pass over
    /// the lines, then each label operand patched in order; the entry point
    /// is `_start` when defined, else the origin, and an error notes a
    /// `_start` away from an `.ORG` origin.
    pub fn assemble(&self, source: &str) -> (img: ProgramImage)
        ensures
            image_view(img) == i6502_image(source@),
    {
        let src = chars_of(source);
        let lines = split_lines(src.as_slice());
        let ghost ls = lines_spec(source@);
        let mut bytes: Vec<u8> = Vec::new();
        let mut source_map: Vec<SourceMapEntry> = Vec::new();
        let mut errors: Vec<AssemblerError> = Vec::new();
        let mut labels = LabelTable::new();
        let mut pending: Vec<Ref6502> = Vec::new();
        let mut pc: u32 = 0;
        let mut origin: u32 = 0;
        let mut origin_set = false;
        let mut li: usize = 0;
        proof {
            assert(errs_view(errors@) =~= Seq::empty());
            assert(refs6502_view(pending@) =~= Seq::empty());
        }
        while li < lines.len()
            invariant
                labels.wf(),
                li <= lines@.len(),
                lines@.len() == ls.len(),
                forall|k: int| 0 <= k < lines@.len() ==> #[trigger] lines@[k]@ == ls[k],
                i6502_scan(ls, li as nat) == i6502_scan_of(bytes@, source_map@, errors@, labels.view(), pending@, origin, pc, origin_set),
            decreases lines@.len() - li,
        {
            scan_line(lines[li].as_slice(), li, &mut bytes, &mut source_map, &mut errors, &mut labels, &mut pending, &mut origin, &mut pc, &mut origin_set);
            li = li + 1;
        }
        let ghost sc = i6502_scan(ls, ls.len()).0;
        let ghost refs = sc.refs;
        let mut k: usize = 0;
        proof {
            assert(refs.subrange(0, 0) =~= Seq::<Ref6502View>::empty());
        }
        while k < pending.len()
            invariant
                labels.wf(),
                labels.view() == sc.labels,
                origin == sc.start,
                k <= pending@.len(),
                refs == refs6502_view(pending@),
                (bytes@, errs_view(errors@)) == i6502_patch_all(sc.bytes, sc.errors, sc.labels, sc.start, refs.subrange(0, k as int)),
            decreases pending@.len() - k,
        {
            patch(&mut bytes, &mut errors, &labels, origin, &pending[k]);
            proof {
                assert(refs.subrange(0, k + 1).drop_last() =~= refs.subrange(0, k as int));
                assert(refs.subrange(0, k + 1).last() == ref6502_view(pending@[k as int]));
            }
            k = k + 1;
        }
        proof {
            assert(refs.subrange(0, refs.len() as int) =~= refs);
        }
        let start_name = chars_of("_start");
        let start = labels.get(start_name.as_slice());
        if origin_set {
            match start {
                Some(st) => {
                    if st != origin {
                        let m = Text::new().s("_start label (0x").string(&hex4(st)).s(") differs from .ORG origin (0x").string(
                            &hex4(origin),
                        ).s("); simulator loads+starts at entry_pc only").done();
                        let e = asm_error(0, 1, m);
                        proof {
                            lemma_errs_push(errors@, e);
                        }
                        errors.push(e);
                    }
                },
                None => {},
            }
        }
        let entry_pc = match start {
            Some(a) => a,
            None => origin,
        };
        ProgramImage { bytes, entry_pc, source_map, errors }
    }
}

/// The branch mnemonics are not implied or immediate mnemonics, and their
/// opcodes.
proof fn lemma_branch_names()
    ensures
        implied_op("BCC"@) is None && immediate_op("BCC"@) is None && branch_op("BCC"@) == Some(0x90u8),
        implied_op("BCS"@) is None && immediate_op("BCS"@) is None && branch_op("BCS"@) == Some(0xB0u8),
        implied_op("BNE"@) is None && immediate_op("BNE"@) is None && branch_op("BNE"@) == Some(0xD0u8),
        implied_op("BEQ"@) is None && immediate_op("BEQ"@) is None && branch_op("BEQ"@) == Some(0xF0u8),
{
    reveal_strlit("NOP");
    reveal_strlit("BRK");
    reveal_strlit("TAX");
    reveal_strlit("TAY");
    reveal_strlit("TXA");
    reveal_strlit("TYA");
    reveal_strlit("INX");
    reveal_strlit("INY");
    reveal_strlit("RTS");
    reveal_strlit("CLC");
    reveal_strlit("SEC");
    reveal_strlit("PHA");
    reveal_strlit("PLA");
    reveal_strlit("LDX");
    reveal_strlit("LDY");
    reveal_strlit("ADC");
    reveal_strlit("SBC");
    reveal_strlit("ORA");
    reveal_strlit("EOR");
    reveal_strlit("AND");
    reveal_strlit("CMP");
    reveal_strlit("BCC");
    reveal_strlit("BCS");
    reveal_strlit("BNE");
    reveal_strlit("BEQ");
    assert("BCC"@[0] != "NOP"@[0]);
    assert("BCC"@[1] != "BRK"@[1]);
    assert("BCC"@[0] != "TAX"@[0]);
    assert("BCC"@[0] != "TAY"@[0]);
    assert("BCC"@[0] != "TXA"@[0]);
    assert("BCC"@[0] != "TYA"@[0]);
    assert("BCC"@[0] != "INX"@[0]);
    assert("BCC"@[0] != "INY"@[0]);
    assert("BCC"@[0] != "RTS"@[0]);
    assert("BCC"@[0] != "CLC"@[0]);
    assert("BCC"@[0] != "SEC"@[0]);
    assert("BCC"@[0] != "PHA"@[0]);
    assert("BCC"@[0] != "PLA"@[0]);
    assert("BCC"@[0] != "LDX"@[0]);
    assert("BCC"@[0] != "LDY"@[0]);
    assert("BCC"@[0] != "ADC"@[0]);
    assert("BCC"@[0] != "SBC"@[0]);
    assert("BCC"@[0] != "ORA"@[0]);
    assert("BCC"@[0] != "EOR"@[0]);
    assert("BCC"@[0] != "AND"@[0]);
    assert("BCC"@[0] != "CMP"@[0]);
    assert("BCC"@[2] != "BCS"@[2]);
    assert("BCC"@[1] != "BNE"@[1]);
    assert("BCC"@[1] != "BEQ"@[1]);
    assert("BCS"@[0] != "NOP"@[0]);
    assert("BCS"@[1] != "BRK"@[1]);
    assert("BCS"@[0] != "TAX"@[0]);
    assert("BCS"@[0] != "TAY"@[0]);
    assert("BCS"@[0] != "TXA"@[0]);
    assert("BCS"@[0] != "TYA"@[0]);
    assert("BCS"@[0] != "INX"@[0]);
    assert("BCS"@[0] != "INY"@[0]);
    assert("BCS"@[0] != "RTS"@[0]);
    assert("BCS"@[0] != "CLC"@[0]);
    assert("BCS"@[0] != "SEC"@[0]);
    assert("BCS"@[0] != "PHA"@[0]);
    assert("BCS"@[0] != "PLA"@[0]);
    assert("BCS"@[0] != "LDX"@[0]);
    assert("BCS"@[0] != "LDY"@[0]);
    assert("BCS"@[0] != "ADC"@[0]);
    assert("BCS"@[0] != "SBC"@[0]);
    assert("BCS"@[0] != "ORA"@[0]);
    assert("BCS"@[0] != "EOR"@[0]);
    assert("BCS"@[0] != "AND"@[0]);
    assert("BCS"@[0] != "CMP"@[0]);
    assert("BCS"@[1] != "BNE"@[1]);
    assert("BCS"@[1] != "BEQ"@[1]);
    assert("BNE"@[0] != "NOP"@[0]);
    assert("BNE"@[1] != "BRK"@[1]);
    assert("BNE"@[0] != "TAX"@[0]);
    assert("BNE"@[0] != "TAY"@[0]);
    assert("BNE"@[0] != "TXA"@[0]);
    assert("BNE"@[0] != "TYA"@[0]);
    assert("BNE"@[0] != "INX"@[0]);
    assert("BNE"@[0] != "INY"@[0]);
    assert("BNE"@[0] != "RTS"@[0]);
    assert("BNE"@[0] != "CLC"@[0]);
    assert("BNE"@[0] != "SEC"@[0]);
    assert("BNE"@[0] != "PHA"@[0]);
    assert("BNE"@[0] != "PLA"@[0]);
    assert("BNE"@[0] != "LDX"@[0]);
    assert("BNE"@[0] != "LDY"@[0]);
    assert("BNE"@[0] != "ADC"@[0]);
    assert("BNE"@[0] != "SBC"@[0]);
    assert("BNE"@[0] != "ORA"@[0]);
    assert("BNE"@[0] != "EOR"@[0]);
    assert("BNE"@[0] != "AND"@[0]);
    assert("BNE"@[0] != "CMP"@[0]);
    assert("BNE"@[1] != "BEQ"@[1]);
    assert("BEQ"@[0] != "NOP"@[0]);
    assert("BEQ"@[1] != "BRK"@[1]);
    assert("BEQ"@[0] != "TAX"@[0]);
    assert("BEQ"@[0] != "TAY"@[0]);
    assert("BEQ"@[0] != "TXA"@[0]);
    assert("BEQ"@[0] != "TYA"@[0]);
    assert("BEQ"@[0] != "INX"@[0]);
    assert("BEQ"@[0] != "INY"@[0]);
    assert("BEQ"@[0] != "RTS"@[0]);
    assert("BEQ"@[0] != "CLC"@[0]);
    assert("BEQ"@[0] != "SEC"@[0]);
    assert("BEQ"@[0] != "PHA"@[0]);
    assert("BEQ"@[0] != "PLA"@[0]);
    assert("BEQ"@[0] != "LDX"@[0]);
    assert("BEQ"@[0] != "LDY"@[0]);
    assert("BEQ"@[0] != "ADC"@[0]);
    assert("BEQ"@[0] != "SBC"@[0]);
    assert("BEQ"@[0] != "ORA"@[0]);
    assert("BEQ"@[0] != "EOR"@[0]);
    assert("BEQ"@[0] != "AND"@[0]);
    assert("BEQ"@[0] != "CMP"@[0]);
}

/// Assembling BCC, BCS, BNE or BEQ gives a branch opcode and a zero offset
/// byte (patched from the label), and the simulator takes that branch under
/// status `p` exactly when the carry (bit 0) is clear, resp. set, or the
/// zero flag (bit 1) is clear, resp. set.
pub proof fn lemma_branch_mnemonics(mn: Seq<char>, arg: Seq<char>, p: u32)
    requires
        mn == "BCC"@ || mn == "BCS"@ || mn == "BNE"@ || mn == "BEQ"@,
    ensures
        match encode(mn, arg) {
            Ok(b) => {
                &&& b.len() == 2
                &&& b[1] == 0
                &&& crate::i6502::is_branch(b[0])
                &&& mn == "BCC"@ ==> (crate::i6502::taken(b[0], p) <==> p & 1u32 == 0)
                &&& mn == "BCS"@ ==> (crate::i6502::taken(b[0], p) <==> p & 1u32 != 0)
                &&& mn == "BNE"@ ==> (crate::i6502::taken(b[0], p) <==> p & 2u32 == 0)
                &&& mn == "BEQ"@ ==> (crate::i6502::taken(b[0], p) <==> p & 2u32 != 0)
            },
            Err(_) => false,
        },
{
    lemma_branch_names();
    assert(encode(mn, arg) == Ok::<Seq<u8>, Seq<char>>(seq![branch_op(mn)->0, 0u8]));
}

} // verus!

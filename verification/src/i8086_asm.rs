//! 8086 assembler: one instruction per line, `label:` prefixes, `;`
//! comments, operands separated by commas.
use vstd::prelude::*;
use crate::plugin::{AssemblerError, SourceMapEntry, ProgramImage};
use crate::text::{
    chars_of, split_lines, split_ws, to_upper, trim_chars, find, slice_vec, eq_lit, upper_seq, trim, tokens,
    parse_unsigned, parse_uint, split_on, join_from, trim_each, pieces, joined, strip_trailing, strip_trailing_chars,
    lines_spec, find_char, lemma_find_char,
};
use crate::asmutil::{strip_leading, strip_leading_0x, strip_leading_chars, strip_leading_0x_chars, asm_error, code_part, code_of};
use crate::labels::LabelTable;
use crate::scan::{ImageView, image_view, Scan, errs_view, lemma_errs_push, line_number};
use crate::fmt::{Text, lit};
use crate::i8086::I8086Plugin;

verus! {

/// A 16-bit register name: AX BX CX DX SI DI BP SP.
pub open spec fn reg_of(s: Seq<char>) -> Option<u8> {
    let u = upper_seq(trim(s));
    if u == "AX"@ {
        Some(0u8)
    } else if u == "BX"@ {
        Some(1u8)
    } else if u == "CX"@ {
        Some(2u8)
    } else if u == "DX"@ {
        Some(3u8)
    } else if u == "SI"@ {
        Some(4u8)
    } else if u == "DI"@ {
        Some(5u8)
    } else if u == "BP"@ {
        Some(6u8)
    } else if u == "SP"@ {
        Some(7u8)
    } else {
        None
    }
}

/// The digits of a 16-bit operand: leading `0x`, then leading and trailing `h`, removed.
pub open spec fn imm_digits(s: Seq<char>) -> Seq<char> {
    strip_trailing(strip_leading(strip_leading_0x(trim(s)), 'h'), 'h')
}

/// A 16-bit operand: hex, or else decimal.
pub open spec fn imm16_of(s: Seq<char>) -> Option<nat> {
    match parse_unsigned(imm_digits(s), 16, 0xFFFF) {
        Some(v) => Some(v),
        None => parse_unsigned(imm_digits(s), 10, 0xFFFF),
    }
}

pub open spec fn modrm(d: u8, s: u8) -> u8 {
    0xC0u8 | (d << 3u8) | s
}

/// `v` as a 32-bit two's complement value.
pub open spec fn wrap_i32(v: int) -> int {
    (v + 0x8000_0000) % 0x1_0000_0000 - 0x8000_0000
}

/// A jump to the absolute offset `addr` encoded at byte offset `at`, its
/// displacement measured from the end of the jump: the two-byte short form
/// when that fits in a signed byte, else the three-byte near form.
pub open spec fn jmp_bytes(addr: nat, at: nat) -> Seq<u8> {
    let short = wrap_i32(addr - wrap_i32(at as int) - 2);
    let rel = wrap_i32(addr - wrap_i32(at as int) - 3);
    if -128 <= short <= 127 {
        seq![0xEBu8, (short % 256) as u8]
    } else {
        seq![0xE9u8, (rel % 256) as u8, ((rel / 256) % 256) as u8]
    }
}

/// ADD and SUB: two register operands.
pub open spec fn two_regs(name: Seq<char>, op: u8, args: Seq<Seq<char>>) -> Result<Seq<u8>, Seq<char>> {
    if args.len() >= 2 {
        match reg_of(args[0]) {
            None => Err("Invalid "@ + name + " dest"@),
            Some(d) => match reg_of(args[1]) {
                None => Err("Invalid "@ + name + " src"@),
                Some(s) => Ok(seq![op, modrm(d, s)]),
            },
        }
    } else {
        Err(name + " needs 2 regs"@)
    }
}

/// PUSH and POP: one register operand.
pub open spec fn one_reg(name: Seq<char>, base: u8, args: Seq<Seq<char>>) -> Result<Seq<u8>, Seq<char>> {
    if args.len() >= 1 {
        match reg_of(args[0]) {
            None => Err("Invalid "@ + name + " reg"@),
            Some(r) => Ok(seq![(base + r) as u8]),
        }
    } else {
        Err(name + " needs reg"@)
    }
}

/// The bytes of the instruction `mn args` placed at byte offset `at`
/// (labels left as zeros), or the error message.
pub open spec fn encode(mn: Seq<char>, args: Seq<Seq<char>>, at: nat) -> Result<Seq<u8>, Seq<char>> {
    if mn == "NOP"@ {
        Ok(seq![0x90u8])
    } else if mn == "HLT"@ {
        Ok(seq![0xF4u8])
    } else if mn == "RET"@ {
        Ok(seq![0xC3u8])
    } else if mn == "MOV"@ {
        if args.len() >= 2 {
            match reg_of(args[0]) {
                None => Err("Invalid MOV dest"@),
                Some(d) => match imm16_of(args[1]) {
                    Some(v) => Ok(seq![(0xB8 + d) as u8, (v % 256) as u8, (v / 256) as u8]),
                    None => match reg_of(args[1]) {
                        None => Err("Invalid MOV src"@),
                        Some(s) => Ok(seq![0x8Bu8, modrm(d, s)]),
                    },
                },
            }
        } else {
            Err("MOV needs 2 operands"@)
        }
    } else if mn == "ADD"@ {
        two_regs("ADD"@, 0x03, args)
    } else if mn == "SUB"@ {
        two_regs("SUB"@, 0x2B, args)
    } else if mn == "PUSH"@ {
        one_reg("PUSH"@, 0x50, args)
    } else if mn == "POP"@ {
        one_reg("POP"@, 0x58, args)
    } else if mn == "JMP"@ {
        if args.len() >= 1 {
            match imm16_of(args[0]) {
                Some(a) => Ok(jmp_bytes(a, at)),
                None => Ok(seq![0xE9u8, 0u8, 0u8]),
            }
        } else {
            Err("JMP needs target"@)
        }
    } else if mn == "JZ"@ || mn == "JNZ"@ {
        if args.len() >= 1 {
            Ok(seq![if mn == "JZ"@ { 0x74u8 } else { 0x75u8 }, 0u8])
        } else {
            Err("JZ/JNZ needs label"@)
        }
    } else if mn == "CALL"@ {
        if args.len() >= 1 {
            Ok(seq![0xE8u8, 0u8, 0u8])
        } else {
            Err("CALL needs label"@)
        }
    } else {
        Err("Unknown mnemonic: "@ + mn)
    }
}

/// Whether `mn args` leaves an operand for the label `args[0]`: `Some(true)`
/// for a 16-bit displacement, `Some(false)` for an 8-bit one.
pub open spec fn placeholder(mn: Seq<char>, args: Seq<Seq<char>>) -> Option<bool> {
    if args.len() >= 1 && mn == "JMP"@ && imm16_of(args[0]) is None {
        Some(true)
    } else if args.len() >= 1 && (mn == "JZ"@ || mn == "JNZ"@) {
        Some(false)
    } else if args.len() >= 1 && mn == "CALL"@ {
        Some(true)
    } else {
        None
    }
}

/// The operands of an instruction line: the words after the mnemonic,
/// joined by spaces, split at commas and trimmed.
pub open spec fn operands(line: Seq<char>) -> Seq<Seq<char>> {
    let toks = tokens(line);
    let rest = joined(Seq::new((toks.len() - 1) as nat, |k: int| toks[1 + k]));
    let ps = pieces(rest, ',');
    Seq::new(ps.len(), |k: int| trim(ps[k]))
}

/// An operand waiting for a label.
pub struct Ref8086 {
    pub offset: usize,
    pub label: Vec<char>,
    pub wide: bool,
}

fn parse_reg_8086(s: &[char]) -> (r: Option<u8>)
    ensures
        r == reg_of(s@),
{
    let t = trim_chars(s);
    let u = to_upper(t.as_slice());
    let m = u.as_slice();
    if eq_lit(m, "AX") {
        Some(0)
    } else if eq_lit(m, "BX") {
        Some(1)
    } else if eq_lit(m, "CX") {
        Some(2)
    } else if eq_lit(m, "DX") {
        Some(3)
    } else if eq_lit(m, "SI") {
        Some(4)
    } else if eq_lit(m, "DI") {
        Some(5)
    } else if eq_lit(m, "BP") {
        Some(6)
    } else if eq_lit(m, "SP") {
        Some(7)
    } else {
        None
    }
}

fn parse_imm16(s: &[char]) -> (r: Option<u64>)
    ensures
        match r {
            Some(v) => imm16_of(s@) == Some(v as nat),
            None => imm16_of(s@) is None,
        },
{
    let t = trim_chars(s);
    let a = strip_leading_0x_chars(t.as_slice());
    let b = strip_leading_chars(a.as_slice(), 'h');
    let d = strip_trailing_chars(b.as_slice(), 'h');
    assert(d@ == imm_digits(s@));
    match parse_uint(d.as_slice(), 16, 0xFFFF) {
        Some(v) => Some(v),
        None => parse_uint(d.as_slice(), 10, 0xFFFF),
    }
}

fn modrm_of(d: u8, s: u8) -> (b: u8)
    ensures
        b == modrm(d, s),
{
    0xC0u8 | (d << 3u8) | s
}

/// `wrap_i32` of a byte offset.
fn offset_i32(at: usize) -> (r: i64)
    ensures
        r == wrap_i32(at as int),
        -0x8000_0000 <= r < 0x8000_0000,
{
    let x: i64 = (at as u64 % 0x1_0000_0000) as i64;
    let r = if x >= 0x8000_0000 { x - 0x1_0000_0000 } else { x };
    assert(((at as int) + 0x8000_0000) % 0x1_0000_0000 == ((x as int) + 0x8000_0000) % 0x1_0000_0000);
    r
}

/// `wrap_i32` of a value near the 32-bit range.
fn wrap_of(d: i64) -> (r: i64)
    requires
        -0x1_0000_0000 <= d <= 0x1_0000_0000,
    ensures
        r == wrap_i32(d as int),
        -0x8000_0000 <= r < 0x8000_0000,
{
    let e: i64 = d + 0x8000_0000;
    let e2: i64 = if e < 0 {
        e + 0x1_0000_0000
    } else if e >= 0x1_0000_0000 {
        e - 0x1_0000_0000
    } else {
        e
    };
    let r: i64 = e2 - 0x8000_0000;
    assert(r == wrap_i32(d as int));
    r
}

/// The low byte of a two's complement value.
fn low_byte(v: i64) -> (b: u8)
    requires
        -0x8000_0000 <= v < 0x8000_0000,
    ensures
        b == (v % 256) as u8,
{
    let b: u8 = if v >= 0 { (v % 256) as u8 } else { ((v % 256 + 256) % 256) as u8 };
    assert(b == (v % 256) as u8);
    b
}

fn jmp_bytes_of(addr: u64, at: usize) -> (b: Vec<u8>)
    requires
        addr <= 0xFFFF,
    ensures
        b@ == jmp_bytes(addr as nat, at as nat),
{
    let base = offset_i32(at);
    let short = wrap_of(addr as i64 - base - 2);
    if -128 <= short && short <= 127 {
        let v = vec![0xEBu8, low_byte(short)];
        assert(v@ =~= seq![0xEBu8, (short % 256) as u8]);
        v
    } else {
        let rel = wrap_of(addr as i64 - base - 3);
        let lo = low_byte(rel);
        let q: i64 = if rel >= 0 { rel / 256 } else { -((-rel + 255) / 256) };
        assert(q == rel / 256);
        let hi = low_byte(q);
        let v = vec![0xE9u8, lo, hi];
        assert(v@ =~= seq![0xE9u8, (rel % 256) as u8, ((rel / 256) % 256) as u8]);
        v
    }
}

fn two_regs_of(name: &str, op: u8, args: &Vec<Vec<char>>) -> (r: Result<Vec<u8>, String>)
    ensures
        match r {
            Ok(b) => two_regs(name@, op, Seq::new(args@.len(), |k: int| args@[k]@)) == Ok::<Seq<u8>, Seq<char>>(b@),
            Err(m) => two_regs(name@, op, Seq::new(args@.len(), |k: int| args@[k]@)) == Err::<Seq<u8>, Seq<char>>(m@),
        },
{
    if args.len() >= 2 {
        match parse_reg_8086(args[0].as_slice()) {
            None => Err(Text::new().s("Invalid ").s(name).s(" dest").done()),
            Some(d) => match parse_reg_8086(args[1].as_slice()) {
                None => Err(Text::new().s("Invalid ").s(name).s(" src").done()),
                Some(s) => {
                    let v = vec![op, modrm_of(d, s)];
                    assert(v@ =~= seq![op, modrm(d, s)]);
                    Ok(v)
                },
            },
        }
    } else {
        Err(Text::new().s(name).s(" needs 2 regs").done())
    }
}

fn one_reg_of(name: &str, base: u8, args: &Vec<Vec<char>>) -> (r: Result<Vec<u8>, String>)
    requires
        base <= 0x58,
    ensures
        match r {
            Ok(b) => one_reg(name@, base, Seq::new(args@.len(), |k: int| args@[k]@)) == Ok::<Seq<u8>, Seq<char>>(b@),
            Err(m) => one_reg(name@, base, Seq::new(args@.len(), |k: int| args@[k]@)) == Err::<Seq<u8>, Seq<char>>(m@),
        },
{
    if args.len() >= 1 {
        match parse_reg_8086(args[0].as_slice()) {
            None => Err(Text::new().s("Invalid ").s(name).s(" reg").done()),
            Some(r) => {
                let v = vec![base + r];
                assert(v@ =~= seq![(base + r) as u8]);
                Ok(v)
            },
        }
    } else {
        Err(Text::new().s(name).s(" needs reg").done())
    }
}

fn single(b: u8) -> (v: Vec<u8>)
    ensures
        v@ == seq![b],
{
    let v = vec![b];
    assert(v@ =~= seq![b]);
    v
}

/// The bytes of one instruction placed at byte offset `at`, or the error message.
pub fn encode_8086(mn: &[char], args: &Vec<Vec<char>>, at: usize) -> (r: Result<Vec<u8>, String>)
    ensures
        match r {
            Ok(b) => encode(mn@, Seq::new(args@.len(), |k: int| args@[k]@), at as nat) == Ok::<Seq<u8>, Seq<char>>(b@),
            Err(m) => encode(mn@, Seq::new(args@.len(), |k: int| args@[k]@), at as nat) == Err::<Seq<u8>, Seq<char>>(m@),
        },
{
    let ghost av = Seq::new(args@.len(), |k: int| args@[k]@);
    if eq_lit(mn, "NOP") {
        Ok(single(0x90))
    } else if eq_lit(mn, "HLT") {
        Ok(single(0xF4))
    } else if eq_lit(mn, "RET") {
        Ok(single(0xC3))
    } else if eq_lit(mn, "MOV") {
        if args.len() >= 2 {
            match parse_reg_8086(args[0].as_slice()) {
                None => Err(lit("Invalid MOV dest")),
                Some(d) => match parse_imm16(args[1].as_slice()) {
                    Some(v) => {
                        let b = vec![0xB8u8 + d, (v % 256) as u8, (v / 256) as u8];
                        assert(b@ =~= seq![(0xB8 + d) as u8, (v % 256) as u8, (v / 256) as u8]);
                        Ok(b)
                    },
                    None => match parse_reg_8086(args[1].as_slice()) {
                        None => Err(lit("Invalid MOV src")),
                        Some(s) => {
                            let b = vec![0x8Bu8, modrm_of(d, s)];
                            assert(b@ =~= seq![0x8Bu8, modrm(d, s)]);
                            Ok(b)
                        },
                    },
                },
            }
        } else {
            Err(lit("MOV needs 2 operands"))
        }
    } else if eq_lit(mn, "ADD") {
        two_regs_of("ADD", 0x03, args)
    } else if eq_lit(mn, "SUB") {
        two_regs_of("SUB", 0x2B, args)
    } else if eq_lit(mn, "PUSH") {
        one_reg_of("PUSH", 0x50, args)
    } else if eq_lit(mn, "POP") {
        one_reg_of("POP", 0x58, args)
    } else if eq_lit(mn, "JMP") {
        if args.len() >= 1 {
            match parse_imm16(args[0].as_slice()) {
                Some(a) => Ok(jmp_bytes_of(a, at)),
                None => {
                    let b = vec![0xE9u8, 0u8, 0u8];
                    assert(b@ =~= seq![0xE9u8, 0u8, 0u8]);
                    Ok(b)
                },
            }
        } else {
            Err(lit("JMP needs target"))
        }
    } else if eq_lit(mn, "JZ") || eq_lit(mn, "JNZ") {
        if args.len() >= 1 {
            let b = vec![if eq_lit(mn, "JZ") { 0x74u8 } else { 0x75u8 }, 0u8];
            assert(b@ =~= seq![if mn@ == "JZ"@ { 0x74u8 } else { 0x75u8 }, 0u8]);
            Ok(b)
        } else {
            Err(lit("JZ/JNZ needs label"))
        }
    } else if eq_lit(mn, "CALL") {
        if args.len() >= 1 {
            let b = vec![0xE8u8, 0u8, 0u8];
            assert(b@ =~= seq![0xE8u8, 0u8, 0u8]);
            Ok(b)
        } else {
            Err(lit("CALL needs label"))
        }
    } else {
        Err(Text::new().s("Unknown mnemonic: ").all(mn).done())
    }
}

fn placeholder_of(mn: &[char], args: &Vec<Vec<char>>) -> (r: Option<bool>)
    ensures
        r == placeholder(mn@, Seq::new(args@.len(), |k: int| args@[k]@)),
{
    if args.len() >= 1 && eq_lit(mn, "JMP") && parse_imm16(args[0].as_slice()).is_none() {
        Some(true)
    } else if args.len() >= 1 && (eq_lit(mn, "JZ") || eq_lit(mn, "JNZ")) {
        Some(false)
    } else if args.len() >= 1 && eq_lit(mn, "CALL") {
        Some(true)
    } else {
        None
    }
}

/// Encodes one instruction at `pc`: its bytes are appended, a source map
/// entry is recorded, and an operand naming a label is remembered for patching.
pub fn parse_8086_instruction(
    line: &[char],
    line_num: u32,
    col: u32,
    pc: u32,
    bytes: &mut Vec<u8>,
    source_map: &mut Vec<SourceMapEntry>,
    pending: &mut Vec<Ref8086>,
) -> (res: Result<(), AssemblerError>)
    ensures
        ({
            let toks = tokens(line@);
            let mn = upper_seq(toks[0]);
            let args = operands(line@);
            if toks.len() == 0 {
                &&& res is Ok
                &&& final(bytes)@ == old(bytes)@
                &&& final(source_map)@ == old(source_map)@
                &&& final(pending)@ == old(pending)@
            } else {
                &&& final(source_map)@ == old(source_map)@.push(SourceMapEntry { pc, line: line_num, column: col })
                &&& match encode(mn, args, old(bytes)@.len()) {
                    Ok(bs) => res is Ok && final(bytes)@ == old(bytes)@ + bs,
                    Err(msg) => (res matches Err(e) && e.line == line_num && e.column == col && e.message@ == msg)
                        && final(bytes)@ == old(bytes)@,
                }
                &&& final(pending)@.len() == old(pending)@.len() + (if encode(mn, args, old(bytes)@.len()) is Ok
                    && placeholder(mn, args) is Some { 1int } else { 0int })
                &&& forall|i: int| 0 <= i < old(pending)@.len() ==> #[trigger] final(pending)@[i] == old(pending)@[i]
                &&& final(pending)@.len() > old(pending)@.len() ==> {
                    let p = final(pending)@.last();
                    &&& p.offset == old(bytes)@.len() + 1
                    &&& p.label@ == args[0]
                    &&& placeholder(mn, args) == Some(p.wide)
                }
            }
        }),
{
    let parts = split_ws(line);
    if parts.len() == 0 {
        return Ok(());
    }
    let mn = to_upper(parts[0].as_slice());
    let rest = join_from(&parts, 1);
    let ps = split_on(rest.as_slice(), ',');
    let args = trim_each(&ps);
    proof {
        let toks = tokens(line@);
        assert(Seq::new((parts@.len() - 1) as nat, |k: int| parts@[1 + k]@) =~= Seq::new((toks.len() - 1) as nat, |k: int| toks[1 + k]));
        assert(Seq::new(args@.len(), |k: int| args@[k]@) =~= operands(line@));
    }
    source_map.push(SourceMapEntry { pc, line: line_num, column: col });
    let start = bytes.len();
    match encode_8086(mn.as_slice(), &args, start) {
        Err(m) => Err(asm_error(line_num, col, m)),
        Ok(bs) => {
            let ghost b0 = bytes@;
            let mut i: usize = 0;
            while i < bs.len()
                invariant
                    i <= bs@.len(),
                    bytes@ == b0 + bs@.subrange(0, i as int),
                decreases bs@.len() - i,
            {
                bytes.push(bs[i]);
                assert(bs@.subrange(0, i + 1) =~= bs@.subrange(0, i as int).push(bs@[i as int]));
                i = i + 1;
            }
            assert(bs@.subrange(0, bs@.len() as int) =~= bs@);
            match placeholder_of(mn.as_slice(), &args) {
                Some(wide) => {
                    let end = bytes.len();
                    assert(end == start + bs@.len() && bs@.len() >= 1);
                    pending.push(Ref8086 { offset: start + 1, label: args[0].clone(), wide });
                },
                None => {},
            }
            Ok(())
        },
    }
}

/// A pending reference seen as the offset of its operand, its label, and
/// whether it is a 16-bit displacement (else an 8-bit one).
pub type Ref8086View = (int, Seq<char>, bool);

pub open spec fn ref8086_view(p: Ref8086) -> Ref8086View {
    (p.offset as int, p.label@, p.wide)
}

pub open spec fn refs8086_view(ps: Seq<Ref8086>) -> Seq<Ref8086View> {
    ps.map_values(|p: Ref8086| ref8086_view(p))
}

pub open spec fn i8086_init() -> Scan<Ref8086View> {
    Scan {
        bytes: Seq::empty(),
        smap: Seq::empty(),
        errors: Seq::empty(),
        labels: Map::empty(),
        refs: Seq::empty(),
        start: 0,
        pc: 0,
        ended: false,
    }
}

/// One instruction at the current address; the address moves on by the
/// bytes it took, and a jump to a label is remembered for patching.
#[verifier::opaque]
pub open spec fn i8086_instr(st: Scan<Ref8086View>, body: Seq<char>, ln: u32) -> Scan<Ref8086View> {
    let toks = tokens(body);
    if toks.len() == 0 {
        st
    } else {
        let mn = upper_seq(toks[0]);
        let args = operands(body);
        let smap = st.smap.push(SourceMapEntry { pc: st.pc, line: ln, column: 1 });
        match encode(mn, args, st.bytes.len()) {
            Ok(bs) => Scan {
                bytes: st.bytes + bs,
                smap,
                refs: if placeholder(mn, args) is Some {
                    st.refs.push((st.bytes.len() + 1int, args[0], placeholder(mn, args).unwrap()))
                } else {
                    st.refs
                },
                pc: ((st.pc + bs.len()) % 0x1_0000_0000) as u32,
                ..st
            },
            Err(msg) => Scan { smap, errors: st.errors.push((ln, 1u32, msg)), ..st },
        }
    }
}

/// One source line (index `i`) of the first pass: a line with a `:` defines
/// the label before it (when not empty) and assembles what follows.
pub open spec fn i8086_line(st: Scan<Ref8086View>, i: int, raw: Seq<char>) -> Scan<Ref8086View> {
    let line = code_of(raw, ';');
    if line.len() == 0 {
        st
    } else {
        match find_char(line, ':') {
            Some(idx) => {
                let label = trim(line.subrange(0, idx));
                let st1 = if label.len() > 0 { Scan { labels: st.labels.insert(label, st.pc), ..st } } else { st };
                let rest = trim(line.subrange(idx + 1, line.len() as int));
                if rest.len() == 0 {
                    st1
                } else {
                    i8086_instr(st1, rest, line_number(i))
                }
            },
            None => i8086_instr(st, line, line_number(i)),
        }
    }
}

/// The first pass over the first `n` lines.
pub open spec fn i8086_scan(lines: Seq<Seq<char>>, n: nat) -> Scan<Ref8086View>
    decreases n,
{
    if n == 0 || n > lines.len() {
        i8086_init()
    } else {
        i8086_line(i8086_scan(lines, (n - 1) as nat), n - 1, lines[n - 1])
    }
}

/// The second pass for one reference: the displacement from the end of the
/// operand (two bytes past its offset for a 16-bit one, one byte for an 8-bit
/// one that fits a signed byte), which ends the instruction, written in; an
/// undefined label is an error at line 0.
pub open spec fn i8086_patch(b: Seq<u8>, es: Seq<(u32, u32, Seq<char>)>, labels: Map<Seq<char>, u32>, r: Ref8086View) -> (
    Seq<u8>,
    Seq<(u32, u32, Seq<char>)>,
) {
    let (off, label, wide) = r;
    if labels.contains_key(label) {
        let target = labels[label];
        if wide && off < b.len() && off + 1 < b.len() {
            let rel = wrap_i32(target - (off + 2));
            (b.update(off, (rel % 256) as u8).update(off + 1, ((rel / 256) % 256) as u8), es)
        } else if !wide && off < b.len() {
            let rel = wrap_i32(target - (off + 1));
            if -128 <= rel <= 127 {
                (b.update(off, (rel % 256) as u8), es)
            } else {
                (b, es)
            }
        } else {
            (b, es)
        }
    } else {
        (b, es.push((0u32, 1u32, "Unknown label: "@ + label)))
    }
}

/// The second pass over a list of references, in order.
pub open spec fn i8086_patch_all(b: Seq<u8>, es: Seq<(u32, u32, Seq<char>)>, labels: Map<Seq<char>, u32>, refs: Seq<Ref8086View>) -> (
    Seq<u8>,
    Seq<(u32, u32, Seq<char>)>,
)
    decreases refs.len(),
{
    if refs.len() == 0 {
        (b, es)
    } else {
        let (b1, e1) = i8086_patch_all(b, es, labels, refs.drop_last());
        i8086_patch(b1, e1, labels, refs.last())
    }
}

/// `wrap_i32(target - off - k)`: the distance to `target` from `k` bytes
/// past image offset `off`.
fn distance_of(target: u32, off: usize, k: u64) -> (d: i64)
    requires
        k <= 2,
    ensures
        d == wrap_i32(target - off - k),
        -0x8000_0000 <= d < 0x8000_0000,
{
    let o: u64 = off as u64 % 0x1_0000_0000;
    let e: u64 = target as u64 + 0x2_8000_0000 - o - k;
    let w: u64 = e % 0x1_0000_0000;
    proof {
        let j: int = off as int / 0x1_0000_0000;
        assert(off as int == j * 0x1_0000_0000 + o) by (nonlinear_arith)
            requires
                o == off as int % 0x1_0000_0000,
                j == off as int / 0x1_0000_0000,
        ;
        let v: int = target - off - k + 0x8000_0000;
        assert(v == e - (j + 2) * 0x1_0000_0000);
        assert(v % 0x1_0000_0000 == e as int % 0x1_0000_0000) by (nonlinear_arith)
            requires
                v == e - (j + 2) * 0x1_0000_0000,
        ;
    }
    w as i64 - 0x8000_0000
}

/// Fills in a label's displacement, measured from the end of the instruction.
fn patch(bytes: &mut Vec<u8>, errors: &mut Vec<AssemblerError>, labels: &LabelTable, r: &Ref8086)
    requires
        labels.wf(),
    ensures
        (final(bytes)@, errs_view(final(errors)@)) == i8086_patch(old(bytes)@, errs_view(old(errors)@), labels.view(), ref8086_view(*r)),
        final(bytes)@.len() == old(bytes)@.len(),
{
    match labels.get(r.label.as_slice()) {
        Some(target) => {
            if r.wide && r.offset < bytes.len() && r.offset + 1 < bytes.len() {
                let rel = distance_of(target, r.offset, 2);
                let q: i64 = if rel >= 0 { rel / 256 } else { -((-rel + 255) / 256) };
                assert(q == rel / 256);
                bytes.set(r.offset, low_byte(rel));
                bytes.set(r.offset + 1, low_byte(q));
            } else if !r.wide && r.offset < bytes.len() {
                let rel = distance_of(target, r.offset, 1);
                if -128 <= rel && rel <= 127 {
                    bytes.set(r.offset, low_byte(rel));
                }
            }
        },
        None => {
            let e = asm_error(0, 1, Text::new().s("Unknown label: ").all(r.label.as_slice()).done());
            proof { lemma_errs_push(errors@, e); }
            errors.push(e);
        },
    }
}

/// The first-pass state that the assembler's working values stand for.
pub open spec fn i8086_scan_of(
    bytes: Seq<u8>,
    smap: Seq<SourceMapEntry>,
    errors: Seq<AssemblerError>,
    labels: Map<Seq<char>, u32>,
    refs: Seq<Ref8086>,
    pc: u32,
) -> Scan<Ref8086View> {
    Scan { bytes, smap, errors: errs_view(errors), labels, refs: refs8086_view(refs), start: 0, pc, ended: false }
}

/// The first pass over one source line.
#[verifier::spinoff_prover]
fn scan_line(
    raw: &[char],
    li: usize,
    bytes: &mut Vec<u8>,
    source_map: &mut Vec<SourceMapEntry>,
    errors: &mut Vec<AssemblerError>,
    labels: &mut LabelTable,
    pending: &mut Vec<Ref8086>,
    pc: &mut u32,
)
    requires
        old(labels).wf(),
        li < usize::MAX,
    ensures
        final(labels).wf(),
        i8086_scan_of(final(bytes)@, final(source_map)@, final(errors)@, final(labels).view(), final(pending)@, *final(pc))
            == i8086_line(i8086_scan_of(old(bytes)@, old(source_map)@, old(errors)@, old(labels).view(), old(pending)@, *old(pc)), li as int, raw@),
{
    let line_num: u32 = ((li as u64 + 1) % 0x1_0000_0000) as u32;
    let line = code_part(raw, ';');
    proof {
        lemma_find_char(line@, ':');
    }
    if line.len() == 0 {
        return;
    }
    let body: Vec<char> = match find(line.as_slice(), ':') {
        Some(idx) => {
            let lab = slice_vec(line.as_slice(), 0, idx);
            let label = trim_chars(lab.as_slice());
            if label.len() > 0 {
                labels.insert(label, *pc);
            }
            let rest0 = slice_vec(line.as_slice(), idx + 1, line.len());
            let rest = trim_chars(rest0.as_slice());
            if rest.len() == 0 {
                return;
            }
            rest
        },
        None => line,
    };
    let ghost st1 = i8086_scan_of(bytes@, source_map@, errors@, labels.view(), pending@, *pc);
    scan_instr(body.as_slice(), line_num, bytes, source_map, errors, pending, pc, Ghost(st1));
}

/// One instruction of the first pass at `pc`, which moves on by the bytes it took.
fn scan_instr(
    body: &[char],
    line_num: u32,
    bytes: &mut Vec<u8>,
    source_map: &mut Vec<SourceMapEntry>,
    errors: &mut Vec<AssemblerError>,
    pending: &mut Vec<Ref8086>,
    pc: &mut u32,
    Ghost(st): Ghost<Scan<Ref8086View>>,
)
    requires
        st.bytes == old(bytes)@,
        st.smap == old(source_map)@,
        st.errors == errs_view(old(errors)@),
        st.refs == refs8086_view(old(pending)@),
        st.pc == *old(pc),
    ensures
        ({
            let st2 = i8086_instr(st, body@, line_num);
            &&& final(bytes)@ == st2.bytes
            &&& final(source_map)@ == st2.smap
            &&& errs_view(final(errors)@) == st2.errors
            &&& refs8086_view(final(pending)@) == st2.refs
            &&& *final(pc) == st2.pc
            &&& st2.labels == st.labels
            &&& st2.start == st.start
            &&& st2.ended == st.ended
        }),
{
    reveal(i8086_instr);
    let start_len = bytes.len();
    let ghost p0 = pending@;
    match parse_8086_instruction(body, line_num, 1, *pc, bytes, source_map, pending) {
        Err(e) => {
            proof {
                lemma_errs_push(errors@, e);
            }
            errors.push(e);
        },
        Ok(()) => {},
    }
    proof {
        let toks = tokens(body@);
        if toks.len() > 0 {
            let mn = upper_seq(toks[0]);
            let args = operands(body@);
            if encode(mn, args, start_len as nat) is Ok && placeholder(mn, args) is Some {
                assert(refs8086_view(pending@) =~= refs8086_view(p0).push((start_len + 1int, args[0], placeholder(mn, args).unwrap())));
            } else {
                assert(refs8086_view(pending@) =~= refs8086_view(p0));
            }
        }
    }
    *pc = ((*pc as u64 + (bytes.len() - start_len) as u64) % 0x1_0000_0000) as u32;
}


/// What assembling 8086 source gives.
pub open spec fn i8086_image(source: Seq<char>) -> ImageView {
    let lines = lines_spec(source);
    let sc = i8086_scan(lines, lines.len());
    let fin = i8086_patch_all(sc.bytes, sc.errors, sc.labels, sc.refs);
    (fin.0, sc.smap, fin.1, if sc.labels.contains_key("_start"@) { sc.labels["_start"@] } else { 0 })
}

impl I8086Plugin {
    /// Assembles 8086 source text into a program image: a first pass over
    /// the lines, then each label operand patched in order; the entry point
    /// is `_start` when defined, else 0.
    pub fn assemble(&self, source: &str) -> (img: ProgramImage)
        ensures
            image_view(img) == i8086_image(source@),
    {
        let src = chars_of(source);
        let lines = split_lines(src.as_slice());
        let ghost ls = lines_spec(source@);
        let mut bytes: Vec<u8> = Vec::new();
        let mut source_map: Vec<SourceMapEntry> = Vec::new();
        let mut errors: Vec<AssemblerError> = Vec::new();
        let mut labels = LabelTable::new();
        let mut pending: Vec<Ref8086> = Vec::new();
        let mut pc: u32 = 0;
        let mut li: usize = 0;
        proof {
            assert(errs_view(errors@) =~= Seq::empty());
            assert(refs8086_view(pending@) =~= Seq::empty());
        }
        while li < lines.len()
            invariant
                labels.wf(),
                li <= lines@.len(),
                lines@.len() == ls.len(),
                forall|k: int| 0 <= k < lines@.len() ==> #[trigger] lines@[k]@ == ls[k],
                i8086_scan(ls, li as nat) == i8086_scan_of(bytes@, source_map@, errors@, labels.view(), pending@, pc),
            decreases lines@.len() - li,
        {
            scan_line(lines[li].as_slice(), li, &mut bytes, &mut source_map, &mut errors, &mut labels, &mut pending, &mut pc);
            li = li + 1;
        }
        let ghost sc = i8086_scan(ls, ls.len());
        let ghost refs = sc.refs;
        let mut k: usize = 0;
        proof {
            assert(refs.subrange(0, 0) =~= Seq::<Ref8086View>::empty());
        }
        while k < pending.len()
            invariant
                labels.wf(),
                labels.view() == sc.labels,
                k <= pending@.len(),
                refs == refs8086_view(pending@),
                (bytes@, errs_view(errors@)) == i8086_patch_all(sc.bytes, sc.errors, sc.labels, refs.subrange(0, k as int)),
            decreases pending@.len() - k,
        {
            patch(&mut bytes, &mut errors, &labels, &pending[k]);
            proof {
                assert(refs.subrange(0, k + 1).drop_last() =~= refs.subrange(0, k as int));
                assert(refs.subrange(0, k + 1).last() == ref8086_view(pending@[k as int]));
            }
            k = k + 1;
        }
        proof {
            assert(refs.subrange(0, refs.len() as int) =~= refs);
        }
        let start_name = chars_of("_start");
        let entry_pc = match labels.get(start_name.as_slice()) {
            Some(a) => a,
            None => 0,
        };
        ProgramImage { bytes, entry_pc, source_map, errors }
    }
}

/// ADD, SUB, JZ and JNZ are distinct from the other mnemonics.
proof fn lemma_op_names()
    ensures
        "ADD"@ != "NOP"@ && "ADD"@ != "HLT"@ && "ADD"@ != "RET"@ && "ADD"@ != "MOV"@ && "ADD"@ != "SUB"@ && "ADD"@ != "PUSH"@ && "ADD"@ != "POP"@ && "ADD"@ != "JMP"@ && "ADD"@ != "JZ"@ && "ADD"@ != "JNZ"@,
        "SUB"@ != "NOP"@ && "SUB"@ != "HLT"@ && "SUB"@ != "RET"@ && "SUB"@ != "MOV"@ && "SUB"@ != "ADD"@ && "SUB"@ != "PUSH"@ && "SUB"@ != "POP"@ && "SUB"@ != "JMP"@ && "SUB"@ != "JZ"@ && "SUB"@ != "JNZ"@,
        "JZ"@ != "NOP"@ && "JZ"@ != "HLT"@ && "JZ"@ != "RET"@ && "JZ"@ != "MOV"@ && "JZ"@ != "ADD"@ && "JZ"@ != "SUB"@ && "JZ"@ != "PUSH"@ && "JZ"@ != "POP"@ && "JZ"@ != "JMP"@ && "JZ"@ != "JNZ"@,
        "JNZ"@ != "NOP"@ && "JNZ"@ != "HLT"@ && "JNZ"@ != "RET"@ && "JNZ"@ != "MOV"@ && "JNZ"@ != "ADD"@ && "JNZ"@ != "SUB"@ && "JNZ"@ != "PUSH"@ && "JNZ"@ != "POP"@ && "JNZ"@ != "JMP"@ && "JNZ"@ != "JZ"@,
{
    reveal_strlit("NOP");
    reveal_strlit("HLT");
    reveal_strlit("RET");
    reveal_strlit("MOV");
    reveal_strlit("ADD");
    reveal_strlit("SUB");
    reveal_strlit("PUSH");
    reveal_strlit("POP");
    reveal_strlit("JMP");
    reveal_strlit("JZ");
    reveal_strlit("JNZ");
    assert("ADD"@[0] != "NOP"@[0]);
    assert("ADD"@[0] != "HLT"@[0]);
    assert("ADD"@[0] != "RET"@[0]);
    assert("ADD"@[0] != "MOV"@[0]);
    assert("ADD"@[0] != "SUB"@[0]);
    assert("ADD"@.len() != "PUSH"@.len());
    assert("ADD"@[0] != "POP"@[0]);
    assert("ADD"@[0] != "JMP"@[0]);
    assert("ADD"@.len() != "JZ"@.len());
    assert("ADD"@[0] != "JNZ"@[0]);
    assert("SUB"@[0] != "NOP"@[0]);
    assert("SUB"@[0] != "HLT"@[0]);
    assert("SUB"@[0] != "RET"@[0]);
    assert("SUB"@[0] != "MOV"@[0]);
    assert("SUB"@.len() != "PUSH"@.len());
    assert("SUB"@[0] != "POP"@[0]);
    assert("SUB"@[0] != "JMP"@[0]);
    assert("SUB"@.len() != "JZ"@.len());
    assert("SUB"@[0] != "JNZ"@[0]);
    assert("JZ"@.len() != "NOP"@.len());
    assert("JZ"@.len() != "HLT"@.len());
    assert("JZ"@.len() != "RET"@.len());
    assert("JZ"@.len() != "MOV"@.len());
    assert("JZ"@.len() != "PUSH"@.len());
    assert("JZ"@.len() != "POP"@.len());
    assert("JZ"@.len() != "JMP"@.len());
    assert("JZ"@.len() != "JNZ"@.len());
    assert("JNZ"@[0] != "NOP"@[0]);
    assert("JNZ"@[0] != "HLT"@[0]);
    assert("JNZ"@[0] != "RET"@[0]);
    assert("JNZ"@[0] != "MOV"@[0]);
    assert("JNZ"@.len() != "PUSH"@.len());
    assert("JNZ"@[0] != "POP"@[0]);
    assert("JNZ"@[1] != "JMP"@[1]);
}

/// The ModRM byte of two registers names them in bits 5-3 and 2-0.
proof fn lemma_modrm_fields(d: u8, s: u8)
    by (bit_vector)
    requires
        d < 8,
        s < 8,
    ensures
        (modrm(d, s) >> 3u8) & 7u8 == d,
        modrm(d, s) & 7u8 == s,
{
}

/// Assembling `ADD d, s` or `SUB d, s` on two registers gives the opcode
/// 0x03, resp. 0x2B (register-register add and subtract in the simulator)
/// and a ModRM byte naming d in bits 5-3 and s in bits 2-0; `JZ` and `JNZ`
/// with a label give 0x74, resp. 0x75 (jump if zero, if not zero) and a
/// zero displacement byte.
pub proof fn lemma_op_mnemonics(mn: Seq<char>, args: Seq<Seq<char>>, at: nat)
    requires
        mn == "ADD"@ || mn == "SUB"@ || mn == "JZ"@ || mn == "JNZ"@,
        (mn == "ADD"@ || mn == "SUB"@) ==> args.len() == 2 && reg_of(args[0]) is Some && reg_of(args[1]) is Some,
        (mn == "JZ"@ || mn == "JNZ"@) ==> args.len() == 1,
    ensures
        match encode(mn, args, at) {
            Ok(b) => {
                &&& (mn == "ADD"@ || mn == "SUB"@) ==> b.len() == 2 && (b[1] >> 3u8) & 7u8 == reg_of(args[0])->0 && b[1] & 7u8
                    == reg_of(args[1])->0
                &&& mn == "ADD"@ ==> b[0] == 0x03
                &&& mn == "SUB"@ ==> b[0] == 0x2B
                &&& mn == "JZ"@ ==> b == seq![0x74u8, 0u8]
                &&& mn == "JNZ"@ ==> b == seq![0x75u8, 0u8]
            },
            Err(_) => false,
        },
{
    lemma_op_names();
    if mn == "ADD"@ || mn == "SUB"@ {
        let d = reg_of(args[0])->0;
        let r = reg_of(args[1])->0;
        assert(d < 8 && r < 8);
        lemma_modrm_fields(d, r);
        let op: u8 = if mn == "ADD"@ { 0x03 } else { 0x2B };
        assert(encode(mn, args, at) == two_regs(mn, op, args));
    }
}

} // verus!

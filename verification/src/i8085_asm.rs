//! 8085 assembler: one instruction per line, `label:` prefixes, `.ORG` to
//! place code (gaps filled with zeros), `;` comments.
use vstd::prelude::*;
use crate::plugin::{AssemblerError, SourceMapEntry, ProgramImage};
use crate::text::{
    chars_of, split_lines, split_ws, to_upper, trim_chars, find, slice_vec, eq_lit, starts_with_lit, upper_seq, trim,
    parse_unsigned, split_on, join_from, trim_each, tokens, pieces, joined, lines_spec, find_char, lemma_find_char,
    hex_text,
};
use crate::asmutil::{strip_leading_0x, strip_leading_0x_chars, hex_prefixed, is_hex_prefixed, asm_error, msg_with, code_part, parse_u_radix, code_of};
use crate::labels::LabelTable;
use crate::scan::{ImageView, image_view, Scan, errs_view, lemma_errs_push, line_number, starts_with};
use crate::fmt::{Text, lit};
use crate::i8085::I8085Plugin;

verus! {

/// An 8-bit operand name and its operand code: B, C, D, E, H, L, M (the byte
/// at HL) and A are 0 to 7.
pub open spec fn reg8085_of(s: Seq<char>) -> Option<u8> {
    let u = upper_seq(trim(s));
    if u == "B"@ {
        Some(0)
    } else if u == "C"@ {
        Some(1)
    } else if u == "D"@ {
        Some(2)
    } else if u == "E"@ {
        Some(3)
    } else if u == "H"@ {
        Some(4)
    } else if u == "L"@ {
        Some(5)
    } else if u == "M"@ {
        Some(6)
    } else if u == "A"@ {
        Some(7)
    } else {
        None
    }
}

pub fn parse_reg_8085(s: &[char]) -> (r: Option<u8>)
    ensures
        r == reg8085_of(s@),
{
    let t = trim_chars(s);
    let u = to_upper(t.as_slice());
    if eq_lit(u.as_slice(), "B") {
        Some(0)
    } else if eq_lit(u.as_slice(), "C") {
        Some(1)
    } else if eq_lit(u.as_slice(), "D") {
        Some(2)
    } else if eq_lit(u.as_slice(), "E") {
        Some(3)
    } else if eq_lit(u.as_slice(), "H") {
        Some(4)
    } else if eq_lit(u.as_slice(), "L") {
        Some(5)
    } else if eq_lit(u.as_slice(), "M") {
        Some(6)
    } else if eq_lit(u.as_slice(), "A") {
        Some(7)
    } else {
        None
    }
}

/// `trim_start_matches(|c| c == 'x' || c == 'X')`.
pub open spec fn strip_x(s: Seq<char>) -> Seq<char>
    decreases s.len(),
{
    if s.len() > 0 && (s[0] == 'x' || s[0] == 'X') {
        strip_x(s.drop_first())
    } else {
        s
    }
}

fn strip_x_chars(s: &[char]) -> (r: Vec<char>)
    ensures
        r@ == strip_x(s@),
{
    let mut i: usize = 0;
    assert(s@.subrange(0, s@.len() as int) =~= s@);
    while i < s.len() && (s[i] == 'x' || s[i] == 'X')
        invariant
            i <= s.len(),
            strip_x(s@) == strip_x(s@.subrange(i as int, s@.len() as int)),
        decreases s.len() - i,
    {
        assert(s@.subrange(i as int, s@.len() as int).drop_first() =~= s@.subrange(i + 1, s@.len() as int));
        i = i + 1;
    }
    slice_vec(s, i, s.len())
}

/// A number: `0x`/`x` hex or decimal, at most `max`.
pub open spec fn number_of(s: Seq<char>, max: nat) -> Option<nat> {
    let t = trim(s);
    if hex_prefixed(t) {
        parse_unsigned(strip_leading_0x(strip_x(t)), 16, max)
    } else {
        parse_unsigned(t, 10, max)
    }
}

pub fn parse_number(s: &[char], max: u64) -> (r: Option<u64>)
    requires
        max <= 0xFFFF,
    ensures
        match r {
            Some(v) => number_of(s@, max as nat) == Some(v as nat) && v <= max,
            None => number_of(s@, max as nat) is None,
        },
{
    let t = trim_chars(s);
    let r = if is_hex_prefixed(t.as_slice()) {
        let a = strip_x_chars(t.as_slice());
        let h = strip_leading_0x_chars(a.as_slice());
        parse_u_radix(h.as_slice(), true, max)
    } else {
        parse_u_radix(t.as_slice(), false, max)
    };
    r
}

/// A register pair name: B/BC, D/DE, H/HL, SP.
pub open spec fn pair_code_of(s: Seq<char>) -> Option<u8> {
    let u = upper_seq(s);
    if u == "B"@ || u == "BC"@ {
        Some(0)
    } else if u == "D"@ || u == "DE"@ {
        Some(1)
    } else if u == "H"@ || u == "HL"@ {
        Some(2)
    } else if u == "SP"@ {
        Some(3)
    } else {
        None
    }
}

fn pair_code(s: &[char]) -> (r: Option<u8>)
    ensures
        r == pair_code_of(s@),
{
    let u = to_upper(s);
    if eq_lit(u.as_slice(), "B") || eq_lit(u.as_slice(), "BC") {
        Some(0)
    } else if eq_lit(u.as_slice(), "D") || eq_lit(u.as_slice(), "DE") {
        Some(1)
    } else if eq_lit(u.as_slice(), "H") || eq_lit(u.as_slice(), "HL") {
        Some(2)
    } else if eq_lit(u.as_slice(), "SP") {
        Some(3)
    } else {
        None
    }
}

/// A two-byte address operand waiting for a label defined later.
pub struct Ref8085 {
    pub offset: usize,
    pub label: Vec<char>,
}

pub open spec fn grew(old_bytes: Seq<u8>, new_bytes: Seq<u8>, k: nat) -> bool {
    &&& old_bytes.len() <= new_bytes.len() <= old_bytes.len() + k
    &&& new_bytes.subrange(0, old_bytes.len() as int) == old_bytes
}

pub open spec fn refs_fit(refs: Seq<Ref8085>, len: nat) -> bool {
    forall|i: int| 0 <= i < refs.len() ==> (#[trigger] refs[i]).offset + 2 <= len
}

/// The one-byte instructions without operands.
pub open spec fn fixed_op(mn: Seq<char>) -> Option<u8> {
    if mn == "DAA"@ {
        Some(0x27u8)
    } else if mn == "CMA"@ {
        Some(0x2Fu8)
    } else if mn == "CMC"@ {
        Some(0x3Fu8)
    } else if mn == "STC"@ {
        Some(0x37u8)
    } else if mn == "RLC"@ {
        Some(0x07u8)
    } else if mn == "RRC"@ {
        Some(0x0Fu8)
    } else if mn == "RAL"@ {
        Some(0x17u8)
    } else if mn == "RAR"@ {
        Some(0x1Fu8)
    } else if mn == "XCHG"@ {
        Some(0xEBu8)
    } else if mn == "XTHL"@ {
        Some(0xE3u8)
    } else if mn == "SPHL"@ {
        Some(0xF9u8)
    } else if mn == "PCHL"@ {
        Some(0xE9u8)
    } else if mn == "RET"@ {
        Some(0xC9u8)
    } else if mn == "RNZ"@ {
        Some(0xC0u8)
    } else if mn == "RZ"@ {
        Some(0xC8u8)
    } else if mn == "RNC"@ {
        Some(0xD0u8)
    } else if mn == "RC"@ {
        Some(0xD8u8)
    } else if mn == "RPO"@ {
        Some(0xE0u8)
    } else if mn == "RPE"@ {
        Some(0xE8u8)
    } else if mn == "RP"@ {
        Some(0xF0u8)
    } else if mn == "RM"@ {
        Some(0xF8u8)
    } else {
        None
    }
}

/// The jumps and calls with a 16-bit address operand.
pub open spec fn address_op(mn: Seq<char>) -> Option<u8> {
    if mn == "JMP"@ {
        Some(0xC3u8)
    } else if mn == "JZ"@ {
        Some(0xCAu8)
    } else if mn == "JNZ"@ {
        Some(0xC2u8)
    } else if mn == "JC"@ {
        Some(0xDAu8)
    } else if mn == "JNC"@ {
        Some(0xD2u8)
    } else if mn == "JPO"@ {
        Some(0xE2u8)
    } else if mn == "JPE"@ {
        Some(0xEAu8)
    } else if mn == "JP"@ {
        Some(0xF2u8)
    } else if mn == "JM"@ {
        Some(0xFAu8)
    } else if mn == "CALL"@ {
        Some(0xCDu8)
    } else if mn == "CNZ"@ {
        Some(0xC4u8)
    } else if mn == "CZ"@ {
        Some(0xCCu8)
    } else if mn == "CNC"@ {
        Some(0xD4u8)
    } else if mn == "CC"@ {
        Some(0xDCu8)
    } else if mn == "CPO"@ {
        Some(0xE4u8)
    } else if mn == "CPE"@ {
        Some(0xECu8)
    } else if mn == "CP"@ {
        Some(0xF4u8)
    } else if mn == "CM"@ {
        Some(0xFCu8)
    } else {
        None
    }
}

/// The register-operand ALU instructions.
pub open spec fn alu_base(mn: Seq<char>) -> Option<u8> {
    if mn == "ADD"@ {
        Some(0x80u8)
    } else if mn == "ADC"@ {
        Some(0x88u8)
    } else if mn == "SUB"@ {
        Some(0x90u8)
    } else if mn == "SBB"@ {
        Some(0x98u8)
    } else if mn == "ANA"@ {
        Some(0xA0u8)
    } else if mn == "XRA"@ {
        Some(0xA8u8)
    } else if mn == "ORA"@ {
        Some(0xB0u8)
    } else if mn == "CMP"@ {
        Some(0xB8u8)
    } else {
        None
    }
}

/// The immediate and port instructions.
pub open spec fn imm_op(mn: Seq<char>) -> Option<u8> {
    if mn == "ADI"@ {
        Some(0xC6u8)
    } else if mn == "SUI"@ {
        Some(0xD6u8)
    } else if mn == "ACI"@ {
        Some(0xCEu8)
    } else if mn == "SBI"@ {
        Some(0xDEu8)
    } else if mn == "ANI"@ {
        Some(0xE6u8)
    } else if mn == "XRI"@ {
        Some(0xEEu8)
    } else if mn == "ORI"@ {
        Some(0xF6u8)
    } else if mn == "CPI"@ {
        Some(0xFEu8)
    } else if mn == "IN"@ {
        Some(0xDBu8)
    } else if mn == "OUT"@ {
        Some(0xD3u8)
    } else {
        None
    }
}

/// The register operand of the ALU instructions: memory (6) when missing or invalid.
pub open spec fn reg_or_m_of(a: Seq<Seq<char>>) -> u8 {
    if a.len() == 0 {
        6
    } else {
        match reg8085_of(a[0]) {
            Some(r) => r,
            None => 6,
        }
    }
}

/// A 16-bit address operand, little-endian: a defined label's address, else a
/// number; any other name gives a zero address, remembered for patching.
pub open spec fn addr_form(op: u8, arg: Seq<char>, defined: Map<Seq<char>, u32>) -> (Seq<u8>, Option<(int, Seq<char>)>) {
    if defined.dom().contains(arg) {
        let v = defined[arg];
        (seq![op, (v & 0xFFu32) as u8, (v >> 8u32) as u8], None)
    } else {
        match number_of(arg, 0xFFFF) {
            Some(v) => (seq![op, (v % 256) as u8, (v / 256) as u8], None),
            None => (seq![op, 0u8, 0u8], Some((1int, arg))),
        }
    }
}

pub open spec fn no_ref(b: Seq<u8>) -> Result<(Seq<u8>, Option<(int, Seq<char>)>), Seq<char>> {
    Ok((b, None))
}

/// The bytes of the instruction `mn a` with the labels `defined` so far, and
/// the offset and name of a label operand to patch later; or the error
/// message. `mn` is the upper-cased mnemonic, `a` the trimmed operands.
pub open spec fn enc8085(mn: Seq<char>, a: Seq<Seq<char>>, defined: Map<Seq<char>, u32>) -> Result<(Seq<u8>, Option<(int, Seq<char>)>), Seq<char>> {
    let n = a.len();
    if mn == "NOP"@ {
        no_ref(seq![0x00u8])
    } else if mn == "HLT"@ {
        no_ref(seq![0x76u8])
    } else if mn == "EI"@ {
        no_ref(seq![0xFBu8])
    } else if mn == "DI"@ {
        no_ref(seq![0xF3u8])
    } else if mn == "RIM"@ {
        no_ref(seq![0x20u8])
    } else if mn == "SIM"@ {
        no_ref(seq![0x30u8])
    } else if mn == "MOV"@ {
        if n >= 2 {
            match reg8085_of(a[0]) {
                None => Err("Invalid MOV destination"@),
                Some(d) => match reg8085_of(a[1]) {
                    None => Err("Invalid MOV source"@),
                    Some(s) => no_ref(seq![0x40u8 | (d << 3u8) | s]),
                },
            }
        } else {
            Err("MOV needs 2 operands"@)
        }
    } else if mn == "MVI"@ {
        if n >= 2 {
            match reg8085_of(a[0]) {
                None => Err("Invalid MVI register"@),
                Some(r) => match number_of(a[1], 0xFF) {
                    None => Err("Invalid immediate: "@ + a[1]),
                    Some(imm) => no_ref(seq![0x06u8 | (r << 3u8), imm as u8]),
                },
            }
        } else {
            Err("MVI needs register, immediate"@)
        }
    } else if mn == "INR"@ || mn == "DCR"@ {
        if n != 1 {
            Err(mn + " r"@)
        } else {
            match reg8085_of(a[0]) {
                None => Err("Invalid register"@),
                Some(r) => no_ref(seq![(if mn == "INR"@ { 0x04u8 } else { 0x05u8 }) | (r << 3u8)]),
            }
        }
    } else if mn == "INX"@ || mn == "DCX"@ || mn == "DAD"@ {
        if n != 1 {
            if mn == "DAD"@ { Err("DAD rp"@) } else { Err(mn + " rp"@) }
        } else {
            match pair_code_of(a[0]) {
                None => Err("Invalid register pair"@),
                Some(code) => no_ref(seq![(if mn == "DAD"@ { 0x09u8 } else if mn == "INX"@ { 0x03u8 } else { 0x0Bu8 }) | (code << 4u8)]),
            }
        }
    } else if mn == "LDA"@ || mn == "STA"@ {
        if n >= 1 {
            Ok(addr_form(if mn == "LDA"@ { 0x3Au8 } else { 0x32u8 }, a[0], defined))
        } else if mn == "LDA"@ {
            Err("LDA needs address"@)
        } else {
            Err("STA needs address"@)
        }
    } else if mn == "LDAX"@ || mn == "STAX"@ {
        let ldax = mn == "LDAX"@;
        if n != 1 {
            Err(if ldax { "LDAX B|D"@ } else { "STAX B|D"@ })
        } else {
            let u = upper_seq(a[0]);
            if u == "B"@ || u == "BC"@ {
                no_ref(seq![if ldax { 0x0Au8 } else { 0x02u8 }])
            } else if u == "D"@ || u == "DE"@ {
                no_ref(seq![if ldax { 0x1Au8 } else { 0x12u8 }])
            } else {
                Err(if ldax { "LDAX expects BC or DE"@ } else { "STAX expects BC or DE"@ })
            }
        }
    } else if mn == "LHLD"@ || mn == "SHLD"@ {
        if n != 1 {
            Err(if mn == "LHLD"@ { "LHLD addr"@ } else { "SHLD addr"@ })
        } else {
            Ok(addr_form(if mn == "LHLD"@ { 0x2Au8 } else { 0x22u8 }, a[0], defined))
        }
    } else if alu_base(mn) is Some {
        no_ref(seq![alu_base(mn)->0 | reg_or_m_of(a)])
    } else if imm_op(mn) is Some {
        let op = imm_op(mn)->0;
        let loose = mn == "ADI"@ || mn == "SUI"@;
        let port = mn == "IN"@ || mn == "OUT"@;
        if loose && n < 1 {
            Err(if op == 0xC6 { "ADI needs immediate"@ } else { "SUI needs immediate"@ })
        } else if !loose && n != 1 {
            if port {
                Err(if op == 0xDB { "IN port"@ } else { "OUT port"@ })
            } else if op == 0xCE {
                Err("ACI d8"@)
            } else if op == 0xDE {
                Err("SBI d8"@)
            } else {
                Err(mn + " d8"@)
            }
        } else {
            match number_of(a[0], 0xFF) {
                None => if loose {
                    Err("Invalid immediate: "@ + a[0])
                } else if port {
                    Err("Invalid port"@)
                } else {
                    Err("Invalid imm"@)
                },
                Some(imm) => no_ref(seq![op, imm as u8]),
            }
        }
    } else if fixed_op(mn) is Some {
        no_ref(seq![fixed_op(mn)->0])
    } else if mn == "RST"@ {
        if n != 1 {
            Err("RST n (0-7)"@)
        } else {
            match parse_unsigned(a[0], 10, 255) {
                None => Err("RST n must be decimal 0-7"@),
                Some(k) => if k > 7 {
                    Err("RST n must be 0-7"@)
                } else {
                    no_ref(seq![0xC7u8 | ((k as u8) << 3u8)])
                },
            }
        }
    } else if address_op(mn) is Some {
        let op = address_op(mn)->0;
        let strict = !(mn == "JMP"@ || mn == "JZ"@ || mn == "JNZ"@ || mn == "JC"@ || mn == "JNC"@ || mn == "CALL"@);
        if strict {
            if n == 1 {
                Ok(addr_form(op, a[0], defined))
            } else if op & 0xC7u8 == 0xC4u8 {
                Err("Ccc addr"@)
            } else {
                Err("Jcc addr"@)
            }
        } else if n >= 1 {
            Ok(addr_form(op, a[0], defined))
        } else if op == 0xC3 {
            Err("JMP needs address"@)
        } else if op == 0xCD {
            Err("CALL needs address"@)
        } else {
            Err("Jump needs address"@)
        }
    } else if mn == "PUSH"@ || mn == "POP"@ {
        let push = mn == "PUSH"@;
        let base: u8 = if push { 0xC5 } else { 0xC1 };
        if n != 1 {
            Err(if push { "PUSH rp (B/D/H/PSW)"@ } else { "POP rp (B/D/H/PSW)"@ })
        } else {
            let u = upper_seq(a[0]);
            if u == "B"@ || u == "BC"@ {
                no_ref(seq![base])
            } else if u == "D"@ || u == "DE"@ {
                no_ref(seq![base | 0x10u8])
            } else if u == "H"@ || u == "HL"@ {
                no_ref(seq![base | 0x20u8])
            } else if u == "PSW"@ {
                no_ref(seq![base | 0x30u8])
            } else {
                Err(if push { "PUSH expects BC, DE, HL, or PSW"@ } else { "POP expects BC, DE, HL, or PSW"@ })
            }
        }
    } else if mn == "LXI"@ {
        if n >= 2 {
            match pair_code_of(a[0]) {
                None => Err("LXI: expect BC, DE, HL, or SP"@),
                Some(code) => match number_of(a[1], 0xFFFF) {
                    Some(v) => no_ref(seq![0x01u8 | (code << 4u8), (v % 256) as u8, (v / 256) as u8]),
                    None => Ok((seq![0x01u8 | (code << 4u8), 0u8, 0u8], Some((1int, a[1])))),
                },
            }
        } else {
            Err("LXI needs rp, data16"@)
        }
    } else {
        Err("Unknown mnemonic: "@ + mn)
    }
}

/// The operands of an instruction line: the words after the mnemonic,
/// joined by spaces, split at commas and trimmed.
pub open spec fn operands(line: Seq<char>) -> Seq<Seq<char>> {
    let toks = tokens(line);
    let rest = joined(Seq::new((toks.len() - 1) as nat, |k: int| toks[1 + k]));
    let ps = pieces(rest, ',');
    Seq::new(ps.len(), |k: int| trim(ps[k]))
}

/// The views of a list of operands.
pub open spec fn views(v: Seq<Vec<char>>) -> Seq<Seq<char>> {
    Seq::new(v.len(), |k: int| v[k]@)
}

pub open spec fn opt_ref(r: Option<(usize, Vec<char>)>) -> Option<(int, Seq<char>)> {
    match r {
        Some((o, l)) => Some((o as int, l@)),
        None => None,
    }
}

fn one(b: u8) -> (v: Vec<u8>)
    ensures
        v@ == seq![b],
{
    let v = vec![b];
    assert(v@ =~= seq![b]);
    v
}

fn two(b0: u8, b1: u8) -> (v: Vec<u8>)
    ensures
        v@ == seq![b0, b1],
{
    let v = vec![b0, b1];
    assert(v@ =~= seq![b0, b1]);
    v
}

fn three(b0: u8, b1: u8, b2: u8) -> (v: Vec<u8>)
    ensures
        v@ == seq![b0, b1, b2],
{
    let v = vec![b0, b1, b2];
    assert(v@ =~= seq![b0, b1, b2]);
    v
}

type Enc = Result<(Vec<u8>, Option<(usize, Vec<char>)>), String>;

pub open spec fn enc_matches(r: Result<(Vec<u8>, Option<(usize, Vec<char>)>), String>, s: Result<(Seq<u8>, Option<(int, Seq<char>)>), Seq<char>>) -> bool {
    match r {
        Ok((b, x)) => s == Ok::<(Seq<u8>, Option<(int, Seq<char>)>), Seq<char>>((b@, opt_ref(x))),
        Err(m) => s == Err::<(Seq<u8>, Option<(int, Seq<char>)>), Seq<char>>(m@),
    }
}

/// The opcode and a 16-bit address operand.
fn addr_enc(op: u8, arg: &Vec<char>, labels: &LabelTable) -> (r: (Vec<u8>, Option<(usize, Vec<char>)>))
    requires
        labels.wf(),
    ensures
        (r.0@, opt_ref(r.1)) == addr_form(op, arg@, labels@),
{
    match labels.get(arg.as_slice()) {
        Some(v) => (three(op, (v & 0xFF) as u8, (v >> 8u32) as u8), None),
        None => match parse_number(arg.as_slice(), 0xFFFF) {
            Some(n) => (three(op, (n % 256) as u8, (n / 256) as u8), None),
            None => (three(op, 0, 0), Some((1usize, arg.clone()))),
        },
    }
}

fn fixed_opcode(mn: &Vec<char>) -> (r: Option<u8>)
    ensures
        r == fixed_op(mn@),
{
    let m = mn.as_slice();
    if eq_lit(m, "DAA") {
        Some(0x27)
    } else if eq_lit(m, "CMA") {
        Some(0x2F)
    } else if eq_lit(m, "CMC") {
        Some(0x3F)
    } else if eq_lit(m, "STC") {
        Some(0x37)
    } else if eq_lit(m, "RLC") {
        Some(0x07)
    } else if eq_lit(m, "RRC") {
        Some(0x0F)
    } else if eq_lit(m, "RAL") {
        Some(0x17)
    } else if eq_lit(m, "RAR") {
        Some(0x1F)
    } else if eq_lit(m, "XCHG") {
        Some(0xEB)
    } else if eq_lit(m, "XTHL") {
        Some(0xE3)
    } else if eq_lit(m, "SPHL") {
        Some(0xF9)
    } else if eq_lit(m, "PCHL") {
        Some(0xE9)
    } else if eq_lit(m, "RET") {
        Some(0xC9)
    } else if eq_lit(m, "RNZ") {
        Some(0xC0)
    } else if eq_lit(m, "RZ") {
        Some(0xC8)
    } else if eq_lit(m, "RNC") {
        Some(0xD0)
    } else if eq_lit(m, "RC") {
        Some(0xD8)
    } else if eq_lit(m, "RPO") {
        Some(0xE0)
    } else if eq_lit(m, "RPE") {
        Some(0xE8)
    } else if eq_lit(m, "RP") {
        Some(0xF0)
    } else if eq_lit(m, "RM") {
        Some(0xF8)
    } else {
        None
    }
}

fn address_opcode(mn: &Vec<char>) -> (r: Option<u8>)
    ensures
        r == address_op(mn@),
{
    let m = mn.as_slice();
    if eq_lit(m, "JMP") {
        Some(0xC3)
    } else if eq_lit(m, "JZ") {
        Some(0xCA)
    } else if eq_lit(m, "JNZ") {
        Some(0xC2)
    } else if eq_lit(m, "JC") {
        Some(0xDA)
    } else if eq_lit(m, "JNC") {
        Some(0xD2)
    } else if eq_lit(m, "JPO") {
        Some(0xE2)
    } else if eq_lit(m, "JPE") {
        Some(0xEA)
    } else if eq_lit(m, "JP") {
        Some(0xF2)
    } else if eq_lit(m, "JM") {
        Some(0xFA)
    } else if eq_lit(m, "CALL") {
        Some(0xCD)
    } else if eq_lit(m, "CNZ") {
        Some(0xC4)
    } else if eq_lit(m, "CZ") {
        Some(0xCC)
    } else if eq_lit(m, "CNC") {
        Some(0xD4)
    } else if eq_lit(m, "CC") {
        Some(0xDC)
    } else if eq_lit(m, "CPO") {
        Some(0xE4)
    } else if eq_lit(m, "CPE") {
        Some(0xEC)
    } else if eq_lit(m, "CP") {
        Some(0xF4)
    } else if eq_lit(m, "CM") {
        Some(0xFC)
    } else {
        None
    }
}

fn alu_base_of(mn: &Vec<char>) -> (r: Option<u8>)
    ensures
        r == alu_base(mn@),
{
    let m = mn.as_slice();
    if eq_lit(m, "ADD") {
        Some(0x80)
    } else if eq_lit(m, "ADC") {
        Some(0x88)
    } else if eq_lit(m, "SUB") {
        Some(0x90)
    } else if eq_lit(m, "SBB") {
        Some(0x98)
    } else if eq_lit(m, "ANA") {
        Some(0xA0)
    } else if eq_lit(m, "XRA") {
        Some(0xA8)
    } else if eq_lit(m, "ORA") {
        Some(0xB0)
    } else if eq_lit(m, "CMP") {
        Some(0xB8)
    } else {
        None
    }
}

fn imm_opcode(mn: &Vec<char>) -> (r: Option<u8>)
    ensures
        r == imm_op(mn@),
{
    let m = mn.as_slice();
    if eq_lit(m, "ADI") {
        Some(0xC6)
    } else if eq_lit(m, "SUI") {
        Some(0xD6)
    } else if eq_lit(m, "ACI") {
        Some(0xCE)
    } else if eq_lit(m, "SBI") {
        Some(0xDE)
    } else if eq_lit(m, "ANI") {
        Some(0xE6)
    } else if eq_lit(m, "XRI") {
        Some(0xEE)
    } else if eq_lit(m, "ORI") {
        Some(0xF6)
    } else if eq_lit(m, "CPI") {
        Some(0xFE)
    } else if eq_lit(m, "IN") {
        Some(0xDB)
    } else if eq_lit(m, "OUT") {
        Some(0xD3)
    } else {
        None
    }
}

/// The register operand of the ALU instructions: memory (code 6) when
/// missing or invalid.
fn reg_or_m(args: &Vec<Vec<char>>) -> (r: u8)
    ensures
        r == reg_or_m_of(views(args@)),
        r <= 7,
{
    if args.len() == 0 {
        6
    } else {
        match parse_reg_8085(args[0].as_slice()) {
            Some(r) => r,
            None => 6,
        }
    }
}

/// Encodes `mn` with the trimmed operands `args`.
fn enc_8085(mn: &Vec<char>, args: &Vec<Vec<char>>, labels: &LabelTable) -> (r: Enc)
    requires
        labels.wf(),
    ensures
        enc_matches(r, enc8085(mn@, views(args@), labels@)),
{
    let ghost a = views(args@);
    let m = mn.as_slice();
    let n = args.len();
    assert(a.len() == n);
    if eq_lit(m, "NOP") {
        Ok((one(0x00), None))
    } else if eq_lit(m, "HLT") {
        Ok((one(0x76), None))
    } else if eq_lit(m, "EI") {
        Ok((one(0xFB), None))
    } else if eq_lit(m, "DI") {
        Ok((one(0xF3), None))
    } else if eq_lit(m, "RIM") {
        Ok((one(0x20), None))
    } else if eq_lit(m, "SIM") {
        Ok((one(0x30), None))
    } else if eq_lit(m, "MOV") {
        if n >= 2 {
            match parse_reg_8085(args[0].as_slice()) {
                None => Err(lit("Invalid MOV destination")),
                Some(d) => match parse_reg_8085(args[1].as_slice()) {
                    None => Err(lit("Invalid MOV source")),
                    Some(s) => Ok((one(0x40u8 | (d << 3u8) | s), None)),
                },
            }
        } else {
            Err(lit("MOV needs 2 operands"))
        }
    } else if eq_lit(m, "MVI") {
        if n >= 2 {
            match parse_reg_8085(args[0].as_slice()) {
                None => Err(lit("Invalid MVI register")),
                Some(r) => match parse_number(args[1].as_slice(), 0xFF) {
                    None => Err(msg_with("Invalid immediate: ", args[1].as_slice())),
                    Some(imm) => Ok((two(0x06u8 | (r << 3u8), imm as u8), None)),
                },
            }
        } else {
            Err(lit("MVI needs register, immediate"))
        }
    } else if eq_lit(m, "INR") || eq_lit(m, "DCR") {
        if n != 1 {
            Err(Text::new().all(m).s(" r").done())
        } else {
            match parse_reg_8085(args[0].as_slice()) {
                None => Err(lit("Invalid register")),
                Some(r) => Ok((one((if eq_lit(m, "INR") { 0x04u8 } else { 0x05u8 }) | (r << 3u8)), None)),
            }
        }
    } else if eq_lit(m, "INX") || eq_lit(m, "DCX") || eq_lit(m, "DAD") {
        let dad = eq_lit(m, "DAD");
        if n != 1 {
            if dad {
                Err(lit("DAD rp"))
            } else {
                Err(Text::new().all(m).s(" rp").done())
            }
        } else {
            match pair_code(args[0].as_slice()) {
                None => Err(lit("Invalid register pair")),
                Some(code) => {
                    let base: u8 = if dad { 0x09 } else if eq_lit(m, "INX") { 0x03 } else { 0x0B };
                    Ok((one(base | (code << 4u8)), None))
                },
            }
        }
    } else if eq_lit(m, "LDA") || eq_lit(m, "STA") {
        let lda = eq_lit(m, "LDA");
        if n >= 1 {
            Ok(addr_enc(if lda { 0x3A } else { 0x32 }, &args[0], labels))
        } else if lda {
            Err(lit("LDA needs address"))
        } else {
            Err(lit("STA needs address"))
        }
    } else if eq_lit(m, "LDAX") || eq_lit(m, "STAX") {
        let ldax = eq_lit(m, "LDAX");
        if n != 1 {
            Err(lit(if ldax { "LDAX B|D" } else { "STAX B|D" }))
        } else {
            let u = to_upper(args[0].as_slice());
            if eq_lit(u.as_slice(), "B") || eq_lit(u.as_slice(), "BC") {
                Ok((one(if ldax { 0x0A } else { 0x02 }), None))
            } else if eq_lit(u.as_slice(), "D") || eq_lit(u.as_slice(), "DE") {
                Ok((one(if ldax { 0x1A } else { 0x12 }), None))
            } else {
                Err(lit(if ldax { "LDAX expects BC or DE" } else { "STAX expects BC or DE" }))
            }
        }
    } else if eq_lit(m, "LHLD") || eq_lit(m, "SHLD") {
        let lhld = eq_lit(m, "LHLD");
        if n != 1 {
            Err(lit(if lhld { "LHLD addr" } else { "SHLD addr" }))
        } else {
            Ok(addr_enc(if lhld { 0x2A } else { 0x22 }, &args[0], labels))
        }
    } else if let Some(base) = alu_base_of(mn) {
        Ok((one(base | reg_or_m(args)), None))
    } else if let Some(op) = imm_opcode(mn) {
        let loose = eq_lit(m, "ADI") || eq_lit(m, "SUI");
        let port = eq_lit(m, "IN") || eq_lit(m, "OUT");
        if loose && n < 1 {
            Err(lit(if op == 0xC6 { "ADI needs immediate" } else { "SUI needs immediate" }))
        } else if !loose && n != 1 {
            if port {
                Err(lit(if op == 0xDB { "IN port" } else { "OUT port" }))
            } else if op == 0xCE {
                Err(lit("ACI d8"))
            } else if op == 0xDE {
                Err(lit("SBI d8"))
            } else {
                Err(Text::new().all(m).s(" d8").done())
            }
        } else {
            match parse_number(args[0].as_slice(), 0xFF) {
                None => if loose {
                    Err(msg_with("Invalid immediate: ", args[0].as_slice()))
                } else if port {
                    Err(lit("Invalid port"))
                } else {
                    Err(lit("Invalid imm"))
                },
                Some(imm) => Ok((two(op, imm as u8), None)),
            }
        }
    } else if let Some(op) = fixed_opcode(mn) {
        Ok((one(op), None))
    } else if eq_lit(m, "RST") {
        if n != 1 {
            Err(lit("RST n (0-7)"))
        } else {
            match crate::text::parse_uint(args[0].as_slice(), 10, 255) {
                None => Err(lit("RST n must be decimal 0-7")),
                Some(k) => if k > 7 {
                    Err(lit("RST n must be 0-7"))
                } else {
                    Ok((one(0xC7u8 | ((k as u8) << 3u8)), None))
                },
            }
        }
    } else if let Some(op) = address_opcode(mn) {
        let strict = !(eq_lit(m, "JMP") || eq_lit(m, "JZ") || eq_lit(m, "JNZ") || eq_lit(m, "JC") || eq_lit(m, "JNC")
            || eq_lit(m, "CALL"));
        if strict {
            if n == 1 {
                Ok(addr_enc(op, &args[0], labels))
            } else if op & 0xC7u8 == 0xC4u8 {
                Err(lit("Ccc addr"))
            } else {
                Err(lit("Jcc addr"))
            }
        } else if n >= 1 {
            Ok(addr_enc(op, &args[0], labels))
        } else if op == 0xC3 {
            Err(lit("JMP needs address"))
        } else if op == 0xCD {
            Err(lit("CALL needs address"))
        } else {
            Err(lit("Jump needs address"))
        }
    } else if eq_lit(m, "PUSH") || eq_lit(m, "POP") {
        let push = eq_lit(m, "PUSH");
        let base: u8 = if push { 0xC5 } else { 0xC1 };
        if n != 1 {
            Err(lit(if push { "PUSH rp (B/D/H/PSW)" } else { "POP rp (B/D/H/PSW)" }))
        } else {
            let u = to_upper(args[0].as_slice());
            if eq_lit(u.as_slice(), "B") || eq_lit(u.as_slice(), "BC") {
                Ok((one(base), None))
            } else if eq_lit(u.as_slice(), "D") || eq_lit(u.as_slice(), "DE") {
                Ok((one(base | 0x10u8), None))
            } else if eq_lit(u.as_slice(), "H") || eq_lit(u.as_slice(), "HL") {
                Ok((one(base | 0x20u8), None))
            } else if eq_lit(u.as_slice(), "PSW") {
                Ok((one(base | 0x30u8), None))
            } else {
                Err(lit(if push { "PUSH expects BC, DE, HL, or PSW" } else { "POP expects BC, DE, HL, or PSW" }))
            }
        }
    } else if eq_lit(m, "LXI") {
        if n >= 2 {
            match pair_code(args[0].as_slice()) {
                None => Err(lit("LXI: expect BC, DE, HL, or SP")),
                Some(code) => match parse_number(args[1].as_slice(), 0xFFFF) {
                    Some(v) => Ok((three(0x01u8 | (code << 4u8), (v % 256) as u8, (v / 256) as u8), None)),
                    None => Ok((three(0x01u8 | (code << 4u8), 0, 0), Some((1usize, args[1].clone())))),
                },
            }
        } else {
            Err(lit("LXI needs rp, data16"))
        }
    } else {
        Err(msg_with("Unknown mnemonic: ", m))
    }
}

/// Encodes one instruction at `pc`: its bytes are appended, a source map
/// entry is recorded, and a label operand not yet defined is remembered.
pub fn parse_8085_instruction(
    line: &[char],
    line_num: u32,
    col: u32,
    pc: u32,
    labels: &LabelTable,
    bytes: &mut Vec<u8>,
    source_map: &mut Vec<SourceMapEntry>,
    pending: &mut Vec<Ref8085>,
) -> (res: Result<(), AssemblerError>)
    requires
        labels.wf(),
        refs_fit(old(pending)@, old(bytes)@.len()),
    ensures
        ({
            let toks = tokens(line@);
            if toks.len() == 0 {
                &&& res is Ok
                &&& final(bytes)@ == old(bytes)@
                &&& final(source_map)@ == old(source_map)@
                &&& final(pending)@ == old(pending)@
            } else {
                &&& final(source_map)@ == old(source_map)@.push(SourceMapEntry { pc, line: line_num, column: col })
                &&& match enc8085(upper_seq(toks[0]), operands(line@), labels@) {
                    Ok((bs, rf)) => {
                        &&& res is Ok
                        &&& final(bytes)@ == old(bytes)@ + bs
                        &&& final(pending)@.len() == old(pending)@.len() + (if rf is Some { 1int } else { 0int })
                        &&& forall|i: int| 0 <= i < old(pending)@.len() ==> #[trigger] final(pending)@[i] == old(pending)@[i]
                        &&& rf matches Some((o, l)) ==> final(pending)@.last().offset == old(bytes)@.len() + o
                            && final(pending)@.last().label@ == l
                    },
                    Err(msg) => {
                        &&& res matches Err(e) && e.line == line_num && e.column == col && e.message@ == msg
                        &&& final(bytes)@ == old(bytes)@
                        &&& final(pending)@ == old(pending)@
                    },
                }
            }
        }),
        grew(old(bytes)@, final(bytes)@, 3),
        refs_fit(final(pending)@, final(bytes)@.len()),
{
    let ghost b0 = bytes@;
    let ghost p0 = pending@;
    let parts = split_ws(line);
    if parts.len() == 0 {
        assert(bytes@.subrange(0, b0.len() as int) =~= b0);
        return Ok(());
    }
    let mn = to_upper(parts[0].as_slice());
    let args_str = join_from(&parts, 1);
    let pieces = split_on(args_str.as_slice(), ',');
    let args = trim_each(&pieces);
    proof {
        let toks = tokens(line@);
        assert(Seq::new((parts@.len() - 1) as nat, |k: int| parts@[1 + k]@) =~= Seq::new((toks.len() - 1) as nat, |k: int| toks[1 + k]));
        assert(views(args@) =~= operands(line@));
    }
    source_map.push(SourceMapEntry { pc, line: line_num, column: col });
    match enc_8085(&mn, &args, labels) {
        Err(msg) => {
            assert(bytes@.subrange(0, b0.len() as int) =~= b0);
            Err(asm_error(line_num, col, msg))
        },
        Ok((bs, rf)) => {
            proof {
                enc8085_len(mn@, views(args@), labels@);
            }
            let start = bytes.len();
            let mut i: usize = 0;
            while i < bs.len()
                invariant
                    i <= bs@.len(),
                    bytes@ == b0 + bs@.subrange(0, i as int),
                decreases bs@.len() - i,
            {
                bytes.push(bs[i]);
                assert(bs@.subrange(0, i + 1) =~= bs@.subrange(0, i as int).push(bs@[i as int]));
                i = i + 1;
            }
            assert(bs@.subrange(0, bs@.len() as int) =~= bs@);
            assert(bytes@.subrange(0, b0.len() as int) =~= b0);
            match rf {
                Some((o, l)) => {
                    let end = bytes.len();
                    assert(o == 1 && end == start + 3);
                    pending.push(Ref8085 { offset: start + o, label: l });
                },
                None => {},
            }
            proof {
                assert forall|i: int| 0 <= i < pending@.len() implies (#[trigger] pending@[i]).offset + 2 <= bytes@.len() by {
                    if i < p0.len() {
                        assert(pending@[i] == p0[i]);
                    }
                }
            }
            Ok(())
        },
    }
}

/// An encoding is one to three bytes, and a label operand's address lies within it.
proof fn enc8085_len(mn: Seq<char>, a: Seq<Seq<char>>, defined: Map<Seq<char>, u32>)
    ensures
        enc8085(mn, a, defined) matches Ok((bs, rf)) ==> 1 <= bs.len() <= 3 && (rf matches Some((o, l)) ==> o == 1
            && bs.len() == 3),
{
}

/// Four upper-case hex digits.
pub fn hex4(v: u32) -> (r: String)
    ensures
        r@ == hex_text(v as nat, 4),
{
    Text::new().hex(v as u64, 4).done()
}

/// Appends `n` zero bytes.
pub fn pad(bytes: &mut Vec<u8>, n: u32)
    ensures
        final(bytes)@ == old(bytes)@ + Seq::new(n as nat, |i: int| 0u8),
{
    let ghost b0 = bytes@;
    let mut i: u32 = 0;
    while i < n
        invariant
            i <= n,
            bytes@ == b0 + Seq::new(i as nat, |k: int| 0u8),
        decreases n - i,
    {
        bytes.push(0);
        assert(bytes@ =~= b0 + Seq::new((i + 1) as nat, |k: int| 0u8));
        i = i + 1;
    }
}

/// A pending reference seen as the offset of its address field and its label.
pub type Ref8085View = (int, Seq<char>);

pub open spec fn ref8085_view(p: Ref8085) -> Ref8085View {
    (p.offset as int, p.label@)
}

pub open spec fn refs8085_view(ps: Seq<Ref8085>) -> Seq<Ref8085View> {
    ps.map_values(|p: Ref8085| ref8085_view(p))
}

/// The first pass of the 8085 assembler: the gathered state and whether
/// `.ORG` has set the origin (kept in `start`).
pub type Scan8085 = (Scan<Ref8085View>, bool);

pub open spec fn i8085_init() -> Scan8085 {
    (
        Scan {
            bytes: Seq::empty(),
            smap: Seq::empty(),
            errors: Seq::empty(),
            labels: Map::empty(),
            refs: Seq::empty(),
            start: 0,
            pc: 0,
            ended: false,
        },
        false,
    )
}

/// One instruction at the current address; the address moves on by the
/// bytes it took.
#[verifier::opaque]
pub open spec fn i8085_instr(st: Scan<Ref8085View>, body: Seq<char>, ln: u32) -> Scan<Ref8085View> {
    let toks = tokens(body);
    if toks.len() == 0 {
        st
    } else {
        let smap = st.smap.push(SourceMapEntry { pc: st.pc, line: ln, column: 1 });
        match enc8085(upper_seq(toks[0]), operands(body), st.labels) {
            Ok((bs, rf)) => Scan {
                bytes: st.bytes + bs,
                smap,
                refs: match rf {
                    Some((o, l)) => st.refs.push((st.bytes.len() + o, l)),
                    None => st.refs,
                },
                pc: ((st.pc + bs.len()) % 0x1_0000_0000) as u32,
                ..st
            },
            Err(msg) => Scan { smap, errors: st.errors.push((ln, 1u32, msg)), ..st },
        }
    }
}

/// The message for an `.ORG` below the current address.
pub open spec fn org_back_msg(pc: u32, addr: u32) -> Seq<char> {
    ".ORG cannot move PC backwards (0x"@ + hex_text(pc as nat, 4) + " -> 0x"@ + hex_text(addr as nat, 4) + ")"@
}

/// One source line (index `i`) of the first pass. A line with a `:` defines
/// the label before it (when not empty) and assembles what follows; `.ORG`
/// sets the origin the first time (while nothing is emitted), later it pads
/// forward with zeros.
pub open spec fn i8085_line(s: Scan8085, i: int, raw: Seq<char>) -> Scan8085 {
    let (st, org_set) = s;
    let line = code_of(raw, ';');
    let ln = line_number(i);
    if line.len() == 0 {
        s
    } else {
        match find_char(line, ':') {
            Some(idx) => {
                let label = trim(line.subrange(0, idx));
                let st1 = if label.len() > 0 { Scan { labels: st.labels.insert(label, st.pc), ..st } } else { st };
                let rest = trim(line.subrange(idx + 1, line.len() as int));
                if rest.len() == 0 {
                    (st1, org_set)
                } else {
                    (i8085_instr(st1, rest, ln), org_set)
                }
            },
            None => {
                if starts_with(upper_seq(line), ".ORG "@) {
                    let parts = tokens(line);
                    if parts.len() >= 2 && number_of(parts[1], 0xFFFF) is Some {
                        let addr = number_of(parts[1], 0xFFFF).unwrap() as u32;
                        if !org_set && st.bytes.len() == 0 {
                            (Scan { start: addr, pc: addr, ..st }, true)
                        } else if addr >= st.pc {
                            (Scan { bytes: st.bytes + Seq::new((addr - st.pc) as nat, |k: int| 0u8), pc: addr, ..st }, org_set)
                        } else {
                            (Scan { errors: st.errors.push((ln, 1u32, org_back_msg(st.pc, addr))), ..st }, org_set)
                        }
                    } else {
                        s
                    }
                } else {
                    (i8085_instr(st, line, ln), org_set)
                }
            },
        }
    }
}

/// The first pass over the first `n` lines.
pub open spec fn i8085_scan(lines: Seq<Seq<char>>, n: nat) -> Scan8085
    decreases n,
{
    if n == 0 || n > lines.len() {
        i8085_init()
    } else {
        i8085_line(i8085_scan(lines, (n - 1) as nat), n - 1, lines[n - 1])
    }
}

/// The second pass for one forward reference: its address written
/// little-endian, or an error at line 0.
pub open spec fn i8085_patch(b: Seq<u8>, es: Seq<(u32, u32, Seq<char>)>, labels: Map<Seq<char>, u32>, r: Ref8085View) -> (
    Seq<u8>,
    Seq<(u32, u32, Seq<char>)>,
) {
    let (off, label) = r;
    if labels.contains_key(label) {
        let target = labels[label];
        if off < b.len() && off + 1 < b.len() {
            (b.update(off, (target & 0xFFu32) as u8).update(off + 1, (target >> 8u32) as u8), es)
        } else {
            (b, es)
        }
    } else {
        (b, es.push((0u32, 1u32, "Unknown label: "@ + label)))
    }
}

/// The second pass over a list of references, in order.
pub open spec fn i8085_patch_all(b: Seq<u8>, es: Seq<(u32, u32, Seq<char>)>, labels: Map<Seq<char>, u32>, refs: Seq<Ref8085View>) -> (
    Seq<u8>,
    Seq<(u32, u32, Seq<char>)>,
)
    decreases refs.len(),
{
    if refs.len() == 0 {
        (b, es)
    } else {
        let (b1, e1) = i8085_patch_all(b, es, labels, refs.drop_last());
        i8085_patch(b1, e1, labels, refs.last())
    }
}

/// Fills in the address of a forward label reference.
fn patch(bytes: &mut Vec<u8>, errors: &mut Vec<AssemblerError>, labels: &LabelTable, r: &Ref8085)
    requires
        labels.wf(),
    ensures
        (final(bytes)@, errs_view(final(errors)@)) == i8085_patch(old(bytes)@, errs_view(old(errors)@), labels.view(), ref8085_view(*r)),
        final(bytes)@.len() == old(bytes)@.len(),
{
    match labels.get(r.label.as_slice()) {
        Some(target) => {
            if r.offset < bytes.len() && r.offset + 1 < bytes.len() {
                bytes.set(r.offset, (target & 0xFFu32) as u8);
                bytes.set(r.offset + 1, (target >> 8u32) as u8);
            }
        },
        None => {
            let e = asm_error(0, 1, msg_with("Unknown label: ", r.label.as_slice()));
            proof { lemma_errs_push(errors@, e); }
            errors.push(e);
        },
    }
}

/// The first-pass state that the assembler's working values stand for.
pub open spec fn i8085_scan_of(
    bytes: Seq<u8>,
    smap: Seq<SourceMapEntry>,
    errors: Seq<AssemblerError>,
    labels: Map<Seq<char>, u32>,
    refs: Seq<Ref8085>,
    origin: u32,
    pc: u32,
    origin_set: bool,
) -> Scan8085 {
    (
        Scan {
            bytes,
            smap,
            errors: errs_view(errors),
            labels,
            refs: refs8085_view(refs),
            start: origin,
            pc,
            ended: false,
        },
        origin_set,
    )
}

/// The first pass over one source line.
#[verifier::spinoff_prover]
fn scan_line(
    raw: &[char],
    li: usize,
    bytes: &mut Vec<u8>,
    source_map: &mut Vec<SourceMapEntry>,
    errors: &mut Vec<AssemblerError>,
    labels: &mut LabelTable,
    pending: &mut Vec<Ref8085>,
    origin: &mut u32,
    pc: &mut u32,
    origin_set: &mut bool,
)
    requires
        old(labels).wf(),
        refs_fit(old(pending)@, old(bytes)@.len()),
        li < usize::MAX,
    ensures
        final(labels).wf(),
        refs_fit(final(pending)@, final(bytes)@.len()),
        i8085_scan_of(final(bytes)@, final(source_map)@, final(errors)@, final(labels).view(), final(pending)@, *final(origin), *final(pc), *final(origin_set))
            == i8085_line(
            i8085_scan_of(old(bytes)@, old(source_map)@, old(errors)@, old(labels).view(), old(pending)@, *old(origin), *old(pc), *old(origin_set)),
            li as int,
            raw@,
        ),
{
    let line_num: u32 = ((li as u64 + 1) % 0x1_0000_0000) as u32;
    let line = code_part(raw, ';');
    proof {
        lemma_find_char(line@, ':');
    }
    if line.len() == 0 {
        return;
    }
    let col: u32 = 1;
    let body: Vec<char> = match find(line.as_slice(), ':') {
        Some(idx) => {
            let lab = slice_vec(line.as_slice(), 0, idx);
            let label = trim_chars(lab.as_slice());
            if label.len() > 0 {
                labels.insert(label, *pc);
            }
            let rest0 = slice_vec(line.as_slice(), idx + 1, line.len());
            let rest = trim_chars(rest0.as_slice());
            if rest.len() == 0 {
                return;
            }
            rest
        },
        None => {
            let up = to_upper(line.as_slice());
            if starts_with_lit(up.as_slice(), ".ORG ") {
                let parts = split_ws(line.as_slice());
                if parts.len() >= 2 {
                    match parse_number(parts[1].as_slice(), 0xFFFF) {
                        Some(a) => {
                            let addr = a as u32;
                            if !*origin_set && bytes.len() == 0 {
                                *origin = addr;
                                *pc = addr;
                                *origin_set = true;
                            } else if addr >= *pc {
                                pad(bytes, addr - *pc);
                                *pc = addr;
                            } else {
                                let m = Text::new().s(".ORG cannot move PC backwards (0x").string(&hex4(*pc)).s(" -> 0x").string(
                                    &hex4(addr),
                                ).s(")").done();
                                let e = asm_error(line_num, col, m);
                                proof {
                                    lemma_errs_push(errors@, e);
                                }
                                errors.push(e);
                            }
                        },
                        None => {},
                    }
                }
                return;
            }
            line
        },
    };
    let ghost st1 = i8085_scan_of(bytes@, source_map@, errors@, labels.view(), pending@, *origin, *pc, *origin_set).0;
    scan_instr(body.as_slice(), line_num, labels, bytes, source_map, errors, pending, pc, Ghost(st1));
}

/// One instruction of the first pass at `pc`, which moves on by the bytes it took.
fn scan_instr(
    body: &[char],
    line_num: u32,
    labels: &LabelTable,
    bytes: &mut Vec<u8>,
    source_map: &mut Vec<SourceMapEntry>,
    errors: &mut Vec<AssemblerError>,
    pending: &mut Vec<Ref8085>,
    pc: &mut u32,
    Ghost(st): Ghost<Scan<Ref8085View>>,
)
    requires
        labels.wf(),
        refs_fit(old(pending)@, old(bytes)@.len()),
        st.bytes == old(bytes)@,
        st.smap == old(source_map)@,
        st.errors == errs_view(old(errors)@),
        st.labels == labels.view(),
        st.refs == refs8085_view(old(pending)@),
        st.pc == *old(pc),
    ensures
        refs_fit(final(pending)@, final(bytes)@.len()),
        ({
            let st2 = i8085_instr(st, body@, line_num);
            &&& final(bytes)@ == st2.bytes
            &&& final(source_map)@ == st2.smap
            &&& errs_view(final(errors)@) == st2.errors
            &&& refs8085_view(final(pending)@) == st2.refs
            &&& *final(pc) == st2.pc
            &&& st2.labels == st.labels
            &&& st2.start == st.start
            &&& st2.ended == st.ended
        }),
{
    reveal(i8085_instr);
    let start_len = bytes.len();
    match parse_8085_instruction(body, line_num, 1, *pc, labels, bytes, source_map, pending) {
        Err(e) => {
            proof {
                lemma_errs_push(errors@, e);
            }
            errors.push(e);
        },
        Ok(()) => {
            proof {
                assert(refs8085_view(pending@) =~= i8085_instr(st, body@, line_num).refs);
            }
        },
    }
    *pc = ((*pc as u64 + (bytes.len() - start_len) as u64) % 0x1_0000_0000) as u32;
}

/// The message when `_start` and the `.ORG` origin differ.
pub open spec fn start_differs_msg(st: u32, origin: u32) -> Seq<char> {
    "_start label (0x"@ + hex_text(st as nat, 4) + ") differs from .ORG origin (0x"@ + hex_text(origin as nat, 4)
        + "); simulator loads+starts at entry_pc only"@
}


/// What assembling 8085 source gives.
pub open spec fn i8085_image(source: Seq<char>) -> ImageView {
    let lines = lines_spec(source);
    let (sc, org_set) = i8085_scan(lines, lines.len());
    let fin = i8085_patch_all(sc.bytes, sc.errors, sc.labels, sc.refs);
    let has_start = sc.labels.contains_key("_start"@);
    let st = sc.labels["_start"@];
    (fin.0, sc.smap, if org_set && has_start && st != sc.start { fin.1.push((0u32, 1u32, start_differs_msg(st, sc.start))) } else { fin.1 }, if has_start { st } else { sc.start })
}

impl I8085Plugin {
    /// Assembles 8085 source text into a program image: a first pass over
    /// the lines (backward labels resolved at once), then each forward label
    /// operand patched in order; the entry point is `_start` when defined,
    /// else the origin, and an error notes a `_start` away from an `.ORG` origin.
    pub fn assemble(&self, source: &str) -> (img: ProgramImage)
        ensures
            image_view(img) == i8085_image(source@),
    {
        let src = chars_of(source);
        let lines = split_lines(src.as_slice());
        let ghost ls = lines_spec(source@);
        let mut bytes: Vec<u8> = Vec::new();
        let mut source_map: Vec<SourceMapEntry> = Vec::new();
        let mut errors: Vec<AssemblerError> = Vec::new();
        let mut labels = LabelTable::new();
        let mut pending: Vec<Ref8085> = Vec::new();
        let mut pc: u32 = 0;
        let mut origin: u32 = 0;
        let mut origin_set = false;
        let mut li: usize = 0;
        proof {
            assert(errs_view(errors@) =~= Seq::empty());
            assert(refs8085_view(pending@) =~= Seq::empty());
        }
        while li < lines.len()
            invariant
                labels.wf(),
                refs_fit(pending@, bytes@.len()),
                li <= lines@.len(),
                lines@.len() == ls.len(),
                forall|k: int| 0 <= k < lines@.len() ==> #[trigger] lines@[k]@ == ls[k],
                i8085_scan(ls, li as nat) == i8085_scan_of(bytes@, source_map@, errors@, labels.view(), pending@, origin, pc, origin_set),
            decreases lines@.len() - li,
        {
            scan_line(lines[li].as_slice(), li, &mut bytes, &mut source_map, &mut errors, &mut labels, &mut pending, &mut origin, &mut pc, &mut origin_set);
            li = li + 1;
        }
        let ghost sc = i8085_scan(ls, ls.len()).0;
        let ghost refs = sc.refs;
        let mut k: usize = 0;
        proof {
            assert(refs.subrange(0, 0) =~= Seq::<Ref8085View>::empty());
        }
        while k < pending.len()
            invariant
                labels.wf(),
                labels.view() == sc.labels,
                k <= pending@.len(),
                refs == refs8085_view(pending@),
                (bytes@, errs_view(errors@)) == i8085_patch_all(sc.bytes, sc.errors, sc.labels, refs.subrange(0, k as int)),
            decreases pending@.len() - k,
        {
            patch(&mut bytes, &mut errors, &labels, &pending[k]);
            proof {
                assert(refs.subrange(0, k + 1).drop_last() =~= refs.subrange(0, k as int));
                assert(refs.subrange(0, k + 1).last() == ref8085_view(pending@[k as int]));
            }
            k = k + 1;
        }
        proof {
            assert(refs.subrange(0, refs.len() as int) =~= refs);
        }
        let start_name = chars_of("_start");
        let start = labels.get(start_name.as_slice());
        if origin_set {
            match start {
                Some(st) => {
                    if st != origin {
                        let m = Text::new().s("_start label (0x").string(&hex4(st)).s(") differs from .ORG origin (0x").string(
                            &hex4(origin),
                        ).s("); simulator loads+starts at entry_pc only").done();
                        let e = asm_error(0, 1, m);
                        proof {
                            lemma_errs_push(errors@, e);
                        }
                        errors.push(e);
                    }
                },
                None => {},
            }
        }
        let entry_pc = match start {
            Some(a) => a,
            None => origin,
        };
        ProgramImage { bytes, entry_pc, source_map, errors }
    }
}

/// The jump mnemonics are none of the other mnemonics, and their opcodes.
proof fn lemma_jump_names()
    ensures
        address_op("JMP"@) == Some(0xC3u8),
        address_op("JZ"@) == Some(0xCAu8),
        address_op("JNZ"@) == Some(0xC2u8),
        address_op("JC"@) == Some(0xDAu8),
        address_op("JNC"@) == Some(0xD2u8),
        address_op("JPO"@) == Some(0xE2u8),
        address_op("JPE"@) == Some(0xEAu8),
        address_op("JP"@) == Some(0xF2u8),
        address_op("JM"@) == Some(0xFAu8),
        alu_base("JMP"@) is None && imm_op("JMP"@) is None && fixed_op("JMP"@) is None,
        alu_base("JZ"@) is None && imm_op("JZ"@) is None && fixed_op("JZ"@) is None,
        alu_base("JNZ"@) is None && imm_op("JNZ"@) is None && fixed_op("JNZ"@) is None,
        alu_base("JC"@) is None && imm_op("JC"@) is None && fixed_op("JC"@) is None,
        alu_base("JNC"@) is None && imm_op("JNC"@) is None && fixed_op("JNC"@) is None,
        alu_base("JPO"@) is None && imm_op("JPO"@) is None && fixed_op("JPO"@) is None,
        alu_base("JPE"@) is None && imm_op("JPE"@) is None && fixed_op("JPE"@) is None,
        alu_base("JP"@) is None && imm_op("JP"@) is None && fixed_op("JP"@) is None,
        alu_base("JM"@) is None && imm_op("JM"@) is None && fixed_op("JM"@) is None,
        "JMP"@ != "NOP"@ && "JMP"@ != "HLT"@ && "JMP"@ != "EI"@ && "JMP"@ != "DI"@ && "JMP"@ != "RIM"@ && "JMP"@ != "SIM"@ && "JMP"@ != "MOV"@ && "JMP"@ != "MVI"@ && "JMP"@ != "INR"@ && "JMP"@ != "DCR"@ && "JMP"@ != "INX"@ && "JMP"@ != "DCX"@ && "JMP"@ != "DAD"@ && "JMP"@ != "LDA"@ && "JMP"@ != "STA"@ && "JMP"@ != "LDAX"@ && "JMP"@ != "STAX"@ && "JMP"@ != "LHLD"@ && "JMP"@ != "SHLD"@ && "JMP"@ != "RST"@,
        "JZ"@ != "NOP"@ && "JZ"@ != "HLT"@ && "JZ"@ != "EI"@ && "JZ"@ != "DI"@ && "JZ"@ != "RIM"@ && "JZ"@ != "SIM"@ && "JZ"@ != "MOV"@ && "JZ"@ != "MVI"@ && "JZ"@ != "INR"@ && "JZ"@ != "DCR"@ && "JZ"@ != "INX"@ && "JZ"@ != "DCX"@ && "JZ"@ != "DAD"@ && "JZ"@ != "LDA"@ && "JZ"@ != "STA"@ && "JZ"@ != "LDAX"@ && "JZ"@ != "STAX"@ && "JZ"@ != "LHLD"@ && "JZ"@ != "SHLD"@ && "JZ"@ != "RST"@,
        "JNZ"@ != "NOP"@ && "JNZ"@ != "HLT"@ && "JNZ"@ != "EI"@ && "JNZ"@ != "DI"@ && "JNZ"@ != "RIM"@ && "JNZ"@ != "SIM"@ && "JNZ"@ != "MOV"@ && "JNZ"@ != "MVI"@ && "JNZ"@ != "INR"@ && "JNZ"@ != "DCR"@ && "JNZ"@ != "INX"@ && "JNZ"@ != "DCX"@ && "JNZ"@ != "DAD"@ && "JNZ"@ != "LDA"@ && "JNZ"@ != "STA"@ && "JNZ"@ != "LDAX"@ && "JNZ"@ != "STAX"@ && "JNZ"@ != "LHLD"@ && "JNZ"@ != "SHLD"@ && "JNZ"@ != "RST"@,
        "JC"@ != "NOP"@ && "JC"@ != "HLT"@ && "JC"@ != "EI"@ && "JC"@ != "DI"@ && "JC"@ != "RIM"@ && "JC"@ != "SIM"@ && "JC"@ != "MOV"@ && "JC"@ != "MVI"@ && "JC"@ != "INR"@ && "JC"@ != "DCR"@ && "JC"@ != "INX"@ && "JC"@ != "DCX"@ && "JC"@ != "DAD"@ && "JC"@ != "LDA"@ && "JC"@ != "STA"@ && "JC"@ != "LDAX"@ && "JC"@ != "STAX"@ && "JC"@ != "LHLD"@ && "JC"@ != "SHLD"@ && "JC"@ != "RST"@,
        "JNC"@ != "NOP"@ && "JNC"@ != "HLT"@ && "JNC"@ != "EI"@ && "JNC"@ != "DI"@ && "JNC"@ != "RIM"@ && "JNC"@ != "SIM"@ && "JNC"@ != "MOV"@ && "JNC"@ != "MVI"@ && "JNC"@ != "INR"@ && "JNC"@ != "DCR"@ && "JNC"@ != "INX"@ && "JNC"@ != "DCX"@ && "JNC"@ != "DAD"@ && "JNC"@ != "LDA"@ && "JNC"@ != "STA"@ && "JNC"@ != "LDAX"@ && "JNC"@ != "STAX"@ && "JNC"@ != "LHLD"@ && "JNC"@ != "SHLD"@ && "JNC"@ != "RST"@,
        "JPO"@ != "NOP"@ && "JPO"@ != "HLT"@ && "JPO"@ != "EI"@ && "JPO"@ != "DI"@ && "JPO"@ != "RIM"@ && "JPO"@ != "SIM"@ && "JPO"@ != "MOV"@ && "JPO"@ != "MVI"@ && "JPO"@ != "INR"@ && "JPO"@ != "DCR"@ && "JPO"@ != "INX"@ && "JPO"@ != "DCX"@ && "JPO"@ != "DAD"@ && "JPO"@ != "LDA"@ && "JPO"@ != "STA"@ && "JPO"@ != "LDAX"@ && "JPO"@ != "STAX"@ && "JPO"@ != "LHLD"@ && "JPO"@ != "SHLD"@ && "JPO"@ != "RST"@,
        "JPE"@ != "NOP"@ && "JPE"@ != "HLT"@ && "JPE"@ != "EI"@ && "JPE"@ != "DI"@ && "JPE"@ != "RIM"@ && "JPE"@ != "SIM"@ && "JPE"@ != "MOV"@ && "JPE"@ != "MVI"@ && "JPE"@ != "INR"@ && "JPE"@ != "DCR"@ && "JPE"@ != "INX"@ && "JPE"@ != "DCX"@ && "JPE"@ != "DAD"@ && "JPE"@ != "LDA"@ && "JPE"@ != "STA"@ && "JPE"@ != "LDAX"@ && "JPE"@ != "STAX"@ && "JPE"@ != "LHLD"@ && "JPE"@ != "SHLD"@ && "JPE"@ != "RST"@,
        "JP"@ != "NOP"@ && "JP"@ != "HLT"@ && "JP"@ != "EI"@ && "JP"@ != "DI"@ && "JP"@ != "RIM"@ && "JP"@ != "SIM"@ && "JP"@ != "MOV"@ && "JP"@ != "MVI"@ && "JP"@ != "INR"@ && "JP"@ != "DCR"@ && "JP"@ != "INX"@ && "JP"@ != "DCX"@ && "JP"@ != "DAD"@ && "JP"@ != "LDA"@ && "JP"@ != "STA"@ && "JP"@ != "LDAX"@ && "JP"@ != "STAX"@ && "JP"@ != "LHLD"@ && "JP"@ != "SHLD"@ && "JP"@ != "RST"@,
        "JM"@ != "NOP"@ && "JM"@ != "HLT"@ && "JM"@ != "EI"@ && "JM"@ != "DI"@ && "JM"@ != "RIM"@ && "JM"@ != "SIM"@ && "JM"@ != "MOV"@ && "JM"@ != "MVI"@ && "JM"@ != "INR"@ && "JM"@ != "DCR"@ && "JM"@ != "INX"@ && "JM"@ != "DCX"@ && "JM"@ != "DAD"@ && "JM"@ != "LDA"@ && "JM"@ != "STA"@ && "JM"@ != "LDAX"@ && "JM"@ != "STAX"@ && "JM"@ != "LHLD"@ && "JM"@ != "SHLD"@ && "JM"@ != "RST"@,
{
    reveal_strlit("JMP");
    reveal_strlit("JZ");
    reveal_strlit("JNZ");
    reveal_strlit("JC");
    reveal_strlit("JNC");
    reveal_strlit("JPO");
    reveal_strlit("JPE");
    reveal_strlit("JP");
    reveal_strlit("JM");
    reveal_strlit("NOP");
    reveal_strlit("HLT");
    reveal_strlit("EI");
    reveal_strlit("DI");
    reveal_strlit("RIM");
    reveal_strlit("SIM");
    reveal_strlit("MOV");
    reveal_strlit("MVI");
    reveal_strlit("INR");
    reveal_strlit("DCR");
    reveal_strlit("INX");
    reveal_strlit("DCX");
    reveal_strlit("DAD");
    reveal_strlit("LDA");
    reveal_strlit("STA");
    reveal_strlit("LDAX");
    reveal_strlit("STAX");
    reveal_strlit("LHLD");
    reveal_strlit("SHLD");
    reveal_strlit("ADD");
    reveal_strlit("ADC");
    reveal_strlit("SUB");
    reveal_strlit("SBB");
    reveal_strlit("ANA");
    reveal_strlit("XRA");
    reveal_strlit("ORA");
    reveal_strlit("CMP");
    reveal_strlit("ADI");
    reveal_strlit("SUI");
    reveal_strlit("ACI");
    reveal_strlit("SBI");
    reveal_strlit("ANI");
    reveal_strlit("XRI");
    reveal_strlit("ORI");
    reveal_strlit("CPI");
    reveal_strlit("IN");
    reveal_strlit("OUT");
    reveal_strlit("DAA");
    reveal_strlit("CMA");
    reveal_strlit("CMC");
    reveal_strlit("STC");
    reveal_strlit("RLC");
    reveal_strlit("RRC");
    reveal_strlit("RAL");
    reveal_strlit("RAR");
    reveal_strlit("XCHG");
    reveal_strlit("XTHL");
    reveal_strlit("SPHL");
    reveal_strlit("PCHL");
    reveal_strlit("RET");
    reveal_strlit("RNZ");
    reveal_strlit("RZ");
    reveal_strlit("RNC");
    reveal_strlit("RC");
    reveal_strlit("RPO");
    reveal_strlit("RPE");
    reveal_strlit("RP");
    reveal_strlit("RM");
    reveal_strlit("RST");
    assert("JMP"@[0] != "NOP"@[0]);
    assert("JMP"@[0] != "HLT"@[0]);
    assert("JMP"@.len() != "EI"@.len());
    assert("JMP"@.len() != "DI"@.len());
    assert("JMP"@[0] != "RIM"@[0]);
    assert("JMP"@[0] != "SIM"@[0]);
    assert("JMP"@[0] != "MOV"@[0]);
    assert("JMP"@[0] != "MVI"@[0]);
    assert("JMP"@[0] != "INR"@[0]);
    assert("JMP"@[0] != "DCR"@[0]);
    assert("JMP"@[0] != "INX"@[0]);
    assert("JMP"@[0] != "DCX"@[0]);
    assert("JMP"@[0] != "DAD"@[0]);
    assert("JMP"@[0] != "LDA"@[0]);
    assert("JMP"@[0] != "STA"@[0]);
    assert("JMP"@.len() != "LDAX"@.len());
    assert("JMP"@.len() != "STAX"@.len());
    assert("JMP"@.len() != "LHLD"@.len());
    assert("JMP"@.len() != "SHLD"@.len());
    assert("JMP"@[0] != "ADD"@[0]);
    assert("JMP"@[0] != "ADC"@[0]);
    assert("JMP"@[0] != "SUB"@[0]);
    assert("JMP"@[0] != "SBB"@[0]);
    assert("JMP"@[0] != "ANA"@[0]);
    assert("JMP"@[0] != "XRA"@[0]);
    assert("JMP"@[0] != "ORA"@[0]);
    assert("JMP"@[0] != "CMP"@[0]);
    assert("JMP"@[0] != "ADI"@[0]);
    assert("JMP"@[0] != "SUI"@[0]);
    assert("JMP"@[0] != "ACI"@[0]);
    assert("JMP"@[0] != "SBI"@[0]);
    assert("JMP"@[0] != "ANI"@[0]);
    assert("JMP"@[0] != "XRI"@[0]);
    assert("JMP"@[0] != "ORI"@[0]);
    assert("JMP"@[0] != "CPI"@[0]);
    assert("JMP"@.len() != "IN"@.len());
    assert("JMP"@[0] != "OUT"@[0]);
    assert("JMP"@[0] != "DAA"@[0]);
    assert("JMP"@[0] != "CMA"@[0]);
    assert("JMP"@[0] != "CMC"@[0]);
    assert("JMP"@[0] != "STC"@[0]);
    assert("JMP"@[0] != "RLC"@[0]);
    assert("JMP"@[0] != "RRC"@[0]);
    assert("JMP"@[0] != "RAL"@[0]);
    assert("JMP"@[0] != "RAR"@[0]);
    assert("JMP"@.len() != "XCHG"@.len());
    assert("JMP"@.len() != "XTHL"@.len());
    assert("JMP"@.len() != "SPHL"@.len());
    assert("JMP"@.len() != "PCHL"@.len());
    assert("JMP"@[0] != "RET"@[0]);
    assert("JMP"@[0] != "RNZ"@[0]);
    assert("JMP"@.len() != "RZ"@.len());
    assert("JMP"@[0] != "RNC"@[0]);
    assert("JMP"@.len() != "RC"@.len());
    assert("JMP"@[0] != "RPO"@[0]);
    assert("JMP"@[0] != "RPE"@[0]);
    assert("JMP"@.len() != "RP"@.len());
    assert("JMP"@.len() != "RM"@.len());
    assert("JMP"@[0] != "RST"@[0]);
    assert("JZ"@.len() != "NOP"@.len());
    assert("JZ"@.len() != "HLT"@.len());
    assert("JZ"@[0] != "EI"@[0]);
    assert("JZ"@[0] != "DI"@[0]);
    assert("JZ"@.len() != "RIM"@.len());
    assert("JZ"@.len() != "SIM"@.len());
    assert("JZ"@.len() != "MOV"@.len());
    assert("JZ"@.len() != "MVI"@.len());
    assert("JZ"@.len() != "INR"@.len());
    assert("JZ"@.len() != "DCR"@.len());
    assert("JZ"@.len() != "INX"@.len());
    assert("JZ"@.len() != "DCX"@.len());
    assert("JZ"@.len() != "DAD"@.len());
    assert("JZ"@.len() != "LDA"@.len());
    assert("JZ"@.len() != "STA"@.len());
    assert("JZ"@.len() != "LDAX"@.len());
    assert("JZ"@.len() != "STAX"@.len());
    assert("JZ"@.len() != "LHLD"@.len());
    assert("JZ"@.len() != "SHLD"@.len());
    assert("JZ"@.len() != "ADD"@.len());
    assert("JZ"@.len() != "ADC"@.len());
    assert("JZ"@.len() != "SUB"@.len());
    assert("JZ"@.len() != "SBB"@.len());
    assert("JZ"@.len() != "ANA"@.len());
    assert("JZ"@.len() != "XRA"@.len());
    assert("JZ"@.len() != "ORA"@.len());
    assert("JZ"@.len() != "CMP"@.len());
    assert("JZ"@.len() != "ADI"@.len());
    assert("JZ"@.len() != "SUI"@.len());
    assert("JZ"@.len() != "ACI"@.len());
    assert("JZ"@.len() != "SBI"@.len());
    assert("JZ"@.len() != "ANI"@.len());
    assert("JZ"@.len() != "XRI"@.len());
    assert("JZ"@.len() != "ORI"@.len());
    assert("JZ"@.len() != "CPI"@.len());
    assert("JZ"@[0] != "IN"@[0]);
    assert("JZ"@.len() != "OUT"@.len());
    assert("JZ"@.len() != "DAA"@.len());
    assert("JZ"@.len() != "CMA"@.len());
    assert("JZ"@.len() != "CMC"@.len());
    assert("JZ"@.len() != "STC"@.len());
    assert("JZ"@.len() != "RLC"@.len());
    assert("JZ"@.len() != "RRC"@.len());
    assert("JZ"@.len() != "RAL"@.len());
    assert("JZ"@.len() != "RAR"@.len());
    assert("JZ"@.len() != "XCHG"@.len());
    assert("JZ"@.len() != "XTHL"@.len());
    assert("JZ"@.len() != "SPHL"@.len());
    assert("JZ"@.len() != "PCHL"@.len());
    assert("JZ"@.len() != "RET"@.len());
    assert("JZ"@.len() != "RNZ"@.len());
    assert("JZ"@[0] != "RZ"@[0]);
    assert("JZ"@.len() != "RNC"@.len());
    assert("JZ"@[0] != "RC"@[0]);
    assert("JZ"@.len() != "RPO"@.len());
    assert("JZ"@.len() != "RPE"@.len());
    assert("JZ"@[0] != "RP"@[0]);
    assert("JZ"@[0] != "RM"@[0]);
    assert("JZ"@.len() != "RST"@.len());
    assert("JNZ"@[0] != "NOP"@[0]);
    assert("JNZ"@[0] != "HLT"@[0]);
    assert("JNZ"@.len() != "EI"@.len());
    assert("JNZ"@.len() != "DI"@.len());
    assert("JNZ"@[0] != "RIM"@[0]);
    assert("JNZ"@[0] != "SIM"@[0]);
    assert("JNZ"@[0] != "MOV"@[0]);
    assert("JNZ"@[0] != "MVI"@[0]);
    assert("JNZ"@[0] != "INR"@[0]);
    assert("JNZ"@[0] != "DCR"@[0]);
    assert("JNZ"@[0] != "INX"@[0]);
    assert("JNZ"@[0] != "DCX"@[0]);
    assert("JNZ"@[0] != "DAD"@[0]);
    assert("JNZ"@[0] != "LDA"@[0]);
    assert("JNZ"@[0] != "STA"@[0]);
    assert("JNZ"@.len() != "LDAX"@.len());
    assert("JNZ"@.len() != "STAX"@.len());
    assert("JNZ"@.len() != "LHLD"@.len());
    assert("JNZ"@.len() != "SHLD"@.len());
    assert("JNZ"@[0] != "ADD"@[0]);
    assert("JNZ"@[0] != "ADC"@[0]);
    assert("JNZ"@[0] != "SUB"@[0]);
    assert("JNZ"@[0] != "SBB"@[0]);
    assert("JNZ"@[0] != "ANA"@[0]);
    assert("JNZ"@[0] != "XRA"@[0]);
    assert("JNZ"@[0] != "ORA"@[0]);
    assert("JNZ"@[0] != "CMP"@[0]);
    assert("JNZ"@[0] != "ADI"@[0]);
    assert("JNZ"@[0] != "SUI"@[0]);
    assert("JNZ"@[0] != "ACI"@[0]);
    assert("JNZ"@[0] != "SBI"@[0]);
    assert("JNZ"@[0] != "ANI"@[0]);
    assert("JNZ"@[0] != "XRI"@[0]);
    assert("JNZ"@[0] != "ORI"@[0]);
    assert("JNZ"@[0] != "CPI"@[0]);
    assert("JNZ"@.len() != "IN"@.len());
    assert("JNZ"@[0] != "OUT"@[0]);
    assert("JNZ"@[0] != "DAA"@[0]);
    assert("JNZ"@[0] != "CMA"@[0]);
    assert("JNZ"@[0] != "CMC"@[0]);
    assert("JNZ"@[0] != "STC"@[0]);
    assert("JNZ"@[0] != "RLC"@[0]);
    assert("JNZ"@[0] != "RRC"@[0]);
    assert("JNZ"@[0] != "RAL"@[0]);
    assert("JNZ"@[0] != "RAR"@[0]);
    assert("JNZ"@.len() != "XCHG"@.len());
    assert("JNZ"@.len() != "XTHL"@.len());
    assert("JNZ"@.len() != "SPHL"@.len());
    assert("JNZ"@.len() != "PCHL"@.len());
    assert("JNZ"@[0] != "RET"@[0]);
    assert("JNZ"@[0] != "RNZ"@[0]);
    assert("JNZ"@.len() != "RZ"@.len());
    assert("JNZ"@[0] != "RNC"@[0]);
    assert("JNZ"@.len() != "RC"@.len());
    assert("JNZ"@[0] != "RPO"@[0]);
    assert("JNZ"@[0] != "RPE"@[0]);
    assert("JNZ"@.len() != "RP"@.len());
    assert("JNZ"@.len() != "RM"@.len());
    assert("JNZ"@[0] != "RST"@[0]);
    assert("JC"@.len() != "NOP"@.len());
    assert("JC"@.len() != "HLT"@.len());
    assert("JC"@[0] != "EI"@[0]);
    assert("JC"@[0] != "DI"@[0]);
    assert("JC"@.len() != "RIM"@.len());
    assert("JC"@.len() != "SIM"@.len());
    assert("JC"@.len() != "MOV"@.len());
    assert("JC"@.len() != "MVI"@.len());
    assert("JC"@.len() != "INR"@.len());
    assert("JC"@.len() != "DCR"@.len());
    assert("JC"@.len() != "INX"@.len());
    assert("JC"@.len() != "DCX"@.len());
    assert("JC"@.len() != "DAD"@.len());
    assert("JC"@.len() != "LDA"@.len());
    assert("JC"@.len() != "STA"@.len());
    assert("JC"@.len() != "LDAX"@.len());
    assert("JC"@.len() != "STAX"@.len());
    assert("JC"@.len() != "LHLD"@.len());
    assert("JC"@.len() != "SHLD"@.len());
    assert("JC"@.len() != "ADD"@.len());
    assert("JC"@.len() != "ADC"@.len());
    assert("JC"@.len() != "SUB"@.len());
    assert("JC"@.len() != "SBB"@.len());
    assert("JC"@.len() != "ANA"@.len());
    assert("JC"@.len() != "XRA"@.len());
    assert("JC"@.len() != "ORA"@.len());
    assert("JC"@.len() != "CMP"@.len());
    assert("JC"@.len() != "ADI"@.len());
    assert("JC"@.len() != "SUI"@.len());
    assert("JC"@.len() != "ACI"@.len());
    assert("JC"@.len() != "SBI"@.len());
    assert("JC"@.len() != "ANI"@.len());
    assert("JC"@.len() != "XRI"@.len());
    assert("JC"@.len() != "ORI"@.len());
    assert("JC"@.len() != "CPI"@.len());
    assert("JC"@[0] != "IN"@[0]);
    assert("JC"@.len() != "OUT"@.len());
    assert("JC"@.len() != "DAA"@.len());
    assert("JC"@.len() != "CMA"@.len());
    assert("JC"@.len() != "CMC"@.len());
    assert("JC"@.len() != "STC"@.len());
    assert("JC"@.len() != "RLC"@.len());
    assert("JC"@.len() != "RRC"@.len());
    assert("JC"@.len() != "RAL"@.len());
    assert("JC"@.len() != "RAR"@.len());
    assert("JC"@.len() != "XCHG"@.len());
    assert("JC"@.len() != "XTHL"@.len());
    assert("JC"@.len() != "SPHL"@.len());
    assert("JC"@.len() != "PCHL"@.len());
    assert("JC"@.len() != "RET"@.len());
    assert("JC"@.len() != "RNZ"@.len());
    assert("JC"@[0] != "RZ"@[0]);
    assert("JC"@.len() != "RNC"@.len());
    assert("JC"@[0] != "RC"@[0]);
    assert("JC"@.len() != "RPO"@.len());
    assert("JC"@.len() != "RPE"@.len());
    assert("JC"@[0] != "RP"@[0]);
    assert("JC"@[0] != "RM"@[0]);
    assert("JC"@.len() != "RST"@.len());
    assert("JNC"@[0] != "NOP"@[0]);
    assert("JNC"@[0] != "HLT"@[0]);
    assert("JNC"@.len() != "EI"@.len());
    assert("JNC"@.len() != "DI"@.len());
    assert("JNC"@[0] != "RIM"@[0]);
    assert("JNC"@[0] != "SIM"@[0]);
    assert("JNC"@[0] != "MOV"@[0]);
    assert("JNC"@[0] != "MVI"@[0]);
    assert("JNC"@[0] != "INR"@[0]);
    assert("JNC"@[0] != "DCR"@[0]);
    assert("JNC"@[0] != "INX"@[0]);
    assert("JNC"@[0] != "DCX"@[0]);
    assert("JNC"@[0] != "DAD"@[0]);
    assert("JNC"@[0] != "LDA"@[0]);
    assert("JNC"@[0] != "STA"@[0]);
    assert("JNC"@.len() != "LDAX"@.len());
    assert("JNC"@.len() != "STAX"@.len());
    assert("JNC"@.len() != "LHLD"@.len());
    assert("JNC"@.len() != "SHLD"@.len());
    assert("JNC"@[0] != "ADD"@[0]);
    assert("JNC"@[0] != "ADC"@[0]);
    assert("JNC"@[0] != "SUB"@[0]);
    assert("JNC"@[0] != "SBB"@[0]);
    assert("JNC"@[0] != "ANA"@[0]);
    assert("JNC"@[0] != "XRA"@[0]);
    assert("JNC"@[0] != "ORA"@[0]);
    assert("JNC"@[0] != "CMP"@[0]);
    assert("JNC"@[0] != "ADI"@[0]);
    assert("JNC"@[0] != "SUI"@[0]);
    assert("JNC"@[0] != "ACI"@[0]);
    assert("JNC"@[0] != "SBI"@[0]);
    assert("JNC"@[0] != "ANI"@[0]);
    assert("JNC"@[0] != "XRI"@[0]);
    assert("JNC"@[0] != "ORI"@[0]);
    assert("JNC"@[0] != "CPI"@[0]);
    assert("JNC"@.len() != "IN"@.len());
    assert("JNC"@[0] != "OUT"@[0]);
    assert("JNC"@[0] != "DAA"@[0]);
    assert("JNC"@[0] != "CMA"@[0]);
    assert("JNC"@[0] != "CMC"@[0]);
    assert("JNC"@[0] != "STC"@[0]);
    assert("JNC"@[0] != "RLC"@[0]);
    assert("JNC"@[0] != "RRC"@[0]);
    assert("JNC"@[0] != "RAL"@[0]);
    assert("JNC"@[0] != "RAR"@[0]);
    assert("JNC"@.len() != "XCHG"@.len());
    assert("JNC"@.len() != "XTHL"@.len());
    assert("JNC"@.len() != "SPHL"@.len());
    assert("JNC"@.len() != "PCHL"@.len());
    assert("JNC"@[0] != "RET"@[0]);
    assert("JNC"@[0] != "RNZ"@[0]);
    assert("JNC"@.len() != "RZ"@.len());
    assert("JNC"@[0] != "RNC"@[0]);
    assert("JNC"@.len() != "RC"@.len());
    assert("JNC"@[0] != "RPO"@[0]);
    assert("JNC"@[0] != "RPE"@[0]);
    assert("JNC"@.len() != "RP"@.len());
    assert("JNC"@.len() != "RM"@.len());
    assert("JNC"@[0] != "RST"@[0]);
    assert("JPO"@[0] != "NOP"@[0]);
    assert("JPO"@[0] != "HLT"@[0]);
    assert("JPO"@.len() != "EI"@.len());
    assert("JPO"@.len() != "DI"@.len());
    assert("JPO"@[0] != "RIM"@[0]);
    assert("JPO"@[0] != "SIM"@[0]);
    assert("JPO"@[0] != "MOV"@[0]);
    assert("JPO"@[0] != "MVI"@[0]);
    assert("JPO"@[0] != "INR"@[0]);
    assert("JPO"@[0] != "DCR"@[0]);
    assert("JPO"@[0] != "INX"@[0]);
    assert("JPO"@[0] != "DCX"@[0]);
    assert("JPO"@[0] != "DAD"@[0]);
    assert("JPO"@[0] != "LDA"@[0]);
    assert("JPO"@[0] != "STA"@[0]);
    assert("JPO"@.len() != "LDAX"@.len());
    assert("JPO"@.len() != "STAX"@.len());
    assert("JPO"@.len() != "LHLD"@.len());
    assert("JPO"@.len() != "SHLD"@.len());
    assert("JPO"@[0] != "ADD"@[0]);
    assert("JPO"@[0] != "ADC"@[0]);
    assert("JPO"@[0] != "SUB"@[0]);
    assert("JPO"@[0] != "SBB"@[0]);
    assert("JPO"@[0] != "ANA"@[0]);
    assert("JPO"@[0] != "XRA"@[0]);
    assert("JPO"@[0] != "ORA"@[0]);
    assert("JPO"@[0] != "CMP"@[0]);
    assert("JPO"@[0] != "ADI"@[0]);
    assert("JPO"@[0] != "SUI"@[0]);
    assert("JPO"@[0] != "ACI"@[0]);
    assert("JPO"@[0] != "SBI"@[0]);
    assert("JPO"@[0] != "ANI"@[0]);
    assert("JPO"@[0] != "XRI"@[0]);
    assert("JPO"@[0] != "ORI"@[0]);
    assert("JPO"@[0] != "CPI"@[0]);
    assert("JPO"@.len() != "IN"@.len());
    assert("JPO"@[0] != "OUT"@[0]);
    assert("JPO"@[0] != "DAA"@[0]);
    assert("JPO"@[0] != "CMA"@[0]);
    assert("JPO"@[0] != "CMC"@[0]);
    assert("JPO"@[0] != "STC"@[0]);
    assert("JPO"@[0] != "RLC"@[0]);
    assert("JPO"@[0] != "RRC"@[0]);
    assert("JPO"@[0] != "RAL"@[0]);
    assert("JPO"@[0] != "RAR"@[0]);
    assert("JPO"@.len() != "XCHG"@.len());
    assert("JPO"@.len() != "XTHL"@.len());
    assert("JPO"@.len() != "SPHL"@.len());
    assert("JPO"@.len() != "PCHL"@.len());
    assert("JPO"@[0] != "RET"@[0]);
    assert("JPO"@[0] != "RNZ"@[0]);
    assert("JPO"@.len() != "RZ"@.len());
    assert("JPO"@[0] != "RNC"@[0]);
    assert("JPO"@.len() != "RC"@.len());
    assert("JPO"@[0] != "RPO"@[0]);
    assert("JPO"@[0] != "RPE"@[0]);
    assert("JPO"@.len() != "RP"@.len());
    assert("JPO"@.len() != "RM"@.len());
    assert("JPO"@[0] != "RST"@[0]);
    assert("JPE"@[0] != "NOP"@[0]);
    assert("JPE"@[0] != "HLT"@[0]);
    assert("JPE"@.len() != "EI"@.len());
    assert("JPE"@.len() != "DI"@.len());
    assert("JPE"@[0] != "RIM"@[0]);
    assert("JPE"@[0] != "SIM"@[0]);
    assert("JPE"@[0] != "MOV"@[0]);
    assert("JPE"@[0] != "MVI"@[0]);
    assert("JPE"@[0] != "INR"@[0]);
    assert("JPE"@[0] != "DCR"@[0]);
    assert("JPE"@[0] != "INX"@[0]);
    assert("JPE"@[0] != "DCX"@[0]);
    assert("JPE"@[0] != "DAD"@[0]);
    assert("JPE"@[0] != "LDA"@[0]);
    assert("JPE"@[0] != "STA"@[0]);
    assert("JPE"@.len() != "LDAX"@.len());
    assert("JPE"@.len() != "STAX"@.len());
    assert("JPE"@.len() != "LHLD"@.len());
    assert("JPE"@.len() != "SHLD"@.len());
    assert("JPE"@[0] != "ADD"@[0]);
    assert("JPE"@[0] != "ADC"@[0]);
    assert("JPE"@[0] != "SUB"@[0]);
    assert("JPE"@[0] != "SBB"@[0]);
    assert("JPE"@[0] != "ANA"@[0]);
    assert("JPE"@[0] != "XRA"@[0]);
    assert("JPE"@[0] != "ORA"@[0]);
    assert("JPE"@[0] != "CMP"@[0]);
    assert("JPE"@[0] != "ADI"@[0]);
    assert("JPE"@[0] != "SUI"@[0]);
    assert("JPE"@[0] != "ACI"@[0]);
    assert("JPE"@[0] != "SBI"@[0]);
    assert("JPE"@[0] != "ANI"@[0]);
    assert("JPE"@[0] != "XRI"@[0]);
    assert("JPE"@[0] != "ORI"@[0]);
    assert("JPE"@[0] != "CPI"@[0]);
    assert("JPE"@.len() != "IN"@.len());
    assert("JPE"@[0] != "OUT"@[0]);
    assert("JPE"@[0] != "DAA"@[0]);
    assert("JPE"@[0] != "CMA"@[0]);
    assert("JPE"@[0] != "CMC"@[0]);
    assert("JPE"@[0] != "STC"@[0]);
    assert("JPE"@[0] != "RLC"@[0]);
    assert("JPE"@[0] != "RRC"@[0]);
    assert("JPE"@[0] != "RAL"@[0]);
    assert("JPE"@[0] != "RAR"@[0]);
    assert("JPE"@.len() != "XCHG"@.len());
    assert("JPE"@.len() != "XTHL"@.len());
    assert("JPE"@.len() != "SPHL"@.len());
    assert("JPE"@.len() != "PCHL"@.len());
    assert("JPE"@[0] != "RET"@[0]);
    assert("JPE"@[0] != "RNZ"@[0]);
    assert("JPE"@.len() != "RZ"@.len());
    assert("JPE"@[0] != "RNC"@[0]);
    assert("JPE"@.len() != "RC"@.len());
    assert("JPE"@[0] != "RPO"@[0]);
    assert("JPE"@[0] != "RPE"@[0]);
    assert("JPE"@.len() != "RP"@.len());
    assert("JPE"@.len() != "RM"@.len());
    assert("JPE"@[0] != "RST"@[0]);
    assert("JP"@.len() != "NOP"@.len());
    assert("JP"@.len() != "HLT"@.len());
    assert("JP"@[0] != "EI"@[0]);
    assert("JP"@[0] != "DI"@[0]);
    assert("JP"@.len() != "RIM"@.len());
    assert("JP"@.len() != "SIM"@.len());
    assert("JP"@.len() != "MOV"@.len());
    assert("JP"@.len() != "MVI"@.len());
    assert("JP"@.len() != "INR"@.len());
    assert("JP"@.len() != "DCR"@.len());
    assert("JP"@.len() != "INX"@.len());
    assert("JP"@.len() != "DCX"@.len());
    assert("JP"@.len() != "DAD"@.len());
    assert("JP"@.len() != "LDA"@.len());
    assert("JP"@.len() != "STA"@.len());
    assert("JP"@.len() != "LDAX"@.len());
    assert("JP"@.len() != "STAX"@.len());
    assert("JP"@.len() != "LHLD"@.len());
    assert("JP"@.len() != "SHLD"@.len());
    assert("JP"@.len() != "ADD"@.len());
    assert("JP"@.len() != "ADC"@.len());
    assert("JP"@.len() != "SUB"@.len());
    assert("JP"@.len() != "SBB"@.len());
    assert("JP"@.len() != "ANA"@.len());
    assert("JP"@.len() != "XRA"@.len());
    assert("JP"@.len() != "ORA"@.len());
    assert("JP"@.len() != "CMP"@.len());
    assert("JP"@.len() != "ADI"@.len());
    assert("JP"@.len() != "SUI"@.len());
    assert("JP"@.len() != "ACI"@.len());
    assert("JP"@.len() != "SBI"@.len());
    assert("JP"@.len() != "ANI"@.len());
    assert("JP"@.len() != "XRI"@.len());
    assert("JP"@.len() != "ORI"@.len());
    assert("JP"@.len() != "CPI"@.len());
    assert("JP"@[0] != "IN"@[0]);
    assert("JP"@.len() != "OUT"@.len());
    assert("JP"@.len() != "DAA"@.len());
    assert("JP"@.len() != "CMA"@.len());
    assert("JP"@.len() != "CMC"@.len());
    assert("JP"@.len() != "STC"@.len());
    assert("JP"@.len() != "RLC"@.len());
    assert("JP"@.len() != "RRC"@.len());
    assert("JP"@.len() != "RAL"@.len());
    assert("JP"@.len() != "RAR"@.len());
    assert("JP"@.len() != "XCHG"@.len());
    assert("JP"@.len() != "XTHL"@.len());
    assert("JP"@.len() != "SPHL"@.len());
    assert("JP"@.len() != "PCHL"@.len());
    assert("JP"@.len() != "RET"@.len());
    assert("JP"@.len() != "RNZ"@.len());
    assert("JP"@[0] != "RZ"@[0]);
    assert("JP"@.len() != "RNC"@.len());
    assert("JP"@[0] != "RC"@[0]);
    assert("JP"@.len() != "RPO"@.len());
    assert("JP"@.len() != "RPE"@.len());
    assert("JP"@[0] != "RP"@[0]);
    assert("JP"@[0] != "RM"@[0]);
    assert("JP"@.len() != "RST"@.len());
    assert("JM"@.len() != "NOP"@.len());
    assert("JM"@.len() != "HLT"@.len());
    assert("JM"@[0] != "EI"@[0]);
    assert("JM"@[0] != "DI"@[0]);
    assert("JM"@.len() != "RIM"@.len());
    assert("JM"@.len() != "SIM"@.len());
    assert("JM"@.len() != "MOV"@.len());
    assert("JM"@.len() != "MVI"@.len());
    assert("JM"@.len() != "INR"@.len());
    assert("JM"@.len() != "DCR"@.len());
    assert("JM"@.len() != "INX"@.len());
    assert("JM"@.len() != "DCX"@.len());
    assert("JM"@.len() != "DAD"@.len());
    assert("JM"@.len() != "LDA"@.len());
    assert("JM"@.len() != "STA"@.len());
    assert("JM"@.len() != "LDAX"@.len());
    assert("JM"@.len() != "STAX"@.len());
    assert("JM"@.len() != "LHLD"@.len());
    assert("JM"@.len() != "SHLD"@.len());
    assert("JM"@.len() != "ADD"@.len());
    assert("JM"@.len() != "ADC"@.len());
    assert("JM"@.len() != "SUB"@.len());
    assert("JM"@.len() != "SBB"@.len());
    assert("JM"@.len() != "ANA"@.len());
    assert("JM"@.len() != "XRA"@.len());
    assert("JM"@.len() != "ORA"@.len());
    assert("JM"@.len() != "CMP"@.len());
    assert("JM"@.len() != "ADI"@.len());
    assert("JM"@.len() != "SUI"@.len());
    assert("JM"@.len() != "ACI"@.len());
    assert("JM"@.len() != "SBI"@.len());
    assert("JM"@.len() != "ANI"@.len());
    assert("JM"@.len() != "XRI"@.len());
    assert("JM"@.len() != "ORI"@.len());
    assert("JM"@.len() != "CPI"@.len());
    assert("JM"@[0] != "IN"@[0]);
    assert("JM"@.len() != "OUT"@.len());
    assert("JM"@.len() != "DAA"@.len());
    assert("JM"@.len() != "CMA"@.len());
    assert("JM"@.len() != "CMC"@.len());
    assert("JM"@.len() != "STC"@.len());
    assert("JM"@.len() != "RLC"@.len());
    assert("JM"@.len() != "RRC"@.len());
    assert("JM"@.len() != "RAL"@.len());
    assert("JM"@.len() != "RAR"@.len());
    assert("JM"@.len() != "XCHG"@.len());
    assert("JM"@.len() != "XTHL"@.len());
    assert("JM"@.len() != "SPHL"@.len());
    assert("JM"@.len() != "PCHL"@.len());
    assert("JM"@.len() != "RET"@.len());
    assert("JM"@.len() != "RNZ"@.len());
    assert("JM"@[0] != "RZ"@[0]);
    assert("JM"@.len() != "RNC"@.len());
    assert("JM"@[0] != "RC"@[0]);
    assert("JM"@.len() != "RPO"@.len());
    assert("JM"@.len() != "RPE"@.len());
    assert("JM"@[0] != "RP"@[0]);
    assert("JM"@[0] != "RM"@[0]);
    assert("JM"@.len() != "RST"@.len());
    assert("JMP"@.len() != "JZ"@.len());
    assert("JMP"@[1] != "JNZ"@[1]);
    assert("JMP"@.len() != "JC"@.len());
    assert("JMP"@[1] != "JNC"@[1]);
    assert("JMP"@[1] != "JPO"@[1]);
    assert("JMP"@[1] != "JPE"@[1]);
    assert("JMP"@.len() != "JP"@.len());
    assert("JMP"@.len() != "JM"@.len());
    assert("JZ"@.len() != "JNZ"@.len());
    assert("JZ"@[1] != "JC"@[1]);
    assert("JZ"@.len() != "JNC"@.len());
    assert("JZ"@.len() != "JPO"@.len());
    assert("JZ"@.len() != "JPE"@.len());
    assert("JZ"@[1] != "JP"@[1]);
    assert("JZ"@[1] != "JM"@[1]);
    assert("JNZ"@.len() != "JC"@.len());
    assert("JNZ"@[2] != "JNC"@[2]);
    assert("JNZ"@[1] != "JPO"@[1]);
    assert("JNZ"@[1] != "JPE"@[1]);
    assert("JNZ"@.len() != "JP"@.len());
    assert("JNZ"@.len() != "JM"@.len());
    assert("JC"@.len() != "JNC"@.len());
    assert("JC"@.len() != "JPO"@.len());
    assert("JC"@.len() != "JPE"@.len());
    assert("JC"@[1] != "JP"@[1]);
    assert("JC"@[1] != "JM"@[1]);
    assert("JNC"@[1] != "JPO"@[1]);
    assert("JNC"@[1] != "JPE"@[1]);
    assert("JNC"@.len() != "JP"@.len());
    assert("JNC"@.len() != "JM"@.len());
    assert("JPO"@[2] != "JPE"@[2]);
    assert("JPO"@.len() != "JP"@.len());
    assert("JPO"@.len() != "JM"@.len());
    assert("JPE"@.len() != "JP"@.len());
    assert("JPE"@.len() != "JM"@.len());
    assert("JP"@[1] != "JM"@[1]);
}

/// Assembling JMP, JNZ, JZ, JNC, JC, JPO, JPE, JP or JM with one address
/// operand gives three bytes whose opcode is 0xC3, 0xC2, 0xCA, 0xD2, 0xDA,
/// 0xE2, 0xEA, 0xF2, resp. 0xFA, the opcodes that the simulator runs as the
/// unconditional jump and the jumps on zero clear or set, carry clear or
/// set, parity odd or even, sign plus or minus.
pub proof fn lemma_jump_mnemonics(mn: Seq<char>, a: Seq<Seq<char>>, defined: Map<Seq<char>, u32>)
    requires
        a.len() == 1,
        mn == "JMP"@ || mn == "JNZ"@ || mn == "JZ"@ || mn == "JNC"@ || mn == "JC"@ || mn == "JPO"@ || mn == "JPE"@
            || mn == "JP"@ || mn == "JM"@,
    ensures
        match enc8085(mn, a, defined) {
            Ok((b, _)) => {
                &&& b.len() == 3
                &&& mn == "JMP"@ ==> b[0] == 0xC3
                &&& mn == "JNZ"@ ==> b[0] == 0xC2
                &&& mn == "JZ"@ ==> b[0] == 0xCA
                &&& mn == "JNC"@ ==> b[0] == 0xD2
                &&& mn == "JC"@ ==> b[0] == 0xDA
                &&& mn == "JPO"@ ==> b[0] == 0xE2
                &&& mn == "JPE"@ ==> b[0] == 0xEA
                &&& mn == "JP"@ ==> b[0] == 0xF2
                &&& mn == "JM"@ ==> b[0] == 0xFA
            },
            Err(_) => false,
        },
{
    lemma_jump_names();
    let op = address_op(mn)->0;
    assert(enc8085(mn, a, defined) == Ok::<(Seq<u8>, Option<(int, Seq<char>)>), Seq<char>>(addr_form(op, a[0], defined)));
}

} // verus!

//! Pieces shared by the assemblers: prefix stripping, number syntaxes,
//! error values and byte emission.
use vstd::prelude::*;
use crate::plugin::{AssemblerError, SourceMapEntry};
use crate::text::{
    slice_vec, parse_uint, parse_int, parse_unsigned, parse_signed, to_lower, lower_seq, trim_chars, trim,
};
use crate::fmt::Text;

verus! {

/// `trim_start_matches(c)`: every leading `c` removed.
pub open spec fn strip_leading(s: Seq<char>, c: char) -> Seq<char>
    decreases s.len(),
{
    if s.len() > 0 && s[0] == c {
        strip_leading(s.drop_first(), c)
    } else {
        s
    }
}

/// `trim_start_matches("0x")`: every leading `0x` pair removed.
pub open spec fn strip_leading_0x(s: Seq<char>) -> Seq<char>
    decreases s.len(),
{
    if s.len() >= 2 && s[0] == '0' && s[1] == 'x' {
        strip_leading_0x(s.subrange(2, s.len() as int))
    } else {
        s
    }
}

pub fn strip_leading_chars(s: &[char], c: char) -> (r: Vec<char>)
    ensures
        r@ == strip_leading(s@, c),
{
    let mut i: usize = 0;
    assert(s@.subrange(0, s@.len() as int) =~= s@);
    while i < s.len() && s[i] == c
        invariant
            i <= s.len(),
            strip_leading(s@, c) == strip_leading(s@.subrange(i as int, s@.len() as int), c),
        decreases s.len() - i,
    {
        assert(s@.subrange(i as int, s@.len() as int).drop_first() =~= s@.subrange(i + 1, s@.len() as int));
        i = i + 1;
    }
    slice_vec(s, i, s.len())
}

pub fn strip_leading_0x_chars(s: &[char]) -> (r: Vec<char>)
    ensures
        r@ == strip_leading_0x(s@),
{
    let mut i: usize = 0;
    assert(s@.subrange(0, s@.len() as int) =~= s@);
    while s.len() - i >= 2 && s[i] == '0' && s[i + 1] == 'x'
        invariant
            i <= s.len(),
            strip_leading_0x(s@) == strip_leading_0x(s@.subrange(i as int, s@.len() as int)),
        decreases s.len() - i,
    {
        assert(s@.subrange(i as int, s@.len() as int).subrange(2, s@.len() - i) =~= s@.subrange(i + 2, s@.len() as int));
        i = i + 2;
    }
    slice_vec(s, i, s.len())
}

/// `s.strip_prefix(c).unwrap_or(s)`.
pub open spec fn drop_prefix(s: Seq<char>, c: char) -> Seq<char> {
    if s.len() > 0 && s[0] == c {
        s.drop_first()
    } else {
        s
    }
}

pub fn drop_prefix_chars(s: &[char], c: char) -> (r: Vec<char>)
    ensures
        r@ == drop_prefix(s@, c),
{
    if s.len() > 0 && s[0] == c {
        slice_vec(s, 1, s.len())
    } else {
        slice_vec(s, 0, s.len())
    }
}

/// Whether the lower-cased text begins with `x` or `0x`.
pub open spec fn hex_prefixed(s: Seq<char>) -> bool {
    let l = lower_seq(s);
    (l.len() >= 2 && l[0] == '0' && l[1] == 'x') || (l.len() >= 1 && l[0] == 'x')
}

pub fn is_hex_prefixed(s: &[char]) -> (b: bool)
    ensures
        b == hex_prefixed(s@),
{
    let l = to_lower(s);
    (l.len() >= 2 && l[0] == '0' && l[1] == 'x') || (l.len() >= 1 && l[0] == 'x')
}

/// An assembler error with the given position and message.
pub fn asm_error(line: u32, column: u32, message: String) -> (e: AssemblerError)
    ensures
        e.line == line,
        e.column == column,
        e.message == message,
{
    AssemblerError { line, column, message }
}

/// `"<prefix><token>"` as an error message.
pub fn msg_with(prefix: &str, token: &[char]) -> (s: String)
    ensures
        s@ == prefix@ + token@,
{
    Text::new().s(prefix).all(token).done()
}

/// Appends the little-endian bytes of a 16-bit word; returns the offset of the first byte.
pub fn emit16(bytes: &mut Vec<u8>, w: u16) -> (off: usize)
    ensures
        off == old(bytes)@.len(),
        final(bytes)@ == old(bytes)@ + seq![(w % 256) as u8, (w / 256) as u8],
{
    let off = bytes.len();
    bytes.push((w % 256) as u8);
    bytes.push((w / 256) as u8);
    assert(bytes@ =~= old(bytes)@ + seq![(w % 256) as u8, (w / 256) as u8]);
    off
}

/// Records the source position of an instruction.
pub fn map_source(source_map: &mut Vec<SourceMapEntry>, pc: u32, line: u32, column: u32)
    ensures
        final(source_map)@ == old(source_map)@.push(SourceMapEntry { pc, line, column }),
{
    source_map.push(SourceMapEntry { pc, line, column });
}

/// Reads a 16-bit little-endian word at `off`.
pub fn read_word16(bytes: &Vec<u8>, off: usize) -> (w: u16)
    requires
        off + 2 <= bytes@.len(),
    ensures
        w == bytes@[off as int] as int + bytes@[off + 1] as int * 256,
{
    let _n = bytes.len();
    bytes[off] as u16 + (bytes[off + 1] as u16) * 256
}

/// Writes a 16-bit little-endian word at `off`.
pub fn write_word16(bytes: &mut Vec<u8>, off: usize, w: u16)
    requires
        off + 2 <= old(bytes)@.len(),
    ensures
        final(bytes)@ == old(bytes)@.update(off as int, (w % 256) as u8).update(off + 1, (w / 256) as u8),
{
    let _n = bytes.len();
    bytes.set(off, (w % 256) as u8);
    bytes.set(off + 1, (w / 256) as u8);
}

/// Reads a 32-bit little-endian word at `off`.
pub fn read_word32(bytes: &Vec<u8>, off: usize) -> (w: u32)
    requires
        off + 4 <= bytes@.len(),
    ensures
        w == bytes@[off as int] as int + bytes@[off + 1] as int * 0x100 + bytes@[off + 2] as int * 0x1_0000
            + bytes@[off + 3] as int * 0x100_0000,
{
    let _n = bytes.len();
    bytes[off] as u32 + (bytes[off + 1] as u32) * 0x100 + (bytes[off + 2] as u32) * 0x1_0000
        + (bytes[off + 3] as u32) * 0x100_0000
}

/// Writes a 32-bit little-endian word at `off`.
pub fn write_word32(bytes: &mut Vec<u8>, off: usize, w: u32)
    requires
        off + 4 <= old(bytes)@.len(),
    ensures
        final(bytes)@ == old(bytes)@.update(off as int, (w % 0x100) as u8).update(off + 1, ((w / 0x100) % 0x100) as u8)
            .update(off + 2, ((w / 0x1_0000) % 0x100) as u8).update(off + 3, (w / 0x100_0000) as u8),
{
    let _n = bytes.len();
    bytes.set(off, (w % 0x100) as u8);
    bytes.set(off + 1, ((w / 0x100) % 0x100) as u8);
    bytes.set(off + 2, ((w / 0x1_0000) % 0x100) as u8);
    bytes.set(off + 3, (w / 0x100_0000) as u8);
}

/// A source line with the comment from `c` on removed, then trimmed.
pub open spec fn code_of(line: Seq<char>, c: char) -> Seq<char> {
    trim(crate::text::before_char(line, c))
}

pub fn code_part(line: &[char], c: char) -> (r: Vec<char>)
    ensures
        r@ == code_of(line@, c),
{
    let b = crate::text::take_before(line, c);
    trim_chars(b.as_slice())
}

/// Decimal or hex parse of an unsigned value at most `max`, the hex digits
/// taken after the given prefix stripping.
pub fn parse_u_radix(digits: &[char], hex: bool, max: u64) -> (r: Option<u64>)
    requires
        max <= 0xFFFF_FFFF_FFFF,
    ensures
        match r {
            Some(v) => parse_unsigned(digits@, if hex { 16 } else { 10 }, max as nat) == Some(v as nat),
            None => parse_unsigned(digits@, if hex { 16 } else { 10 }, max as nat) is None,
        },
{
    parse_uint(digits, if hex { 16 } else { 10 }, max)
}

pub fn parse_i_radix(digits: &[char], hex: bool, min: i64, max: i64) -> (r: Option<i64>)
    requires
        -0xFFFF_FFFF_FFFF <= min <= 0,
        0 <= max <= 0xFFFF_FFFF_FFFF,
    ensures
        match r {
            Some(v) => parse_signed(digits@, if hex { 16 } else { 10 }, min as int, max as int) == Some(v as int),
            None => parse_signed(digits@, if hex { 16 } else { 10 }, min as int, max as int) is None,
        },
{
    parse_int(digits, if hex { 16 } else { 10 }, min, max)
}

} // verus!

//! The shape shared by the two-pass assemblers: what the first pass over the
//! source lines gathers, and the `name:` label syntax that all of them accept.
use vstd::prelude::*;
use crate::plugin::{AssemblerError, SourceMapEntry, ProgramImage};
use crate::text::{find, find_char, lemma_find_char, slice_vec, trim, trim_chars};

verus! {

/// An error seen as its line, column and message.
pub open spec fn err_view(e: AssemblerError) -> (u32, u32, Seq<char>) {
    (e.line, e.column, e.message@)
}

pub open spec fn errs_view(es: Seq<AssemblerError>) -> Seq<(u32, u32, Seq<char>)> {
    es.map_values(|e: AssemblerError| err_view(e))
}

pub proof fn lemma_errs_push(es: Seq<AssemblerError>, e: AssemblerError)
    ensures
        errs_view(es.push(e)) == errs_view(es).push(err_view(e)),
{
    assert(errs_view(es.push(e)) =~= errs_view(es).push(err_view(e)));
}

/// An assembled image seen as its bytes, source map, errors and entry point.
pub type ImageView = (Seq<u8>, Seq<SourceMapEntry>, Seq<(u32, u32, Seq<char>)>, u32);

pub open spec fn image_view(img: ProgramImage) -> ImageView {
    (img.bytes@, img.source_map@, errs_view(img.errors@), img.entry_pc)
}

/// What the first pass of an assembler has gathered after some lines; `R`
/// is how a label reference waiting for its address is seen.
pub struct Scan<R> {
    pub bytes: Seq<u8>,
    pub smap: Seq<SourceMapEntry>,
    pub errors: Seq<(u32, u32, Seq<char>)>,
    pub labels: Map<Seq<char>, u32>,
    pub refs: Seq<R>,
    /// The origin (the entry point when `_start` is not defined).
    pub start: u32,
    pub pc: u32,
    /// Whether an end directive has stopped the pass.
    pub ended: bool,
}

/// The 1-based number of the line at index `i`, as the assemblers store it.
pub open spec fn line_number(i: int) -> u32 {
    ((i + 1) % 0x1_0000_0000) as u32
}

/// Whether `s` begins with `p`.
pub open spec fn starts_with(s: Seq<char>, p: Seq<char>) -> bool {
    p.len() <= s.len() && s.subrange(0, p.len() as int) == p
}

/// The label that a line defines: the trimmed text before its first `:`,
/// unless that is empty or begins with `.`.
pub open spec fn line_label(line: Seq<char>) -> Option<Seq<char>> {
    match find_char(line, ':') {
        Some(i) => {
            let l = trim(line.subrange(0, i));
            if l.len() > 0 && l[0] != '.' {
                Some(l)
            } else {
                None
            }
        },
        None => None,
    }
}

/// What follows the label of a line, trimmed; the whole line when it has no `:`.
pub open spec fn line_rest(line: Seq<char>) -> Seq<char> {
    match find_char(line, ':') {
        Some(i) => trim(line.subrange(i + 1, line.len() as int)),
        None => line,
    }
}

/// Splits a line into the label it defines and the rest.
pub fn split_label(line: &Vec<char>) -> (r: (Option<Vec<char>>, Vec<char>))
    ensures
        match r.0 {
            Some(l) => line_label(line@) == Some(l@),
            None => line_label(line@) is None,
        },
        r.1@ == line_rest(line@),
{
    proof {
        lemma_find_char(line@, ':');
    }
    match find(line.as_slice(), ':') {
        Some(idx) => {
            assert(idx < line.len());
            let lab = slice_vec(line.as_slice(), 0, idx);
            let label = trim_chars(lab.as_slice());
            let rest0 = slice_vec(line.as_slice(), idx + 1, line.len());
            let rest = trim_chars(rest0.as_slice());
            if label.len() > 0 && label[0] != '.' {
                (Some(label), rest)
            } else {
                (None, rest)
            }
        },
        None => (None, slice_vec(line.as_slice(), 0, line.len())),
    }
}

/// The little-endian 16-bit word at `off`.
pub open spec fn le16(b: Seq<u8>, off: int) -> int {
    b[off] as int + b[off + 1] as int * 256
}

/// `b` with the 16-bit word `w` written little-endian at `off`.
pub open spec fn put16(b: Seq<u8>, off: int, w: u16) -> Seq<u8> {
    b.update(off, (w % 256) as u8).update(off + 1, (w / 256) as u8)
}

/// The little-endian 32-bit word at `off`.
pub open spec fn le32(b: Seq<u8>, off: int) -> int {
    b[off] as int + b[off + 1] as int * 0x100 + b[off + 2] as int * 0x1_0000 + b[off + 3] as int * 0x100_0000
}

/// `b` with the 32-bit word `w` written little-endian at `off`.
pub open spec fn put32(b: Seq<u8>, off: int, w: u32) -> Seq<u8> {
    b.update(off, (w % 0x100) as u8).update(off + 1, ((w / 0x100) % 0x100) as u8).update(
        off + 2,
        ((w / 0x1_0000) % 0x100) as u8,
    ).update(off + 3, (w / 0x100_0000) as u8)
}

} // verus!

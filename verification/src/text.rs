//! Character-level text handling: conversion between strings and character
//! vectors, number formatting, integer parsing and line/token splitting.
use vstd::prelude::*;

verus! {

// ---------------------------------------------------------------------------
// Conversions between `str`/`String` and character vectors
// ---------------------------------------------------------------------------

/// The characters of `s`, in order.
pub fn chars_of(s: &str) -> (r: Vec<char>)
    ensures
        r@ == s@,
{
    broadcast use vstd::string::axiom_spec_iter;
    let mut r: Vec<char> = Vec::new();
    for c in it: s.chars()
        invariant
            r@ == it.seq().take(it.index() as int),
    {
        r.push(c);
    }
    r
}

/// Appends a character to a string (std `String::push`).
/// Trusted: the string afterwards holds its old characters followed by `c`.
#[verifier::external_body]
fn push_char(s: &mut String, c: char)
    ensures
        final(s)@ == old(s)@.push(c),
{
    s.push(c)
}

/// A `String` holding the given characters, in order.
pub fn string_of(v: &[char]) -> (r: String)
    ensures
        r@ == v@,
{
    let mut r = String::new();
    let mut i: usize = 0;
    while i < v.len()
        invariant
            i <= v@.len(),
            r@ == v@.take(i as int),
        decreases v@.len() - i,
    {
        push_char(&mut r, v[i]);
        assert(v@.take(i + 1) =~= v@.take(i as int).push(v@[i as int]));
        i = i + 1;
    }
    assert(v@.take(v@.len() as int) =~= v@);
    r
}

/// A string literal appended to a character vector.
pub fn push_lit(out: &mut Vec<char>, lit: &str)
    ensures
        final(out)@ == old(out)@ + lit@,
{
    let cs = chars_of(lit);
    let mut i: usize = 0;
    while i < cs.len()
        invariant
            0 <= i <= cs.len(),
            cs@ == lit@,
            out@ == old(out)@ + cs@.subrange(0, i as int),
        decreases cs.len() - i,
    {
        out.push(cs[i]);
        i = i + 1;
        assert(cs@.subrange(0, i as int) =~= cs@.subrange(0, (i - 1) as int).push(cs@[i - 1]));
    }
    assert(cs@.subrange(0, cs.len() as int) =~= cs@);
}

/// Appends all characters of `src` to `out`.
pub fn push_all(out: &mut Vec<char>, src: &[char])
    ensures
        final(out)@ == old(out)@ + src@,
{
    let mut i: usize = 0;
    while i < src.len()
        invariant
            0 <= i <= src.len(),
            out@ == old(out)@ + src@.subrange(0, i as int),
        decreases src.len() - i,
    {
        out.push(src[i]);
        i = i + 1;
        assert(src@.subrange(0, i as int) =~= src@.subrange(0, (i - 1) as int).push(src@[i - 1]));
    }
    assert(src@.subrange(0, src.len() as int) =~= src@);
}

/// A `String` holding the characters of a literal.
pub fn lit_string(lit: &str) -> (r: String)
    ensures
        r@ == lit@,
{
    let v = chars_of(lit);
    string_of(v.as_slice())
}

// ---------------------------------------------------------------------------
// Number formatting
// ---------------------------------------------------------------------------

/// The upper-case hexadecimal (or decimal) digit for `d < 16`.
pub open spec fn digit_char(d: nat) -> char {
    if d < 10 {
        ((d + 48) as u8) as char
    } else {
        ((d + 55) as u8) as char
    }
}

/// Digits of `v` in base `radix` (no leading zeros; "0" for zero).
pub open spec fn digits(v: nat, radix: nat) -> Seq<char>
    decreases v,
{
    if radix < 2 || v < radix {
        seq![digit_char(v % 16)]
    } else {
        proof {
            assert(v / radix < v) by (nonlinear_arith)
                requires
                    radix >= 2,
                    v >= radix,
            ;
        }
        digits(v / radix, radix).push(digit_char(v % radix))
    }
}

/// `n` copies of `c`.
pub open spec fn repeat_char(c: char, n: nat) -> Seq<char>
    decreases n,
{
    if n == 0 {
        Seq::empty()
    } else {
        repeat_char(c, (n - 1) as nat).push(c)
    }
}

/// Zero-padded upper-case hex of at least `width` digits, as `{:0width$X}` formats.
pub open spec fn hex_text(v: nat, width: nat) -> Seq<char> {
    let d = digits(v, 16);
    if d.len() < width {
        repeat_char('0', (width - d.len()) as nat) + d
    } else {
        d
    }
}

/// Decimal text of a natural number, as `{}` formats an unsigned integer.
pub open spec fn dec_text(v: nat) -> Seq<char> {
    digits(v, 10)
}

/// Decimal text of an integer, as `{}` formats a signed integer.
pub open spec fn int_text(v: int) -> Seq<char> {
    if v < 0 {
        seq!['-'] + digits((-v) as nat, 10)
    } else {
        digits(v as nat, 10)
    }
}

fn digit(d: u64) -> (c: char)
    requires
        d < 16,
    ensures
        c == digit_char(d as nat),
{
    if d < 10 {
        ((d + 48) as u8) as char
    } else {
        ((d + 55) as u8) as char
    }
}

fn push_digits(out: &mut Vec<char>, v: u64, radix: u64)
    requires
        radix == 10 || radix == 16,
    ensures
        final(out)@ == old(out)@ + digits(v as nat, radix as nat),
    decreases v,
{
    if v < radix {
        out.push(digit(v % 16));
        assert(digits(v as nat, radix as nat) =~= seq![digit_char((v % 16) as nat)]);
    } else {
        push_digits(out, v / radix, radix);
        out.push(digit(v % radix));
    }
}

fn push_repeat(out: &mut Vec<char>, c: char, n: usize)
    ensures
        final(out)@ == old(out)@ + repeat_char(c, n as nat),
{
    let mut i: usize = 0;
    while i < n
        invariant
            0 <= i <= n,
            out@ == old(out)@ + repeat_char(c, i as nat),
        decreases n - i,
    {
        out.push(c);
        i = i + 1;
    }
}

/// Appends `v` in upper-case hex, zero-padded to `width` digits.
pub fn push_hex(out: &mut Vec<char>, v: u64, width: usize)
    ensures
        final(out)@ == old(out)@ + hex_text(v as nat, width as nat),
{
    let mut d: Vec<char> = Vec::new();
    push_digits(&mut d, v, 16);
    assert(d@ =~= digits(v as nat, 16));
    if d.len() < width {
        push_repeat(out, '0', width - d.len());
    }
    push_all(out, d.as_slice());
    assert(out@ =~= old(out)@ + hex_text(v as nat, width as nat));
}

/// Appends the decimal text of `v`.
pub fn push_dec(out: &mut Vec<char>, v: u64)
    ensures
        final(out)@ == old(out)@ + dec_text(v as nat),
{
    push_digits(out, v, 10);
}

/// Appends the decimal text of the signed `v`.
pub fn push_int(out: &mut Vec<char>, v: i64)
    ensures
        final(out)@ == old(out)@ + int_text(v as int),
{
    if v < 0 {
        out.push('-');
        let m: u64 = if v == i64::MIN { 0x8000_0000_0000_0000u64 } else { (-v) as u64 };
        push_digits(out, m, 10);
        assert(out@ =~= old(out)@ + int_text(v as int));
    } else {
        push_digits(out, v as u64, 10);
    }
}

// ---------------------------------------------------------------------------
// Character classes and case mapping
// ---------------------------------------------------------------------------

/// Unicode `White_Space`, as `char::is_whitespace` decides it.
pub open spec fn is_ws(c: char) -> bool {
    let u = c as u32;
    (0x09 <= u && u <= 0x0D) || u == 0x20 || u == 0x85 || u == 0xA0 || u == 0x1680
        || (0x2000 <= u && u <= 0x200A) || u == 0x2028 || u == 0x2029 || u == 0x202F
        || u == 0x205F || u == 0x3000
}

pub fn is_ws_exec(c: char) -> (b: bool)
    ensures
        b == is_ws(c),
{
    let u = c as u32;
    (0x09 <= u && u <= 0x0D) || u == 0x20 || u == 0x85 || u == 0xA0 || u == 0x1680
        || (0x2000 <= u && u <= 0x200A) || u == 0x2028 || u == 0x2029 || u == 0x202F
        || u == 0x205F || u == 0x3000
}

/// ASCII lower-casing of one character.
pub open spec fn lower(c: char) -> char {
    if 'A' <= c && c <= 'Z' {
        ((c as u32 + 32) as u8) as char
    } else {
        c
    }
}

/// ASCII upper-casing of one character.
pub open spec fn upper(c: char) -> char {
    if 'a' <= c && c <= 'z' {
        ((c as u32 - 32) as u8) as char
    } else {
        c
    }
}

pub open spec fn lower_seq(s: Seq<char>) -> Seq<char> {
    Seq::new(s.len(), |i: int| lower(s[i]))
}

pub open spec fn upper_seq(s: Seq<char>) -> Seq<char> {
    Seq::new(s.len(), |i: int| upper(s[i]))
}

pub fn to_lower(s: &[char]) -> (r: Vec<char>)
    ensures
        r@ == lower_seq(s@),
{
    let mut r: Vec<char> = Vec::new();
    let mut i: usize = 0;
    while i < s.len()
        invariant
            0 <= i <= s.len(),
            r@ =~= lower_seq(s@.subrange(0, i as int)),
        decreases s.len() - i,
    {
        let c = s[i];
        let l = if 'A' <= c && c <= 'Z' { ((c as u32 + 32) as u8) as char } else { c };
        r.push(l);
        i = i + 1;
        assert(r@ =~= lower_seq(s@.subrange(0, i as int)));
    }
    assert(s@.subrange(0, s.len() as int) =~= s@);
    r
}

pub fn to_upper(s: &[char]) -> (r: Vec<char>)
    ensures
        r@ == upper_seq(s@),
{
    let mut r: Vec<char> = Vec::new();
    let mut i: usize = 0;
    while i < s.len()
        invariant
            0 <= i <= s.len(),
            r@ =~= upper_seq(s@.subrange(0, i as int)),
        decreases s.len() - i,
    {
        let c = s[i];
        let l = if 'a' <= c && c <= 'z' { ((c as u32 - 32) as u8) as char } else { c };
        r.push(l);
        i = i + 1;
        assert(r@ =~= upper_seq(s@.subrange(0, i as int)));
    }
    assert(s@.subrange(0, s.len() as int) =~= s@);
    r
}

// ---------------------------------------------------------------------------
// Comparisons and searching
// ---------------------------------------------------------------------------

/// Whether the characters of `s` spell the literal `lit`.
pub fn eq_lit(s: &[char], lit: &str) -> (b: bool)
    ensures
        b == (s@ == lit@),
{
    let l = chars_of(lit);
    eq_chars(s, l.as_slice())
}

pub fn eq_chars(a: &[char], b: &[char]) -> (r: bool)
    ensures
        r == (a@ == b@),
{
    if a.len() != b.len() {
        return false;
    }
    let mut i: usize = 0;
    while i < a.len()
        invariant
            0 <= i <= a.len(),
            a.len() == b.len(),
            forall|k: int| 0 <= k < i ==> a@[k] == b@[k],
        decreases a.len() - i,
    {
        if a[i] != b[i] {
            return false;
        }
        i = i + 1;
    }
    assert(a@ =~= b@);
    true
}

/// Whether `s` begins with the literal `lit`.
pub fn starts_with_lit(s: &[char], lit: &str) -> (b: bool)
    ensures
        b == (lit@.len() <= s@.len() && s@.subrange(0, lit@.len() as int) == lit@),
{
    let l = chars_of(lit);
    if l.len() > s.len() {
        return false;
    }
    let mut i: usize = 0;
    while i < l.len()
        invariant
            0 <= i <= l.len(),
            l.len() <= s.len(),
            l@ == lit@,
            forall|k: int| 0 <= k < i ==> s@[k] == l@[k],
        decreases l.len() - i,
    {
        if s[i] != l[i] {
            assert(s@.subrange(0, l@.len() as int)[i as int] != l@[i as int]);
            return false;
        }
        i = i + 1;
    }
    assert(s@.subrange(0, l@.len() as int) =~= l@);
    true
}

/// Index of the first occurrence of `c` in `s`.
pub open spec fn find_char(s: Seq<char>, c: char) -> Option<int>
    decreases s.len(),
{
    if s.len() == 0 {
        None
    } else if s[0] == c {
        Some(0)
    } else {
        match find_char(s.drop_first(), c) {
            Some(i) => Some(i + 1),
            None => None,
        }
    }
}

pub proof fn lemma_find_char(s: Seq<char>, c: char)
    ensures
        match find_char(s, c) {
            Some(i) => 0 <= i < s.len() && s[i] == c && forall|k: int| 0 <= k < i ==> s[k] != c,
            None => forall|k: int| 0 <= k < s.len() ==> s[k] != c,
        },
    decreases s.len(),
{
    if s.len() > 0 && s[0] != c {
        lemma_find_char(s.drop_first(), c);
        assert forall|k: int| 1 <= k < s.len() implies s[k] == s.drop_first()[k - 1] by {}
    }
}

pub fn find(s: &[char], c: char) -> (r: Option<usize>)
    ensures
        match r {
            Some(i) => find_char(s@, c) == Some(i as int),
            None => find_char(s@, c) is None,
        },
        match r {
            Some(i) => i < s@.len() && s@[i as int] == c && forall|k: int| 0 <= k < i ==> s@[k] != c,
            None => forall|k: int| 0 <= k < s@.len() ==> s@[k] != c,
        },
{
    proof { lemma_find_char(s@, c); }
    let mut i: usize = 0;
    while i < s.len()
        invariant
            0 <= i <= s.len(),
            forall|k: int| 0 <= k < i ==> s@[k] != c,
        decreases s.len() - i,
    {
        if s[i] == c {
            proof { lemma_find_first_unique(s@, c, i as int); }
            return Some(i);
        }
        i = i + 1;
    }
    None
}

proof fn lemma_find_first_unique(s: Seq<char>, c: char, i: int)
    requires
        0 <= i < s.len(),
        s[i] == c,
        forall|k: int| 0 <= k < i ==> s[k] != c,
    ensures
        find_char(s, c) == Some(i),
{
    lemma_find_char(s, c);
    match find_char(s, c) {
        Some(j) => {
            if j < i {
                assert(s[j] != c);
            }
            if j > i {
                assert(s[i] != c);
            }
        },
        None => {
            assert(s[i] != c);
        },
    }
}

/// The part of `s` before the first `c` (all of `s` when there is none), as
/// `s.split(c).next()` gives it.
pub open spec fn before_char(s: Seq<char>, c: char) -> Seq<char> {
    match find_char(s, c) {
        Some(i) => s.subrange(0, i),
        None => s,
    }
}

pub fn take_before(s: &[char], c: char) -> (r: Vec<char>)
    ensures
        r@ == before_char(s@, c),
{
    let end = match find(s, c) {
        Some(i) => i,
        None => s.len(),
    };
    slice_vec(s, 0, end)
}

/// Copies `s[from..to]` into a new vector.
pub fn slice_vec(s: &[char], from: usize, to: usize) -> (r: Vec<char>)
    requires
        from <= to <= s@.len(),
    ensures
        r@ == s@.subrange(from as int, to as int),
{
    let mut r: Vec<char> = Vec::new();
    let mut i: usize = from;
    while i < to
        invariant
            from <= i <= to,
            to <= s@.len(),
            r@ =~= s@.subrange(from as int, i as int),
        decreases to - i,
    {
        r.push(s[i]);
        i = i + 1;
        assert(r@ =~= s@.subrange(from as int, i as int));
    }
    r
}

// ---------------------------------------------------------------------------
// Trimming
// ---------------------------------------------------------------------------

/// Index of the first non-whitespace character (or the length).
pub open spec fn ws_prefix_len(s: Seq<char>) -> int
    decreases s.len(),
{
    if s.len() > 0 && is_ws(s[0]) {
        1 + ws_prefix_len(s.drop_first())
    } else {
        0
    }
}

/// Length of `s` without its trailing whitespace.
pub open spec fn ws_trimmed_end(s: Seq<char>) -> int
    decreases s.len(),
{
    if s.len() > 0 && is_ws(s.last()) {
        ws_trimmed_end(s.drop_last())
    } else {
        s.len() as int
    }
}

pub open spec fn trim_start(s: Seq<char>) -> Seq<char> {
    s.subrange(ws_prefix_len(s), s.len() as int)
}

pub open spec fn trim_end(s: Seq<char>) -> Seq<char> {
    s.subrange(0, ws_trimmed_end(s))
}

/// `str::trim`: whitespace removed at both ends.
pub open spec fn trim(s: Seq<char>) -> Seq<char> {
    trim_end(trim_start(s))
}

pub proof fn lemma_ws_prefix(s: Seq<char>)
    ensures
        0 <= ws_prefix_len(s) <= s.len(),
        forall|k: int| 0 <= k < ws_prefix_len(s) ==> is_ws(s[k]),
        ws_prefix_len(s) < s.len() ==> !is_ws(s[ws_prefix_len(s)]),
    decreases s.len(),
{
    if s.len() > 0 && is_ws(s[0]) {
        lemma_ws_prefix(s.drop_first());
        assert forall|k: int| 0 <= k < ws_prefix_len(s) implies is_ws(s[k]) by {
            if k > 0 {
                assert(s[k] == s.drop_first()[k - 1]);
            }
        }
    }
}

pub proof fn lemma_ws_prefix_exact(s: Seq<char>, i: int)
    requires
        0 <= i <= s.len(),
        forall|k: int| 0 <= k < i ==> is_ws(s[k]),
        i < s.len() ==> !is_ws(s[i]),
    ensures
        ws_prefix_len(s) == i,
    decreases s.len(),
{
    if i > 0 {
        assert forall|k: int| 0 <= k < i - 1 implies is_ws(s.drop_first()[k]) by {
            assert(s.drop_first()[k] == s[k + 1]);
        }
        if i - 1 < s.drop_first().len() {
            assert(s.drop_first()[i - 1] == s[i]);
        }
        lemma_ws_prefix_exact(s.drop_first(), i - 1);
    }
}

pub proof fn lemma_ws_end(s: Seq<char>)
    ensures
        0 <= ws_trimmed_end(s) <= s.len(),
        forall|k: int| ws_trimmed_end(s) <= k < s.len() ==> is_ws(s[k]),
        ws_trimmed_end(s) > 0 ==> !is_ws(s[ws_trimmed_end(s) - 1]),
    decreases s.len(),
{
    if s.len() > 0 && is_ws(s.last()) {
        lemma_ws_end(s.drop_last());
        assert forall|k: int| 0 <= k < s.len() - 1 implies s.drop_last()[k] == s[k] by {}
    }
}

pub proof fn lemma_ws_end_exact(s: Seq<char>, j: int)
    requires
        0 <= j <= s.len(),
        forall|k: int| j <= k < s.len() ==> is_ws(s[k]),
        j > 0 ==> !is_ws(s[j - 1]),
    ensures
        ws_trimmed_end(s) == j,
    decreases s.len(),
{
    if j < s.len() {
        lemma_ws_end_exact(s.drop_last(), j);
    }
}

/// `str::trim` on a character slice.
pub fn trim_chars(s: &[char]) -> (r: Vec<char>)
    ensures
        r@ == trim(s@),
{
    let mut i: usize = 0;
    while i < s.len() && is_ws_exec(s[i])
        invariant
            0 <= i <= s.len(),
            forall|k: int| 0 <= k < i ==> is_ws(s@[k]),
        decreases s.len() - i,
    {
        i = i + 1;
    }
    proof { lemma_ws_prefix_exact(s@, i as int); }
    let mut j: usize = s.len();
    while j > i && is_ws_exec(s[j - 1])
        invariant
            i <= j <= s.len(),
            forall|k: int| j <= k < s.len() ==> is_ws(s@[k]),
        decreases j,
    {
        j = j - 1;
    }
    proof {
        let t = s@.subrange(i as int, s@.len() as int);
        assert forall|k: int| (j - i) <= k < t.len() implies is_ws(t[k]) by {
            assert(t[k] == s@[k + i]);
        }
        if j > i {
            assert(t[j - i - 1] == s@[j - 1]);
        }
        lemma_ws_end_exact(t, (j - i) as int);
        assert(trim(s@) =~= s@.subrange(i as int, j as int));
    }
    slice_vec(s, i, j)
}

/// `trim_end_matches(c)`: every trailing `c` removed.
pub open spec fn strip_trailing(s: Seq<char>, c: char) -> Seq<char>
    decreases s.len(),
{
    if s.len() > 0 && s.last() == c {
        strip_trailing(s.drop_last(), c)
    } else {
        s
    }
}

pub fn strip_trailing_chars(s: &[char], c: char) -> (r: Vec<char>)
    ensures
        r@ == strip_trailing(s@, c),
{
    let mut j: usize = s.len();
    assert(s@.subrange(0, j as int) =~= s@);
    while j > 0 && s[j - 1] == c
        invariant
            j <= s.len(),
            strip_trailing(s@, c) == strip_trailing(s@.subrange(0, j as int), c),
        decreases j,
    {
        assert(s@.subrange(0, j as int).drop_last() =~= s@.subrange(0, j - 1));
        j = j - 1;
    }
    slice_vec(s, 0, j)
}

// ---------------------------------------------------------------------------
// Lines and whitespace-separated tokens
// ---------------------------------------------------------------------------

/// One line as `str::lines` yields it: a trailing `'\r'` is dropped.
pub open spec fn line_body(s: Seq<char>) -> Seq<char> {
    if s.len() > 0 && s.last() == '\r' {
        s.drop_last()
    } else {
        s
    }
}

/// `str::lines`: the text split at `'\n'`, with no final empty line after a
/// trailing newline.
pub open spec fn lines_spec(s: Seq<char>) -> Seq<Seq<char>>
    decreases s.len(),
{
    if s.len() == 0 {
        Seq::empty()
    } else {
        proof {
            lemma_find_char(s, '\n');
        }
        match find_char(s, '\n') {
            Some(i) => seq![line_body(s.subrange(0, i))] + lines_spec(s.subrange(i + 1, s.len() as int)),
            None => seq![line_body(s)],
        }
    }
}

pub fn split_lines(s: &[char]) -> (r: Vec<Vec<char>>)
    ensures
        r@.len() == lines_spec(s@).len(),
        forall|k: int| 0 <= k < r@.len() ==> #[trigger] r@[k]@ == lines_spec(s@)[k],
{
    let mut r: Vec<Vec<char>> = Vec::new();
    let ghost mut rv: Seq<Seq<char>> = Seq::empty();
    let mut start: usize = 0;
    assert(s@.subrange(0, s@.len() as int) =~= s@);
    assert(rv + lines_spec(s@) =~= lines_spec(s@));
    while start < s.len()
        invariant
            start <= s.len(),
            rv.len() == r@.len(),
            forall|k: int| 0 <= k < r@.len() ==> #[trigger] r@[k]@ == rv[k],
            rv + lines_spec(s@.subrange(start as int, s@.len() as int)) == lines_spec(s@),
        decreases s.len() - start,
    {
        let ghost rest = s@.subrange(start as int, s@.len() as int);
        proof { lemma_find_char(rest, '\n'); }
        let mut j: usize = start;
        while j < s.len() && s[j] != '\n'
            invariant
                start <= j <= s.len(),
                forall|k: int| start <= k < j ==> s@[k] != '\n',
            decreases s.len() - j,
        {
            j = j + 1;
        }
        let mut end: usize = j;
        if end > start && s[end - 1] == '\r' {
            end = end - 1;
        }
        let line = slice_vec(s, start, end);
        let ghost next_start: int = if j < s.len() { j + 1 } else { s.len() as int };
        proof {
            if j < s.len() {
                assert forall|k: int| 0 <= k < j - start implies rest[k] != '\n' by {
                    assert(rest[k] == s@[k + start]);
                }
                assert(rest[j - start] == '\n');
                lemma_find_first_unique(rest, '\n', (j - start) as int);
                assert(rest.subrange(0, j - start) =~= s@.subrange(start as int, j as int));
                assert(rest.subrange(j - start + 1, rest.len() as int) =~= s@.subrange(j + 1, s@.len() as int));
                assert(line@ =~= line_body(rest.subrange(0, j - start)));
                assert(lines_spec(rest) == seq![line@] + lines_spec(s@.subrange(next_start, s@.len() as int)));
            } else {
                assert forall|k: int| 0 <= k < rest.len() implies rest[k] != '\n' by {
                    assert(rest[k] == s@[k + start]);
                }
                match find_char(rest, '\n') {
                    Some(i) => { assert(rest[i] != '\n'); },
                    None => {},
                }
                assert(rest =~= s@.subrange(start as int, j as int));
                assert(line@ =~= line_body(rest));
                assert(s@.subrange(next_start, s@.len() as int).len() == 0);
                assert(lines_spec(s@.subrange(next_start, s@.len() as int)) =~= Seq::<Seq<char>>::empty());
                assert(lines_spec(rest) =~= seq![line@] + lines_spec(s@.subrange(next_start, s@.len() as int)));
            }
            assert(rv.push(line@) + lines_spec(s@.subrange(next_start, s@.len() as int))
                =~= rv + (seq![line@] + lines_spec(s@.subrange(next_start, s@.len() as int))));
            rv = rv.push(line@);
        }
        r.push(line);
        if j < s.len() {
            start = j + 1;
        } else {
            start = s.len();
        }
    }
    assert(lines_spec(s@.subrange(start as int, s@.len() as int)) =~= Seq::<Seq<char>>::empty());
    assert(rv =~= lines_spec(s@));
    r
}

// ---------------------------------------------------------------------------
// Integer parsing (the rules of std's `from_str_radix` / `str::parse`)
// ---------------------------------------------------------------------------

/// Value of one digit in the given radix, as `char::to_digit` gives it.
pub open spec fn digit_value(c: char, radix: nat) -> Option<nat> {
    let u = c as u32;
    let v: int = if 48 <= u && u <= 57 {
        u - 48
    } else if 97 <= u && u <= 122 {
        u - 87
    } else if 65 <= u && u <= 90 {
        u - 55
    } else {
        99
    };
    if v < radix {
        Some(v as nat)
    } else {
        None
    }
}

/// Whether every character of `s` is a digit of `radix`.
pub open spec fn all_digits(s: Seq<char>, radix: nat) -> bool {
    forall|k: int| 0 <= k < s.len() ==> (#[trigger] digit_value(s[k], radix)) is Some
}

/// Numeric value of a digit string.
pub open spec fn digits_value(s: Seq<char>, radix: nat) -> nat
    decreases s.len(),
{
    if s.len() == 0 {
        0
    } else {
        digits_value(s.drop_last(), radix) * radix + match digit_value(s.last(), radix) {
            Some(d) => d,
            None => 0,
        }
    }
}

/// Unsigned parse: an optional `+`, then at least one digit, with the value at most `max`.
pub open spec fn parse_unsigned(s: Seq<char>, radix: nat, max: nat) -> Option<nat> {
    let body = if s.len() > 0 && s[0] == '+' { s.drop_first() } else { s };
    if body.len() > 0 && all_digits(body, radix) && digits_value(body, radix) <= max {
        Some(digits_value(body, radix))
    } else {
        None
    }
}

/// Signed parse: an optional `+` or `-`, then at least one digit, with the
/// value in `min..=max`.
pub open spec fn parse_signed(s: Seq<char>, radix: nat, min: int, max: int) -> Option<int> {
    let neg = s.len() > 0 && s[0] == '-';
    let body = if s.len() > 0 && (s[0] == '+' || s[0] == '-') { s.drop_first() } else { s };
    let v: int = if neg { -(digits_value(body, radix) as int) } else { digits_value(body, radix) as int };
    if body.len() > 0 && all_digits(body, radix) && min <= v && v <= max {
        Some(v)
    } else {
        None
    }
}

proof fn lemma_digits_value_prefix(s: Seq<char>, radix: nat, i: int)
    requires
        0 <= i <= s.len(),
        radix >= 1,
    ensures
        digits_value(s.subrange(0, i), radix) <= digits_value(s, radix),
    decreases s.len(),
{
    if i < s.len() {
        lemma_digits_value_prefix(s.drop_last(), radix, i);
        assert(s.drop_last().subrange(0, i) =~= s.subrange(0, i));
        let a = digits_value(s.drop_last(), radix);
        assert(a * radix >= a) by (nonlinear_arith)
            requires
                radix >= 1,
        ;
    } else {
        assert(s.subrange(0, i) =~= s);
    }
}

fn digit_of(c: char, radix: u64) -> (r: Option<u64>)
    requires
        2 <= radix <= 36,
    ensures
        match r {
            Some(d) => digit_value(c, radix as nat) == Some(d as nat) && d < radix,
            None => digit_value(c, radix as nat) is None,
        },
{
    let u = c as u32;
    let v: u64 = if 48 <= u && u <= 57 {
        (u - 48) as u64
    } else if 97 <= u && u <= 122 {
        (u - 87) as u64
    } else if 65 <= u && u <= 90 {
        (u - 55) as u64
    } else {
        99
    };
    if v < radix {
        Some(v)
    } else {
        None
    }
}

/// Parses the digits `s[start..]`, failing when a character is not a digit,
/// when there are none, or when the value exceeds `bound`.
fn parse_digits(s: &[char], start: usize, radix: u64, bound: u64) -> (r: Option<u64>)
    requires
        start <= s@.len(),
        2 <= radix <= 16,
        bound <= 0xFFFF_FFFF_FFFF,
    ensures
        ({
            let body = s@.subrange(start as int, s@.len() as int);
            match r {
                Some(v) => body.len() > 0 && all_digits(body, radix as nat)
                    && v == digits_value(body, radix as nat) && v <= bound,
                None => !(body.len() > 0 && all_digits(body, radix as nat)
                    && digits_value(body, radix as nat) <= bound),
            }
        }),
{
    let ghost body = s@.subrange(start as int, s@.len() as int);
    if start == s.len() {
        return None;
    }
    let mut acc: u64 = 0;
    let mut i: usize = start;
    assert(body.subrange(0, 0) =~= Seq::<char>::empty());
    while i < s.len()
        invariant
            start <= i <= s.len(),
            body == s@.subrange(start as int, s@.len() as int),
            2 <= radix <= 16,
            bound <= 0xFFFF_FFFF_FFFF,
            acc <= bound,
            all_digits(body.subrange(0, i - start), radix as nat),
            acc == digits_value(body.subrange(0, i - start), radix as nat),
        decreases s.len() - i,
    {
        let d = digit_of(s[i], radix);
        match d {
            None => {
                assert(body[i - start] == s@[i as int]);
                assert(digit_value(body[i - start], radix as nat) is None);
                return None;
            },
            Some(dv) => {
                assert(acc * radix + dv <= 0xFFFF_FFFF_FFFF * 16 + 15) by (nonlinear_arith)
                    requires
                        acc <= 0xFFFF_FFFF_FFFF,
                        radix <= 16,
                        dv < 16,
                ;
                let next = acc * radix + dv;
                let ghost pre = body.subrange(0, i - start);
                let ghost pre2 = body.subrange(0, i - start + 1);
                assert(pre2.drop_last() =~= pre);
                assert(pre2.last() == s@[i as int]);
                assert(all_digits(pre2, radix as nat)) by {
                    assert forall|k: int| 0 <= k < pre2.len() implies (#[trigger] digit_value(pre2[k], radix as nat)) is Some by {
                        if k < pre.len() {
                            assert(pre2[k] == pre[k]);
                        }
                    }
                }
                if next > bound {
                    proof {
                        if all_digits(body, radix as nat) {
                            lemma_digits_value_prefix(body, radix as nat, i - start + 1);
                        }
                    }
                    return None;
                }
                acc = next;
                i = i + 1;
            },
        }
    }
    assert(body.subrange(0, i - start) =~= body);
    Some(acc)
}

/// Unsigned parse in `radix` with the given maximum (`u8`, `u16`, `u32` rules).
pub fn parse_uint(s: &[char], radix: u64, max: u64) -> (r: Option<u64>)
    requires
        2 <= radix <= 16,
        max <= 0xFFFF_FFFF_FFFF,
    ensures
        match r {
            Some(v) => parse_unsigned(s@, radix as nat, max as nat) == Some(v as nat),
            None => parse_unsigned(s@, radix as nat, max as nat) is None,
        },
{
    let start: usize = if s.len() > 0 && s[0] == '+' { 1 } else { 0 };
    assert(s@.subrange(start as int, s@.len() as int) =~= (if s@.len() > 0 && s@[0] == '+' { s@.drop_first() } else { s@ }));
    parse_digits(s, start, radix, max)
}

/// Signed parse in `radix` within `min..=max` (`i8`, `i16`, `i32` rules).
pub fn parse_int(s: &[char], radix: u64, min: i64, max: i64) -> (r: Option<i64>)
    requires
        2 <= radix <= 16,
        -0xFFFF_FFFF_FFFF <= min <= 0,
        0 <= max <= 0xFFFF_FFFF_FFFF,
    ensures
        match r {
            Some(v) => parse_signed(s@, radix as nat, min as int, max as int) == Some(v as int),
            None => parse_signed(s@, radix as nat, min as int, max as int) is None,
        },
{
    let neg = s.len() > 0 && s[0] == '-';
    let start: usize = if s.len() > 0 && (s[0] == '+' || s[0] == '-') { 1 } else { 0 };
    assert(s@.subrange(start as int, s@.len() as int) =~= (if s@.len() > 0 && (s@[0] == '+' || s@[0] == '-') { s@.drop_first() } else { s@ }));
    let bound: u64 = if neg { (-min) as u64 } else { max as u64 };
    match parse_digits(s, start, radix, bound) {
        Some(v) => {
            if neg {
                Some(-(v as i64))
            } else {
                Some(v as i64)
            }
        },
        None => None,
    }
}

/// Value of a decimal/hex parse as a machine word, two's complement.
pub open spec fn wrap32(v: int) -> u32 {
    (if v < 0 { v + 0x1_0000_0000 } else { v }) as u32
}

// ---------------------------------------------------------------------------
// Whitespace-separated tokens
// ---------------------------------------------------------------------------

/// Length of the leading run of non-whitespace characters.
pub open spec fn token_len(s: Seq<char>) -> int
    decreases s.len(),
{
    if s.len() > 0 && !is_ws(s[0]) {
        1 + token_len(s.drop_first())
    } else {
        0
    }
}

pub proof fn lemma_token_len(s: Seq<char>)
    ensures
        0 <= token_len(s) <= s.len(),
        s.len() > 0 && !is_ws(s[0]) ==> token_len(s) >= 1,
    decreases s.len(),
{
    if s.len() > 0 && !is_ws(s[0]) {
        lemma_token_len(s.drop_first());
    }
}

proof fn lemma_token_len_exact(s: Seq<char>, i: int)
    requires
        0 <= i <= s.len(),
        forall|k: int| 0 <= k < i ==> !is_ws(s[k]),
        i < s.len() ==> is_ws(s[i]),
    ensures
        token_len(s) == i,
    decreases s.len(),
{
    if i > 0 {
        assert forall|k: int| 0 <= k < i - 1 implies !is_ws(s.drop_first()[k]) by {
            assert(s.drop_first()[k] == s[k + 1]);
        }
        if i - 1 < s.drop_first().len() {
            assert(s.drop_first()[i - 1] == s[i]);
        }
        lemma_token_len_exact(s.drop_first(), i - 1);
    }
}

/// `str::split_whitespace`: the maximal runs of non-whitespace characters.
pub open spec fn tokens(s: Seq<char>) -> Seq<Seq<char>>
    decreases s.len(),
{
    if s.len() == 0 {
        Seq::empty()
    } else if is_ws(s[0]) {
        tokens(s.drop_first())
    } else {
        proof {
            lemma_token_len(s);
        }
        seq![s.subrange(0, token_len(s))] + tokens(s.subrange(token_len(s), s.len() as int))
    }
}

pub fn split_ws(s: &[char]) -> (r: Vec<Vec<char>>)
    ensures
        r@.len() == tokens(s@).len(),
        forall|k: int| 0 <= k < r@.len() ==> #[trigger] r@[k]@ == tokens(s@)[k],
{
    let mut r: Vec<Vec<char>> = Vec::new();
    let ghost mut rv: Seq<Seq<char>> = Seq::empty();
    let mut i: usize = 0;
    assert(s@.subrange(0, s@.len() as int) =~= s@);
    assert(rv + tokens(s@) =~= tokens(s@));
    while i < s.len()
        invariant
            i <= s.len(),
            rv.len() == r@.len(),
            forall|k: int| 0 <= k < r@.len() ==> #[trigger] r@[k]@ == rv[k],
            rv + tokens(s@.subrange(i as int, s@.len() as int)) == tokens(s@),
        decreases s.len() - i,
    {
        let ghost rest = s@.subrange(i as int, s@.len() as int);
        if is_ws_exec(s[i]) {
            assert(rest.drop_first() =~= s@.subrange(i + 1, s@.len() as int));
            i = i + 1;
        } else {
            let mut j: usize = i;
            while j < s.len() && !is_ws_exec(s[j])
                invariant
                    i <= j <= s.len(),
                    forall|k: int| i <= k < j ==> !is_ws(s@[k]),
                decreases s.len() - j,
            {
                j = j + 1;
            }
            let tok = slice_vec(s, i, j);
            proof {
                assert forall|k: int| 0 <= k < j - i implies !is_ws(rest[k]) by {
                    assert(rest[k] == s@[k + i]);
                }
                if j < s.len() {
                    assert(rest[j - i] == s@[j as int]);
                }
                lemma_token_len_exact(rest, (j - i) as int);
                assert(rest.subrange(0, j - i) =~= tok@);
                assert(rest.subrange(j - i, rest.len() as int) =~= s@.subrange(j as int, s@.len() as int));
                assert(rv.push(tok@) + tokens(s@.subrange(j as int, s@.len() as int))
                    =~= rv + (seq![tok@] + tokens(s@.subrange(j as int, s@.len() as int))));
                rv = rv.push(tok@);
            }
            r.push(tok);
            i = j;
        }
    }
    assert(tokens(s@.subrange(i as int, s@.len() as int)) =~= Seq::<Seq<char>>::empty());
    assert(rv =~= tokens(s@));
    r
}

// ---------------------------------------------------------------------------
// Splitting at a separator and joining with spaces
// ---------------------------------------------------------------------------

/// `str::split(c)`: the pieces between occurrences of `c` (one piece when
/// there is none, empty pieces kept).
pub open spec fn pieces(s: Seq<char>, c: char) -> Seq<Seq<char>>
    decreases s.len(),
{
    match find_char(s, c) {
        Some(i) => {
            proof {
                lemma_find_char(s, c);
            }
            seq![s.subrange(0, i)] + pieces(s.subrange(i + 1, s.len() as int), c)
        },
        None => seq![s],
    }
}

pub fn split_on(s: &[char], c: char) -> (r: Vec<Vec<char>>)
    ensures
        r@.len() == pieces(s@, c).len(),
        forall|k: int| 0 <= k < r@.len() ==> #[trigger] r@[k]@ == pieces(s@, c)[k],
{
    let mut r: Vec<Vec<char>> = Vec::new();
    let ghost mut rv: Seq<Seq<char>> = Seq::empty();
    let mut rest = slice_vec(s, 0, s.len());
    assert(s@.subrange(0, s@.len() as int) =~= s@);
    assert(rv + pieces(rest@, c) =~= pieces(s@, c));
    loop
        invariant
            rv.len() == r@.len(),
            forall|k: int| 0 <= k < r@.len() ==> #[trigger] r@[k]@ == rv[k],
            rv + pieces(rest@, c) == pieces(s@, c),
        decreases rest@.len(),
    {
        match find(rest.as_slice(), c) {
            Some(i) => {
                let n = rest.len();
                assert(i < n);
                let head = slice_vec(rest.as_slice(), 0, i);
                let tail = slice_vec(rest.as_slice(), i + 1, n);
                proof {
                    assert(rv.push(head@) + pieces(tail@, c) =~= rv + (seq![head@] + pieces(tail@, c)));
                    rv = rv.push(head@);
                }
                r.push(head);
                rest = tail;
            },
            None => {
                proof {
                    assert(rv.push(rest@) =~= rv + seq![rest@]);
                    rv = rv.push(rest@);
                }
                r.push(rest);
                assert(rv =~= pieces(s@, c));
                return r;
            },
        }
    }
}

/// Words joined with single spaces.
pub open spec fn joined(ts: Seq<Seq<char>>) -> Seq<char>
    decreases ts.len(),
{
    if ts.len() == 0 {
        Seq::empty()
    } else if ts.len() == 1 {
        ts[0]
    } else {
        joined(ts.drop_last()) + seq![' '] + ts.last()
    }
}

/// The words from index `from` on, joined with single spaces.
pub fn join_from(ts: &Vec<Vec<char>>, from: usize) -> (r: Vec<char>)
    requires
        from <= ts@.len(),
    ensures
        r@ == joined(Seq::new((ts@.len() - from) as nat, |k: int| ts@[from + k]@)),
{
    let ghost words = Seq::new((ts@.len() - from) as nat, |k: int| ts@[from + k]@);
    let mut out: Vec<char> = Vec::new();
    let mut i: usize = from;
    while i < ts.len()
        invariant
            from <= i <= ts@.len(),
            words == Seq::new((ts@.len() - from) as nat, |k: int| ts@[from + k]@),
            out@ == joined(words.subrange(0, i - from)),
        decreases ts@.len() - i,
    {
        let ghost pre = words.subrange(0, i - from);
        let ghost next = words.subrange(0, i + 1 - from);
        assert(next.drop_last() =~= pre);
        assert(next.last() == ts@[i as int]@);
        if i > from {
            out.push(' ');
        }
        push_all(&mut out, ts[i].as_slice());
        proof {
            if i > from {
                assert(out@ =~= joined(pre) + seq![' '] + ts@[i as int]@);
            } else {
                assert(pre.len() == 0);
                assert(out@ =~= ts@[i as int]@);
            }
        }
        i = i + 1;
    }
    assert(words.subrange(0, ts@.len() - from) =~= words);
    out
}

/// Each piece trimmed.
pub fn trim_each(v: &Vec<Vec<char>>) -> (r: Vec<Vec<char>>)
    ensures
        r@.len() == v@.len(),
        forall|k: int| 0 <= k < r@.len() ==> #[trigger] r@[k]@ == trim(v@[k]@),
{
    let mut r: Vec<Vec<char>> = Vec::new();
    let mut i: usize = 0;
    while i < v.len()
        invariant
            i <= v@.len(),
            r@.len() == i,
            forall|k: int| 0 <= k < i ==> #[trigger] r@[k]@ == trim(v@[k]@),
        decreases v@.len() - i,
    {
        r.push(trim_chars(v[i].as_slice()));
        i = i + 1;
    }
    r
}

} // verus!

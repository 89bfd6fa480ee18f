//! Builders for the human-readable texts of pipeline actions and messages.
use vstd::prelude::*;
use crate::text::{push_lit, push_hex, push_dec, push_int, push_all, string_of, chars_of};

verus! {

/// A text under construction.
pub struct Text {
    pub chars: Vec<char>,
}

impl Text {
    pub fn new() -> (t: Text)
        ensures
            t.chars@ == Seq::<char>::empty(),
    {
        Text { chars: Vec::new() }
    }

    /// Appends a literal.
    pub fn s(self, lit: &str) -> (t: Text)
        ensures
            t.chars@ == self.chars@ + lit@,
    {
        let mut t = self;
        push_lit(&mut t.chars, lit);
        t
    }

    /// Appends upper-case hex padded to `width` digits.
    pub fn hex(self, v: u64, width: usize) -> (t: Text)
        ensures
            t.chars@ == self.chars@ + crate::text::hex_text(v as nat, width as nat),
    {
        let mut t = self;
        push_hex(&mut t.chars, v, width);
        t
    }

    /// Appends an unsigned decimal.
    pub fn dec(self, v: u64) -> (t: Text)
        ensures
            t.chars@ == self.chars@ + crate::text::dec_text(v as nat),
    {
        let mut t = self;
        push_dec(&mut t.chars, v);
        t
    }

    /// Appends a signed decimal.
    pub fn sint(self, v: i64) -> (t: Text)
        ensures
            t.chars@ == self.chars@ + crate::text::int_text(v as int),
    {
        let mut t = self;
        push_int(&mut t.chars, v);
        t
    }

    /// Appends one character.
    pub fn ch(self, c: char) -> (t: Text)
        ensures
            t.chars@ == self.chars@.push(c),
    {
        let mut t = self;
        t.chars.push(c);
        t
    }

    /// Appends characters.
    pub fn all(self, cs: &[char]) -> (t: Text)
        ensures
            t.chars@ == self.chars@ + cs@,
    {
        let mut t = self;
        push_all(&mut t.chars, cs);
        t
    }

    /// Appends the characters of a string.
    pub fn string(self, s: &String) -> (t: Text)
        ensures
            t.chars@ == self.chars@ + s@,
    {
        let mut t = self;
        let cs = chars_of(s.as_str());
        push_all(&mut t.chars, cs.as_slice());
        t
    }

    pub fn done(self) -> (r: String)
        ensures
            r@ == self.chars@,
    {
        string_of(self.chars.as_slice())
    }
}

/// A literal as an owned string.
pub fn lit(s: &str) -> (r: String)
    ensures
        r@ == s@,
{
    crate::text::lit_string(s)
}

/// Characters with every newline shown as the two characters `\n`.
pub open spec fn escape_newlines(s: Seq<char>) -> Seq<char>
    decreases s.len(),
{
    if s.len() == 0 {
        Seq::empty()
    } else {
        escape_newlines(s.drop_last()) + (if s.last() == '\n' { seq!['\\', 'n'] } else { seq![s.last()] })
    }
}

pub fn escape_nl(s: &[char]) -> (r: Vec<char>)
    ensures
        r@ == escape_newlines(s@),
{
    let mut r: Vec<char> = Vec::new();
    let mut i: usize = 0;
    while i < s.len()
        invariant
            0 <= i <= s.len(),
            r@ == escape_newlines(s@.subrange(0, i as int)),
        decreases s.len() - i,
    {
        let ghost prev = s@.subrange(0, i as int);
        if s[i] == '\n' {
            r.push('\\');
            r.push('n');
        } else {
            r.push(s[i]);
        }
        i = i + 1;
        assert(s@.subrange(0, i as int).drop_last() =~= prev);
        assert(r@ =~= escape_newlines(s@.subrange(0, i as int)));
    }
    assert(s@.subrange(0, s.len() as int) =~= s@);
    r
}

} // verus!

//! Memory abstraction with bounds checks and little-endian reads and writes.
use vstd::prelude::*;
use crate::text::{push_lit, push_hex, push_dec, string_of, hex_text, dec_text};

verus! {

/// Byte-addressed memory of a fixed size.
#[derive(Debug, Clone)]
pub struct Memory {
    data: Vec<u8>,
}

/// The message of a failed bounds check.
pub open spec fn oob_message(addr: u32, len: nat, size: nat) -> Seq<char> {
    "Memory access out of bounds: 0x"@ + hex_text(addr as nat, 8) + " + "@ + dec_text(len)
        + " > 0x"@ + hex_text(size, 8)
}

/// Whether `len` bytes starting at `addr` lie inside a memory of `size` bytes.
pub open spec fn in_bounds(addr: u32, len: nat, size: nat) -> bool {
    addr + len <= size
}

/// Little-endian 16-bit value of two bytes.
pub open spec fn le16(b0: u8, b1: u8) -> u16 {
    (b0 as int + b1 as int * 256) as u16
}

/// Little-endian 32-bit value of four bytes.
pub open spec fn le32(b0: u8, b1: u8, b2: u8, b3: u8) -> u32 {
    (b0 as int + b1 as int * 0x100 + b2 as int * 0x1_0000 + b3 as int * 0x100_0000) as u32
}

/// Byte `i` (0 = least significant) of a 32-bit value.
pub open spec fn byte_of(v: u32, i: int) -> u8 {
    ((v as int / pow256(i)) % 256) as u8
}

pub open spec fn pow256(i: int) -> int {
    if i <= 0 {
        1
    } else if i == 1 {
        0x100
    } else if i == 2 {
        0x1_0000
    } else {
        0x100_0000
    }
}

pub open spec fn read16(m: Seq<u8>, a: int) -> u16 {
    le16(m[a], m[a + 1])
}

pub open spec fn read32(m: Seq<u8>, a: int) -> u32 {
    le32(m[a], m[a + 1], m[a + 2], m[a + 3])
}

/// `m` with `bytes` written starting at `a`.
pub open spec fn write_bytes(m: Seq<u8>, a: int, bytes: Seq<u8>) -> Seq<u8> {
    Seq::new(m.len(), |i: int| if a <= i < a + bytes.len() { bytes[i - a] } else { m[i] })
}

pub open spec fn le_bytes16(v: u16) -> Seq<u8> {
    seq![(v % 256) as u8, (v / 256) as u8]
}

pub open spec fn le_bytes32(v: u32) -> Seq<u8> {
    seq![byte_of(v, 0), byte_of(v, 1), byte_of(v, 2), byte_of(v, 3)]
}

pub proof fn lemma_le32_bytes(v: u32)
    ensures
        le32(byte_of(v, 0), byte_of(v, 1), byte_of(v, 2), byte_of(v, 3)) == v,
{
    let x = v as int;
    assert(x == x % 256 + (x / 0x100) % 256 * 0x100 + (x / 0x1_0000) % 256 * 0x1_0000
        + (x / 0x100_0000) % 256 * 0x100_0000) by (nonlinear_arith)
        requires
            0 <= x < 0x1_0000_0000,
    ;
}

/// Reading back a 16-bit value written little-endian at `a` gives the value.
pub proof fn lemma_read_back16(m: Seq<u8>, a: u32, v: u16)
    requires
        in_bounds(a, 2, m.len()),
    ensures
        read16(write_bytes(m, a as int, le_bytes16(v)), a as int) == v,
{
    let w = write_bytes(m, a as int, le_bytes16(v));
    assert(w[a as int] == (v % 256) as u8);
    assert(w[a + 1] == (v / 256) as u8);
}

/// Reading back a 32-bit value written little-endian at `a` gives the value.
pub proof fn lemma_read_back32(m: Seq<u8>, a: u32, v: u32)
    requires
        in_bounds(a, 4, m.len()),
    ensures
        read32(write_bytes(m, a as int, le_bytes32(v)), a as int) == v,
{
    let w = write_bytes(m, a as int, le_bytes32(v));
    assert(w[a as int] == byte_of(v, 0));
    assert(w[a + 1] == byte_of(v, 1));
    assert(w[a + 2] == byte_of(v, 2));
    assert(w[a + 3] == byte_of(v, 3));
    lemma_le32_bytes(v);
}

/// The message of an access of `len` bytes at `addr` outside a memory of `size` bytes.
pub fn oob_error(addr: u32, len: usize, size: usize) -> (r: String)
    ensures
        r@ == oob_message(addr, len as nat, size as nat),
{
    let mut out: Vec<char> = Vec::new();
    push_lit(&mut out, "Memory access out of bounds: 0x");
    push_hex(&mut out, addr as u64, 8);
    push_lit(&mut out, " + ");
    push_dec(&mut out, len as u64);
    push_lit(&mut out, " > 0x");
    push_hex(&mut out, size as u64, 8);
    string_of(out.as_slice())
}

impl View for Memory {
    type V = Seq<u8>;

    closed spec fn view(&self) -> Seq<u8> {
        self.data@
    }
}

impl Memory {
    /// A zero-filled memory of `size` bytes.
    pub fn new(size: usize) -> (m: Self)
        ensures
            m@ == Seq::new(size as nat, |i: int| 0u8),
    {
        let data = vec![0u8; size];
        assert(data@ =~= Seq::new(size as nat, |i: int| 0u8));
        Memory { data }
    }

    /// A memory holding a copy of `bytes`.
    pub fn from_bytes(bytes: &[u8]) -> (m: Self)
        ensures
            m@ == bytes@,
    {
        let mut data: Vec<u8> = Vec::new();
        let mut i: usize = 0;
        while i < bytes.len()
            invariant
                0 <= i <= bytes.len(),
                data@ =~= bytes@.subrange(0, i as int),
            decreases bytes.len() - i,
        {
            data.push(bytes[i]);
            i = i + 1;
            assert(data@ =~= bytes@.subrange(0, i as int));
        }
        assert(bytes@.subrange(0, bytes@.len() as int) =~= bytes@);
        Memory { data }
    }

    pub fn size(&self) -> (r: usize)
        ensures
            r == self@.len(),
    {
        self.data.len()
    }

    pub fn data(&self) -> (r: &[u8])
        ensures
            r@ == self@,
    {
        self.data.as_slice()
    }

    /// The bytes, for writing in place; the memory keeps its size.
    pub fn data_mut(&mut self) -> (r: &mut [u8])
        ensures
            r@ == old(self)@,
            final(self)@ == final(r)@,
    {
        self.data.as_mut_slice()
    }

    fn check_bounds(&self, addr: u32, len: usize) -> (r: Result<(), String>)
        ensures
            match r {
                Ok(()) => in_bounds(addr, len as nat, self@.len()),
                Err(e) => !in_bounds(addr, len as nat, self@.len())
                    && e@ == oob_message(addr, len as nat, self@.len()),
            },
    {
        let size = self.data.len();
        if (addr as usize) > size || len > size - (addr as usize) {
            Err(oob_error(addr, len, self.data.len()))
        } else {
            Ok(())
        }
    }

    pub fn read_u8(&self, addr: u32) -> (r: Result<u8, String>)
        ensures
            match r {
                Ok(v) => in_bounds(addr, 1, self@.len()) && v == self@[addr as int],
                Err(e) => !in_bounds(addr, 1, self@.len()) && e@ == oob_message(addr, 1, self@.len()),
            },
    {
        match self.check_bounds(addr, 1) {
            Err(e) => { return Err(e); },
            Ok(()) => {},
        }
        let _n = self.data.len();
        Ok(self.data[addr as usize])
    }

    pub fn read_u16_le(&self, addr: u32) -> (r: Result<u16, String>)
        ensures
            match r {
                Ok(v) => in_bounds(addr, 2, self@.len()) && v == read16(self@, addr as int),
                Err(e) => !in_bounds(addr, 2, self@.len()) && e@ == oob_message(addr, 2, self@.len()),
            },
    {
        match self.check_bounds(addr, 2) {
            Err(e) => { return Err(e); },
            Ok(()) => {},
        }
        let _n = self.data.len();
        let a = addr as usize;
        let b0 = self.data[a];
        let b1 = self.data[a + 1];
        Ok((b0 as u16) + (b1 as u16) * 256)
    }

    pub fn read_u32_le(&self, addr: u32) -> (r: Result<u32, String>)
        ensures
            match r {
                Ok(v) => in_bounds(addr, 4, self@.len()) && v == read32(self@, addr as int),
                Err(e) => !in_bounds(addr, 4, self@.len()) && e@ == oob_message(addr, 4, self@.len()),
            },
    {
        match self.check_bounds(addr, 4) {
            Err(e) => { return Err(e); },
            Ok(()) => {},
        }
        let _n = self.data.len();
        let a = addr as usize;
        let b0 = self.data[a] as u32;
        let b1 = self.data[a + 1] as u32;
        let b2 = self.data[a + 2] as u32;
        let b3 = self.data[a + 3] as u32;
        Ok(b0 + b1 * 0x100 + b2 * 0x1_0000 + b3 * 0x100_0000)
    }

    pub fn write_u8(&mut self, addr: u32, value: u8) -> (r: Result<u8, String>)
        ensures
            match r {
                Ok(old_v) => in_bounds(addr, 1, old(self)@.len()) && old_v == old(self)@[addr as int]
                    && final(self)@ == old(self)@.update(addr as int, value),
                Err(e) => !in_bounds(addr, 1, old(self)@.len()) && final(self)@ == old(self)@
                    && e@ == oob_message(addr, 1, old(self)@.len()),
            },
    {
        match self.check_bounds(addr, 1) {
            Err(e) => { return Err(e); },
            Ok(()) => {},
        }
        let _n = self.data.len();
        let a = addr as usize;
        let o = self.data[a];
        self.data.set(a, value);
        Ok(o)
    }

    pub fn write_u16_le(&mut self, addr: u32, value: u16) -> (r: Result<[u8; 2], String>)
        ensures
            match r {
                Ok(o) => in_bounds(addr, 2, old(self)@.len())
                    && o@ == old(self)@.subrange(addr as int, addr + 2)
                    && final(self)@ == write_bytes(old(self)@, addr as int, le_bytes16(value)),
                Err(e) => !in_bounds(addr, 2, old(self)@.len()) && final(self)@ == old(self)@
                    && e@ == oob_message(addr, 2, old(self)@.len()),
            },
    {
        match self.check_bounds(addr, 2) {
            Err(e) => { return Err(e); },
            Ok(()) => {},
        }
        let _n = self.data.len();
        let a = addr as usize;
        let o = [self.data[a], self.data[a + 1]];
        self.data.set(a, (value % 256) as u8);
        self.data.set(a + 1, (value / 256) as u8);
        assert(o@ =~= old(self)@.subrange(addr as int, addr + 2));
        assert(self.data@ =~= write_bytes(old(self)@, addr as int, le_bytes16(value)));
        Ok(o)
    }

    pub fn write_u32_le(&mut self, addr: u32, value: u32) -> (r: Result<[u8; 4], String>)
        ensures
            match r {
                Ok(o) => in_bounds(addr, 4, old(self)@.len())
                    && o@ == old(self)@.subrange(addr as int, addr + 4)
                    && final(self)@ == write_bytes(old(self)@, addr as int, le_bytes32(value)),
                Err(e) => !in_bounds(addr, 4, old(self)@.len()) && final(self)@ == old(self)@
                    && e@ == oob_message(addr, 4, old(self)@.len()),
            },
    {
        match self.check_bounds(addr, 4) {
            Err(e) => { return Err(e); },
            Ok(()) => {},
        }
        let _n = self.data.len();
        let a = addr as usize;
        let o = [self.data[a], self.data[a + 1], self.data[a + 2], self.data[a + 3]];
        self.data.set(a, (value % 0x100) as u8);
        self.data.set(a + 1, ((value / 0x100) % 0x100) as u8);
        self.data.set(a + 2, ((value / 0x1_0000) % 0x100) as u8);
        self.data.set(a + 3, ((value / 0x100_0000) % 0x100) as u8);
        assert(o@ =~= old(self)@.subrange(addr as int, addr + 4));
        assert(self.data@ =~= write_bytes(old(self)@, addr as int, le_bytes32(value)));
        Ok(o)
    }

    /// Copies `bytes` into memory starting at `at_addr`.
    pub fn load_program(&mut self, at_addr: u32, bytes: &[u8]) -> (r: Result<(), String>)
        ensures
            match r {
                Ok(()) => in_bounds(at_addr, bytes@.len(), old(self)@.len())
                    && final(self)@ == write_bytes(old(self)@, at_addr as int, bytes@),
                Err(e) => !in_bounds(at_addr, bytes@.len(), old(self)@.len()) && final(self)@ == old(self)@
                    && e@ == oob_message(at_addr, bytes@.len(), old(self)@.len()),
            },
    {
        match self.check_bounds(at_addr, bytes.len()) {
            Err(e) => { return Err(e); },
            Ok(()) => {},
        }
        let _n = self.data.len();
        let start = at_addr as usize;
        let mut i: usize = 0;
        while i < bytes.len()
            invariant
                0 <= i <= bytes.len(),
                start + bytes@.len() <= self.data@.len(),
                start == at_addr,
                self.data@.len() == old(self)@.len(),
                self.data@.len() <= usize::MAX,
                forall|k: int| 0 <= k < self.data@.len() ==> #[trigger] self.data@[k]
                    == (if start <= k < start + i { bytes@[k - start] } else { old(self)@[k] }),
            decreases bytes.len() - i,
        {
            self.data.set(start + i, bytes[i]);
            i = i + 1;
        }
        assert(self.data@ =~= write_bytes(old(self)@, at_addr as int, bytes@));
        Ok(())
    }
}

} // verus!

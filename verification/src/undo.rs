//! The meaning of an undo log: applying it forward and in reverse to the
//! registers, the program counter and memory, and when a log is a faithful
//! record of a step.
use vstd::prelude::*;
use crate::plugin::{CpuState, UndoEntry};

verus! {

// ---------------------------------------------------------------------------
// One entry
// ---------------------------------------------------------------------------

pub open spec fn reg_fwd(regs: Seq<u32>, e: UndoEntry) -> Seq<u32> {
    match e {
        UndoEntry::RegWrite { reg, new_value, .. } => if reg < regs.len() {
            regs.update(reg as int, new_value)
        } else {
            regs
        },
        _ => regs,
    }
}

pub open spec fn reg_rev(regs: Seq<u32>, e: UndoEntry) -> Seq<u32> {
    match e {
        UndoEntry::RegWrite { reg, old_value, .. } => if reg < regs.len() {
            regs.update(reg as int, old_value)
        } else {
            regs
        },
        _ => regs,
    }
}

pub open spec fn mem_fwd(mem: Seq<u8>, e: UndoEntry) -> Seq<u8> {
    match e {
        UndoEntry::MemWrite { addr, new_value, .. } => if addr < mem.len() {
            mem.update(addr as int, new_value)
        } else {
            mem
        },
        _ => mem,
    }
}

pub open spec fn mem_rev(mem: Seq<u8>, e: UndoEntry) -> Seq<u8> {
    match e {
        UndoEntry::MemWrite { addr, old_value, .. } => if addr < mem.len() {
            mem.update(addr as int, old_value)
        } else {
            mem
        },
        _ => mem,
    }
}

pub open spec fn pc_fwd(pc: u32, e: UndoEntry) -> u32 {
    match e {
        UndoEntry::Pc { new_value, .. } => new_value,
        _ => pc,
    }
}

pub open spec fn pc_rev(pc: u32, e: UndoEntry) -> u32 {
    match e {
        UndoEntry::Pc { old_value, .. } => old_value,
        _ => pc,
    }
}

// ---------------------------------------------------------------------------
// A whole log: forward in order, reverse from the last entry to the first
// ---------------------------------------------------------------------------

pub open spec fn fwd_regs(regs: Seq<u32>, log: Seq<UndoEntry>) -> Seq<u32>
    decreases log.len(),
{
    if log.len() == 0 {
        regs
    } else {
        fwd_regs(reg_fwd(regs, log[0]), log.drop_first())
    }
}

pub open spec fn fwd_mem(mem: Seq<u8>, log: Seq<UndoEntry>) -> Seq<u8>
    decreases log.len(),
{
    if log.len() == 0 {
        mem
    } else {
        fwd_mem(mem_fwd(mem, log[0]), log.drop_first())
    }
}

pub open spec fn fwd_pc(pc: u32, log: Seq<UndoEntry>) -> u32
    decreases log.len(),
{
    if log.len() == 0 {
        pc
    } else {
        fwd_pc(pc_fwd(pc, log[0]), log.drop_first())
    }
}

pub open spec fn rev_regs(regs: Seq<u32>, log: Seq<UndoEntry>) -> Seq<u32>
    decreases log.len(),
{
    if log.len() == 0 {
        regs
    } else {
        reg_rev(rev_regs(regs, log.drop_first()), log[0])
    }
}

pub open spec fn rev_mem(mem: Seq<u8>, log: Seq<UndoEntry>) -> Seq<u8>
    decreases log.len(),
{
    if log.len() == 0 {
        mem
    } else {
        mem_rev(rev_mem(mem, log.drop_first()), log[0])
    }
}

pub open spec fn rev_pc(pc: u32, log: Seq<UndoEntry>) -> u32
    decreases log.len(),
{
    if log.len() == 0 {
        pc
    } else {
        pc_rev(rev_pc(pc, log.drop_first()), log[0])
    }
}

// ---------------------------------------------------------------------------
// Faithful logs: every old value is the value being overwritten
// ---------------------------------------------------------------------------

pub open spec fn faithful_regs(regs: Seq<u32>, log: Seq<UndoEntry>) -> bool
    decreases log.len(),
{
    if log.len() == 0 {
        true
    } else {
        (match log[0] {
            UndoEntry::RegWrite { reg, old_value, .. } => reg < regs.len() ==> regs[reg as int] == old_value,
            _ => true,
        }) && faithful_regs(reg_fwd(regs, log[0]), log.drop_first())
    }
}

pub open spec fn faithful_mem(mem: Seq<u8>, log: Seq<UndoEntry>) -> bool
    decreases log.len(),
{
    if log.len() == 0 {
        true
    } else {
        (match log[0] {
            UndoEntry::MemWrite { addr, old_value, .. } => addr < mem.len() ==> mem[addr as int] == old_value,
            _ => true,
        }) && faithful_mem(mem_fwd(mem, log[0]), log.drop_first())
    }
}

pub open spec fn faithful_pc(pc: u32, log: Seq<UndoEntry>) -> bool
    decreases log.len(),
{
    if log.len() == 0 {
        true
    } else {
        (match log[0] {
            UndoEntry::Pc { old_value, .. } => pc == old_value,
            _ => true,
        }) && faithful_pc(pc_fwd(pc, log[0]), log.drop_first())
    }
}

/// The log records the step's changes with the values they overwrite.
pub open spec fn faithful(regs: Seq<u32>, pc: u32, mem: Seq<u8>, log: Seq<UndoEntry>) -> bool {
    faithful_regs(regs, log) && faithful_pc(pc, log) && faithful_mem(mem, log)
}

/// Applied from `regs` and `pc`, the log leads to the registers and program
/// counter of `new`.
pub open spec fn replays(regs: Seq<u32>, pc: u32, log: Seq<UndoEntry>, new: CpuState) -> bool {
    fwd_regs(regs, log) == new.regs@ && fwd_pc(pc, log) == new.pc
}

/// No entry of the log writes register 0.
pub open spec fn spares_reg0(log: Seq<UndoEntry>) -> bool {
    forall|k: int| 0 <= k < log.len() ==> match #[trigger] log[k] {
        UndoEntry::RegWrite { reg, .. } => reg != 0,
        _ => true,
    }
}

pub open spec fn writes_reg(log: Seq<UndoEntry>, r: int) -> bool
    decreases log.len(),
{
    if log.len() == 0 {
        false
    } else {
        (match log[0] {
            UndoEntry::RegWrite { reg, .. } => reg == r,
            _ => false,
        }) || writes_reg(log.drop_first(), r)
    }
}

pub open spec fn first_old_reg(log: Seq<UndoEntry>, r: int) -> u32
    decreases log.len(),
{
    if log.len() == 0 {
        0
    } else {
        match log[0] {
            UndoEntry::RegWrite { reg, old_value, .. } => if reg == r {
                old_value
            } else {
                first_old_reg(log.drop_first(), r)
            },
            _ => first_old_reg(log.drop_first(), r),
        }
    }
}

pub open spec fn writes_pc(log: Seq<UndoEntry>) -> bool
    decreases log.len(),
{
    if log.len() == 0 {
        false
    } else {
        log[0] is Pc || writes_pc(log.drop_first())
    }
}

pub open spec fn first_old_pc(log: Seq<UndoEntry>) -> u32
    decreases log.len(),
{
    if log.len() == 0 {
        0
    } else {
        match log[0] {
            UndoEntry::Pc { old_value, .. } => old_value,
            _ => first_old_pc(log.drop_first()),
        }
    }
}

// ---------------------------------------------------------------------------
// Lemmas
// ---------------------------------------------------------------------------

proof fn lemma_rev_regs_shape(x: Seq<u32>, log: Seq<UndoEntry>)
    ensures
        rev_regs(x, log).len() == x.len(),
        forall|r: int| 0 <= r < x.len() ==> #[trigger] rev_regs(x, log)[r] == (if writes_reg(log, r) {
            first_old_reg(log, r)
        } else {
            x[r]
        }),
    decreases log.len(),
{
    if log.len() > 0 {
        lemma_rev_regs_shape(x, log.drop_first());
    }
}

proof fn lemma_faithful_first_old(s: Seq<u32>, log: Seq<UndoEntry>, r: int)
    requires
        faithful_regs(s, log),
        0 <= r < s.len(),
        writes_reg(log, r),
    ensures
        first_old_reg(log, r) == s[r],
    decreases log.len(),
{
    let s1 = reg_fwd(s, log[0]);
    match log[0] {
        UndoEntry::RegWrite { reg, .. } => {
            if reg != r {
                lemma_faithful_first_old(s1, log.drop_first(), r);
            }
        },
        _ => {
            lemma_faithful_first_old(s1, log.drop_first(), r);
        },
    }
}

proof fn lemma_rev_pc_shape(p: u32, log: Seq<UndoEntry>)
    ensures
        rev_pc(p, log) == (if writes_pc(log) { first_old_pc(log) } else { p }),
    decreases log.len(),
{
    if log.len() > 0 {
        lemma_rev_pc_shape(p, log.drop_first());
    }
}

proof fn lemma_faithful_first_pc(p: u32, log: Seq<UndoEntry>)
    requires
        faithful_pc(p, log),
        writes_pc(log),
    ensures
        first_old_pc(log) == p,
    decreases log.len(),
{
    if !(log[0] is Pc) {
        lemma_faithful_first_pc(pc_fwd(p, log[0]), log.drop_first());
    }
}

proof fn lemma_mem_roundtrip(m: Seq<u8>, log: Seq<UndoEntry>)
    requires
        faithful_mem(m, log),
    ensures
        rev_mem(fwd_mem(m, log), log) == m,
    decreases log.len(),
{
    if log.len() > 0 {
        let m1 = mem_fwd(m, log[0]);
        lemma_mem_roundtrip(m1, log.drop_first());
        match log[0] {
            UndoEntry::MemWrite { addr, .. } => {
                if addr < m.len() {
                    assert(m1.update(addr as int, m[addr as int]) =~= m);
                }
            },
            _ => {},
        }
    }
}

/// Reversing a faithful log from the state it was recorded on gives that
/// state back: the registers and the program counter by reversal alone,
/// and memory after the forward application.
pub proof fn lemma_undo_roundtrip(regs: Seq<u32>, pc: u32, mem: Seq<u8>, log: Seq<UndoEntry>)
    requires
        faithful(regs, pc, mem, log),
    ensures
        rev_regs(regs, log) == regs,
        rev_pc(pc, log) == pc,
        rev_mem(fwd_mem(mem, log), log) == mem,
{
    lemma_rev_regs_shape(regs, log);
    assert forall|r: int| 0 <= r < regs.len() implies rev_regs(regs, log)[r] == regs[r] by {
        if writes_reg(log, r) {
            lemma_faithful_first_old(regs, log, r);
        }
    }
    assert(rev_regs(regs, log) =~= regs);
    lemma_rev_pc_shape(pc, log);
    if writes_pc(log) {
        lemma_faithful_first_pc(pc, log);
    }
    lemma_mem_roundtrip(mem, log);
}

/// Forward application of a log keeps the length of memory.
pub proof fn lemma_fwd_mem_len(mem: Seq<u8>, log: Seq<UndoEntry>)
    ensures
        fwd_mem(mem, log).len() == mem.len(),
    decreases log.len(),
{
    if log.len() > 0 {
        lemma_fwd_mem_len(mem_fwd(mem, log[0]), log.drop_first());
    }
}

pub proof fn lemma_rev_mem_len(mem: Seq<u8>, log: Seq<UndoEntry>)
    ensures
        rev_mem(mem, log).len() == mem.len(),
    decreases log.len(),
{
    if log.len() > 0 {
        lemma_rev_mem_len(mem, log.drop_first());
    }
}

// ---------------------------------------------------------------------------
// Faithfulness of the common log shapes
// ---------------------------------------------------------------------------

/// Extending a faithful log at the front by an entry that matches the state.
pub proof fn lemma_faithful_cons(regs: Seq<u32>, pc: u32, mem: Seq<u8>, e: UndoEntry, rest: Seq<UndoEntry>)
    requires
        match e {
            UndoEntry::RegWrite { reg, old_value, .. } => reg < regs.len() ==> regs[reg as int] == old_value,
            UndoEntry::MemWrite { addr, old_value, .. } => addr < mem.len() ==> mem[addr as int] == old_value,
            UndoEntry::Pc { old_value, .. } => pc == old_value,
        },
        faithful(reg_fwd(regs, e), pc_fwd(pc, e), mem_fwd(mem, e), rest),
    ensures
        faithful(regs, pc, mem, seq![e] + rest),
{
    let l = seq![e] + rest;
    assert(l[0] == e);
    assert(l.drop_first() =~= rest);
}

/// A log faithful to a register file is faithful to any prefix of it.
pub proof fn lemma_faithful_prefix(regs: Seq<u32>, short: Seq<u32>, pc: u32, mem: Seq<u8>, log: Seq<UndoEntry>)
    requires
        short.len() <= regs.len(),
        forall|i: int| 0 <= i < short.len() ==> short[i] == regs[i],
        faithful(regs, pc, mem, log),
    ensures
        faithful(short, pc, mem, log),
    decreases log.len(),
{
    if log.len() > 0 {
        let e = log[0];
        let r2 = reg_fwd(regs, e);
        let s2 = reg_fwd(short, e);
        assert forall|i: int| 0 <= i < s2.len() implies s2[i] == r2[i] by {}
        lemma_faithful_prefix(r2, s2, pc_fwd(pc, e), mem_fwd(mem, e), log.drop_first());
    }
}

/// `[Pc]`
pub proof fn lemma_faithful_pc(regs: Seq<u32>, pc: u32, mem: Seq<u8>, new_pc: u32)
    ensures
        faithful(regs, pc, mem, seq![UndoEntry::Pc { old_value: pc, new_value: new_pc }]),
{
    let e = UndoEntry::Pc { old_value: pc, new_value: new_pc };
    lemma_faithful_cons(regs, pc, mem, e, Seq::empty());
    assert(seq![e] + Seq::<UndoEntry>::empty() =~= seq![e]);
}

/// `[RegWrite, Pc]`
pub proof fn lemma_faithful_reg_pc(regs: Seq<u32>, pc: u32, mem: Seq<u8>, r: usize, v: u32, new_pc: u32)
    requires
        r < regs.len(),
    ensures
        faithful(regs, pc, mem, seq![
            UndoEntry::RegWrite { reg: r, old_value: regs[r as int], new_value: v },
            UndoEntry::Pc { old_value: pc, new_value: new_pc },
        ]),
{
    let e = UndoEntry::RegWrite { reg: r, old_value: regs[r as int], new_value: v };
    lemma_faithful_pc(regs.update(r as int, v), pc, mem, new_pc);
    lemma_faithful_cons(regs, pc, mem, e, seq![UndoEntry::Pc { old_value: pc, new_value: new_pc }]);
    assert(seq![e] + seq![UndoEntry::Pc { old_value: pc, new_value: new_pc }] =~= seq![e, UndoEntry::Pc { old_value: pc, new_value: new_pc }]);
}

/// `[RegWrite, RegWrite, Pc]` on two different registers.
pub proof fn lemma_faithful_reg2_pc(regs: Seq<u32>, pc: u32, mem: Seq<u8>, r1: usize, v1: u32, r2: usize, v2: u32, new_pc: u32)
    requires
        r1 < regs.len(),
        r2 < regs.len(),
        r1 != r2,
    ensures
        faithful(regs, pc, mem, seq![
            UndoEntry::RegWrite { reg: r1, old_value: regs[r1 as int], new_value: v1 },
            UndoEntry::RegWrite { reg: r2, old_value: regs[r2 as int], new_value: v2 },
            UndoEntry::Pc { old_value: pc, new_value: new_pc },
        ]),
{
    let regs1 = regs.update(r1 as int, v1);
    assert(regs1[r2 as int] == regs[r2 as int]);
    lemma_faithful_reg_pc(regs1, pc, mem, r2, v2, new_pc);
    let e = UndoEntry::RegWrite { reg: r1, old_value: regs[r1 as int], new_value: v1 };
    let rest = seq![
        UndoEntry::RegWrite { reg: r2, old_value: regs[r2 as int], new_value: v2 },
        UndoEntry::Pc { old_value: pc, new_value: new_pc },
    ];
    lemma_faithful_cons(regs, pc, mem, e, rest);
    assert(seq![e] + rest =~= seq![
        e,
        UndoEntry::RegWrite { reg: r2, old_value: regs[r2 as int], new_value: v2 },
        UndoEntry::Pc { old_value: pc, new_value: new_pc },
    ]);
}

/// Memory writes of `bytes` at consecutive addresses from `addr`, each
/// recording the byte it overwrites.
pub open spec fn mem_writes(mem: Seq<u8>, addr: int, bytes: Seq<u8>) -> Seq<UndoEntry> {
    Seq::new(bytes.len(), |i: int| UndoEntry::MemWrite {
        addr: (addr + i) as u32,
        old_value: mem[addr + i],
        new_value: bytes[i],
    })
}

/// `m` with `bytes` written from `a`.
pub open spec fn overwrite(m: Seq<u8>, a: int, bytes: Seq<u8>) -> Seq<u8> {
    Seq::new(m.len(), |i: int| if a <= i < a + bytes.len() { bytes[i - a] } else { m[i] })
}

/// Consecutive memory writes followed by `tail` are faithful when `tail` is
/// faithful on the memory after the writes.
pub proof fn lemma_faithful_mem_writes(regs: Seq<u32>, pc: u32, mem: Seq<u8>, addr: int, bytes: Seq<u8>, tail: Seq<UndoEntry>)
    requires
        0 <= addr,
        addr + bytes.len() <= mem.len(),
        addr + bytes.len() <= 0x1_0000_0000,
        faithful(regs, pc, overwrite(mem, addr, bytes), tail),
    ensures
        faithful(regs, pc, mem, mem_writes(mem, addr, bytes) + tail),
    decreases bytes.len(),
{
    if bytes.len() == 0 {
        assert(overwrite(mem, addr, bytes) =~= mem);
        assert(mem_writes(mem, addr, bytes) + tail =~= tail);
    } else {
        let e = UndoEntry::MemWrite { addr: addr as u32, old_value: mem[addr], new_value: bytes[0] };
        let mem1 = mem.update(addr, bytes[0]);
        let rest = bytes.drop_first();
        assert(overwrite(mem1, addr + 1, rest) =~= overwrite(mem, addr, bytes));
        lemma_faithful_mem_writes(regs, pc, mem1, addr + 1, rest, tail);
        assert(mem_writes(mem1, addr + 1, rest) =~= mem_writes(mem, addr, bytes).drop_first());
        assert(mem_fwd(mem, e) == mem1);
        lemma_faithful_cons(regs, pc, mem, e, mem_writes(mem1, addr + 1, rest) + tail);
        assert(seq![e] + (mem_writes(mem1, addr + 1, rest) + tail) =~= mem_writes(mem, addr, bytes) + tail);
    }
}

} // verus!

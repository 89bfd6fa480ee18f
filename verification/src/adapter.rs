//! Per-architecture configuration and the list of architecture names the
//! front end offers.
use vstd::prelude::*;
use crate::text::{chars_of, to_upper, eq_lit};

verus! {

/// Configuration of one architecture.
#[derive(Debug, Clone)]
pub struct ArchitectureConfig {
    /// Default memory size in bytes.
    pub default_memory_size: usize,
    /// Default entry point label (e.g. "_start", "main").
    pub default_entry_label: &'static str,
}

impl Default for ArchitectureConfig {
    fn default() -> (r: Self)
        ensures
            r.default_memory_size == 64 * 1024,
            r.default_entry_label@ == "_start"@,
    {
        ArchitectureConfig { default_memory_size: 64 * 1024, default_entry_label: "_start" }
    }
}

/// The configuration of an architecture, named in any case: 64 KiB of
/// memory and `_start` as entry label, for every architecture.
pub fn arch_config(arch: &str) -> (c: ArchitectureConfig)
    ensures
        c.default_memory_size == 64 * 1024,
        c.default_entry_label@ == "_start"@,
{
    let cs = chars_of(arch);
    let u = to_upper(cs.as_slice());
    if eq_lit(u.as_slice(), "LC3") {
        ArchitectureConfig { default_memory_size: 64 * 1024, default_entry_label: "_start" }
    } else if eq_lit(u.as_slice(), "MIPS") {
        ArchitectureConfig { default_memory_size: 64 * 1024, default_entry_label: "_start" }
    } else if eq_lit(u.as_slice(), "RV32I") || eq_lit(u.as_slice(), "RISC-V") {
        ArchitectureConfig { default_memory_size: 64 * 1024, default_entry_label: "_start" }
    } else {
        ArchitectureConfig::default()
    }
}

/// The names of the architectures offered for selection.
pub fn supported_architectures() -> (r: &'static [&'static str])
    ensures
        r@.len() == 3,
        r@[0]@ == "RV32I"@,
        r@[1]@ == "LC3"@,
        r@[2]@ == "MIPS"@,
{
    let a: &'static [&'static str] = &["RV32I", "LC3", "MIPS"];
    a
}

} // verus!

//! The project file of the simulator: architecture, source, memory size,
//! breakpoints, entry label, speed and cycle limit.
use vstd::prelude::*;
use crate::text::lit_string;

verus! {

pub struct AsimFile {
    pub version: u32,
    pub arch: String,
    pub source: String,
    pub memory_size: usize,
    pub breakpoints: Vec<u32>,
    pub entry_point: Option<String>,
    pub speed: u32,
    pub max_cycle_limit: Option<u64>,
}

/// The memory size of a file that names none: 64 KiB.
pub fn default_memory_size() -> (r: usize)
    ensures
        r == 64 * 1024,
{
    64 * 1024
}

/// The speed of a file that names none.
pub fn default_speed() -> (r: u32)
    ensures
        r == 100,
{
    100
}

impl AsimFile {
    pub const VERSION: u32 = 1;

    pub const EXTENSION: &'static str = "asim";

    /// A file of the current version with entry label `_start`.
    pub fn new(arch: &str, source: String, memory_size: usize, breakpoints: Vec<u32>, speed: u32, max_cycle_limit: Option<u64>) -> (f: Self)
        ensures
            f.version == 1,
            f.arch@ == arch@,
            f.source == source,
            f.memory_size == memory_size,
            f.breakpoints == breakpoints,
            f.entry_point matches Some(e) && e@ == "_start"@,
            f.speed == speed,
            f.max_cycle_limit == max_cycle_limit,
    {
        AsimFile {
            version: Self::VERSION,
            arch: lit_string(arch),
            source,
            memory_size,
            breakpoints,
            entry_point: Some(lit_string("_start")),
            speed,
            max_cycle_limit,
        }
    }
}

} // verus!

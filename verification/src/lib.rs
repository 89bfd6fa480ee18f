pub mod text;
pub mod fmt;
pub mod memory;
pub mod plugin;
pub mod undo;
pub mod effects;
pub mod lc3;
pub mod i8085;
pub mod i8085_asm;
pub mod i6502;
pub mod i6502_asm;
pub mod i8086;
pub mod i8086_asm;
pub mod rv32i;
pub mod rv32i_asm;
pub mod mips;
pub mod mips_asm;
pub mod lc3_asm;
pub mod labels;
pub mod asmutil;
pub mod scan;
pub mod arch;
pub mod simulator;
pub mod commands;
pub mod adapter;
pub mod asim;

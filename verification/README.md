# asm_sim

An educational assembly simulator for six instruction sets (RV32I, MIPS,
LC-3, Intel 8085, MOS 6502 and Intel 8086), written in Verus: every
assembler, every instruction step and the simulator around them carry
contracts that Verus proves.

## Layout

- `src/text.rs`, `src/fmt.rs`: character sequences, parsing of numbers and
  tokens, and the builders of messages, each with its specification.
- `src/memory.rs`: byte-addressed memory with little-endian reads and writes.
- `src/plugin.rs`, `src/effects.rs`, `src/undo.rs`: the shared vocabulary of
  a step (CPU state, trace events, pipeline cycles, the undo log) and what it
  means for a log to be faithful to a step.
- `src/lc3.rs`, `src/i8085.rs`, `src/i6502.rs`, `src/i8086.rs`,
  `src/rv32i.rs`, `src/mips.rs`: one instruction step of each architecture,
  specified against a mathematical model of the instruction set.
- `src/*_asm.rs`, `src/scan.rs`, `src/labels.rs`, `src/asmutil.rs`: the
  two-pass assemblers; each `assemble` is specified as a first pass over the
  source lines followed by the patching of label operands.
- `src/arch.rs`: selection of an architecture by name and dispatch.
- `src/simulator.rs`, `src/commands.rs`: the simulator (stepping, stepping
  back, breakpoints, reset, I/O) and the requests of the front end, with the
  law that stepping back undoes a step.
- `src/adapter.rs`, `src/asim.rs`: architecture configuration and the saved
  project file.
- `app/`: the desktop-side glue that Verus does not see: serialisation,
  the command handlers around one shared simulator, and the diagram layouts.
- `tests/`: executable tests of the library.

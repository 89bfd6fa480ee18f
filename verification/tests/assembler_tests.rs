use asm_sim::i8085::I8085Plugin;
use asm_sim::i8086::I8086Plugin;
use asm_sim::lc3::Lc3Plugin;
use asm_sim::mips::MipsPlugin;
use asm_sim::rv32i::Rv32iPlugin;

#[test]
fn lc3_stops_at_end_directive() {
    let img = Lc3Plugin::new().assemble(".ORIG x3000\n_start: ADD R0, R0, #1\n.END\nADD R1, R1, #1\n");
    assert!(img.errors.is_empty(), "errors: {:?}", img.errors);
    assert_eq!(img.bytes, vec![0x21, 0x10]);
    assert_eq!(img.entry_pc, 0x3000);
    assert_eq!(img.source_map.len(), 1);
    assert_eq!(img.source_map[0].pc, 0x3000);
    assert_eq!(img.source_map[0].line, 2);
    assert_eq!(img.source_map[0].column, 1);
}

#[test]
fn lc3_entry_is_origin_without_start_label() {
    let img = Lc3Plugin::new().assemble(".ORIG x4000\nADD R0, R0, #1\n");
    assert!(img.errors.is_empty(), "errors: {:?}", img.errors);
    assert_eq!(img.entry_pc, 0x4000);
    assert_eq!(img.source_map[0].pc, 0x4000);
}

#[test]
fn lc3_unknown_label_is_reported_at_its_line() {
    let img = Lc3Plugin::new().assemble(".ORIG x3000\nBRnzp nowhere\n");
    assert_eq!(img.errors.len(), 1);
    assert_eq!(img.errors[0].line, 2);
    assert_eq!(img.errors[0].column, 1);
    assert_eq!(img.errors[0].message, "Unknown label: nowhere");
}

#[test]
fn lc3_branch_out_of_range_is_reported() {
    let img = Lc3Plugin::new().assemble(".ORIG x3000\nBRnzp far\n.BLKW 300\nfar: NOP\n");
    assert_eq!(img.errors.len(), 1);
    assert_eq!(img.errors[0].line, 2);
    assert_eq!(img.errors[0].message, "Label 'far' out of range for PCoffset9");
    assert_eq!(img.bytes.len(), 604);
    assert_eq!(img.bytes[0], 0x00);
    assert_eq!(img.bytes[1], 0x0E);
}

#[test]
fn i8085_start_away_from_origin_is_reported() {
    let img = I8085Plugin::new().assemble(".ORG 0x100\nNOP\n_start: HLT\n");
    assert_eq!(img.entry_pc, 0x101);
    assert_eq!(img.bytes, vec![0x00, 0x76]);
    assert_eq!(img.errors.len(), 1);
    assert_eq!(img.errors[0].line, 0);
    assert_eq!(
        img.errors[0].message,
        "_start label (0x0101) differs from .ORG origin (0x0100); simulator loads+starts at entry_pc only"
    );
}

#[test]
fn mips_entry_is_main_without_start_label() {
    let img = MipsPlugin::new().assemble("add $t0, $t1, $t2\nmain: add $t0, $t1, $t2\n");
    assert!(img.errors.is_empty(), "errors: {:?}", img.errors);
    assert_eq!(img.entry_pc, 4);
    let img = MipsPlugin::new().assemble("_start: add $t0, $t1, $t2\nmain: add $t0, $t1, $t2\n");
    assert_eq!(img.entry_pc, 0);
}

#[test]
fn mips_unknown_label_is_reported() {
    let img = MipsPlugin::new().assemble("j nowhere\n");
    assert_eq!(img.errors.len(), 1);
    assert_eq!(img.errors[0].line, 1);
    assert_eq!(img.errors[0].message, "Unknown label: nowhere");
}

#[test]
fn rv32i_unknown_label_is_reported() {
    let img = Rv32iPlugin::new().assemble("nop\nj nowhere\n");
    assert_eq!(img.errors.len(), 1);
    assert_eq!(img.errors[0].line, 2);
    assert_eq!(img.errors[0].message, "Unknown label: nowhere");
    assert_eq!(img.bytes.len(), 8);
    assert_eq!(img.entry_pc, 0);
}

#[test]
fn i8086_unknown_label_is_reported_at_line_zero() {
    let img = I8086Plugin::new().assemble("JMP nowhere\n");
    assert_eq!(img.errors.len(), 1);
    assert_eq!(img.errors[0].line, 0);
    assert_eq!(img.errors[0].message, "Unknown label: nowhere");
}

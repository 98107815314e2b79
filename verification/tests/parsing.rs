//! Tests for the fixed-offset header parser.

use nds::parser::{Cpu, NDSParser, NDSParserError, Table};

/// A parseable buffer with readable titles and patterned numeric fields.
fn sample() -> Vec<u8> {
    let mut content = vec![0u8; 0x181];
    content[0..0x0c].copy_from_slice(b"HELLO WORLD ");
    content[0x0c..0x10].copy_from_slice(b"WXYZ");
    content[0x10..0x12].copy_from_slice(b"01");
    content[0x12] = 3; // unitcode
    content[0x13] = 4; // encryption seed select
    content[0x14] = 5; // device capacity
    content[0x1c..0x1e].copy_from_slice(&0x0102u16.to_le_bytes());
    content[0x1e] = 6; // version
    content[0x1f] = 7; // flags
    content[0x20..0x24].copy_from_slice(&0x4000u32.to_le_bytes());
    content[0x2c..0x30].copy_from_slice(&0x1234u32.to_le_bytes());
    content[0x30..0x34].copy_from_slice(&0x8000u32.to_le_bytes());
    content[0x40..0x44].copy_from_slice(&0x9000u32.to_le_bytes());
    content[0x44..0x48].copy_from_slice(&0x42u32.to_le_bytes());
    content[0x48..0x4c].copy_from_slice(&0xA000u32.to_le_bytes());
    content[0x4c..0x50].copy_from_slice(&0x18u32.to_le_bytes());
    content[0x70..0x74].copy_from_slice(&0xCAFE00u32.to_le_bytes());
    content[0x78..0x80].copy_from_slice(&0x1122334455667788u64.to_le_bytes());
    content[0x84..0x88].copy_from_slice(&0x200u32.to_le_bytes());
    for (i, b) in content[0xc0..0x15c].iter_mut().enumerate() {
        *b = (i % 251) as u8;
    }
    content[0x15c..0x15e].copy_from_slice(&0x9A9Bu16.to_le_bytes());
    content[0x15e..0x160].copy_from_slice(&0x8C8Du16.to_le_bytes());
    for (i, b) in content[0x160..0x180].iter_mut().enumerate() {
        *b = 0x30 + i as u8;
    }
    content
}

#[test]
fn parse_patterned_buffer() {
    let content = sample();
    let p = NDSParser::try_from(&content).expect("buffer parses");
    assert_eq!(p.game_title, "HELLO WORLD");
    assert_eq!(p.gamecode, "WXYZ");
    assert_eq!(p.makercode, "01");
    assert_eq!(p.unitcode, 3);
    assert_eq!(p.encryption_seed_select, 4);
    assert_eq!(p.devicecapacity, 5);
    assert_eq!(p.game_revision, 0x0102);
    assert_eq!(p.rom_version, 6);
    assert_eq!(p.internal_flags, 7);
    assert_eq!(p.arm9.rom_offset, 0x4000);
    assert_eq!(p.arm9.size, 0x1234);
    assert_eq!(p.arm9.autoload, 0xCAFE00);
    assert_eq!(p.arm7.rom_offset, 0x8000);
    assert_eq!(p.fnt, Table { offset: 0x9000, length: 0x42 });
    assert_eq!(p.fat, Table { offset: 0xA000, length: 0x18 });
    assert_eq!(p.secure_diable, 0x1122334455667788);
    assert_eq!(p.header_size, 0x200);
    assert_eq!(p.nintendo_logo, content[0xc0..0x15c].to_vec());
    assert_eq!(p.nintendo_logo_crc, 0x9A9B);
    assert_eq!(p.header_crc, 0x8C8D);
    assert_eq!(p.debugger, content[0x160..0x180].to_vec());
}

#[test]
fn parser_rejects_short_buffers() {
    let content = vec![0u8; 0x180];
    assert_eq!(
        NDSParser::try_from(&content).unwrap_err(),
        NDSParserError::NotEnoughData
    );
    assert_eq!(
        NDSParser::try_from(&Vec::new()).unwrap_err(),
        NDSParserError::NotEnoughData
    );
}

#[test]
fn parser_rejects_invalid_title_bytes() {
    let mut content = sample();
    content[0x03] = 0xFF;
    assert_eq!(
        NDSParser::try_from(&content).unwrap_err(),
        NDSParserError::StringFromUTF8
    );
    let mut bad_code = sample();
    bad_code[0x0d] = 0xC0; // a lone leading byte is not valid UTF-8
    assert_eq!(
        NDSParser::try_from(&bad_code).unwrap_err(),
        NDSParserError::StringFromUTF8
    );
}

#[test]
fn parser_defaults_are_zeroed() {
    let p = NDSParser::default();
    assert_eq!(p.game_title, "");
    assert_eq!(p.gamecode, "");
    assert_eq!(p.makercode, "");
    assert_eq!(p.unitcode, 0);
    assert_eq!(p.arm9, Cpu::default());
    assert_eq!(p.arm7, Cpu::default());
    assert_eq!(p.fnt, Table::default());
    assert_eq!(p.fat, Table::default());
    assert_eq!(p.nintendo_logo, vec![0u8; 156]);
    assert_eq!(p.debugger, vec![0u8; 32]);
}

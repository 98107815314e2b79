//! Tests for the fixed-layout boot header record.

use nds::extract::ExtractError;
use nds::header::info::Info;
use nds::header::offset::Offset;
use nds::header::rom::InnerRom;
use nds::header::Header;

/// A 0x180-byte buffer with a distinct value at every offset.
fn patterned() -> Vec<u8> {
    (0..0x180u32).map(|i| (i.wrapping_mul(7) % 251) as u8).collect()
}

fn u32_at(data: &[u8], at: usize) -> u32 {
    u32::from_le_bytes(data[at..at + 4].try_into().unwrap())
}

fn u16_at(data: &[u8], at: usize) -> u16 {
    u16::from_le_bytes(data[at..at + 2].try_into().unwrap())
}

#[test]
fn header_decodes_fields_at_their_offsets() {
    let data = patterned();
    let h = Header::new(&data).expect("buffer is long enough");
    assert_eq!(h.game_info.title, data[0..0x0c].to_vec());
    assert_eq!(h.game_info.gamecode, u32_at(&data, 0x0c));
    assert_eq!(h.game_info.makercode, u16_at(&data, 0x10));
    assert_eq!(h.game_info.unitcode, data[0x12]);
    assert_eq!(h.encrypt_seed, data[0x13]);
    assert_eq!(h.capacity, data[0x14]);
    assert_eq!(h.reserved1, data[0x15..0x1c].to_vec());
    assert_eq!(h.revision, u16_at(&data, 0x1c));
    assert_eq!(h.arm9_rom.offset, u32_at(&data, 0x20));
    assert_eq!(h.arm9_rom.size, u32_at(&data, 0x2c));
    assert_eq!(h.arm7_rom.offset, u32_at(&data, 0x30));
    assert_eq!(h.file_name_table.offset, u32_at(&data, 0x40));
    assert_eq!(h.file_name_table.length, u32_at(&data, 0x44));
    assert_eq!(h.file_alloc_table.offset, u32_at(&data, 0x48));
    assert_eq!(h.secure_disable, u64::from_le_bytes(data[0x78..0x80].try_into().unwrap()));
    assert_eq!(h.header_size, u32_at(&data, 0x84));
    assert_eq!(h.logo, data[0xc0..0x15c].to_vec());
    assert_eq!(h.logo_crc, u16_at(&data, 0x15c));
    assert_eq!(h.header_crc, u16_at(&data, 0x15e));
    assert_eq!(h.debugger_reserved, data[0x160..0x180].to_vec());
}

#[test]
fn header_round_trips_byte_exact() {
    let data = patterned();
    let h = Header::new(&data).unwrap();
    let mut out = Vec::new();
    h.write(&mut out);
    assert_eq!(out, data);
}

#[test]
fn header_rejects_short_buffers() {
    assert_eq!(Header::new(&[]).unwrap_err(), ExtractError::NotEnoughData);
    assert_eq!(
        Header::new(&vec![0u8; 0x17F]).unwrap_err(),
        ExtractError::NotEnoughData
    );
}

#[test]
fn header_sub_records_round_trip() {
    let data = patterned();
    let info = Info::new(&data, 0x10);
    let mut out = Vec::new();
    info.write(&mut out);
    assert_eq!(out, data[0x10..0x23].to_vec());

    let offset = Offset::new(&data, 0x28);
    let mut out = Vec::new();
    offset.write(&mut out);
    assert_eq!(out, data[0x28..0x30].to_vec());

    let rom = InnerRom::new(&data, 0x34);
    let mut out = Vec::new();
    rom.write(&mut out);
    assert_eq!(out, data[0x34..0x44].to_vec());
}

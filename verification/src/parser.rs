//! Parses the fixed-offset fields of an image's first `0x181` bytes into a
//! flat record: title strings, processor metadata, table locations, and the
//! trailing checksums.  Every numeric field is little-endian; the three
//! title strings are UTF-8 with surrounding whitespace trimmed.

use vstd::prelude::*;

use vstd::utf8::{decode_utf8, valid_utf8};

use crate::bytes::{le16, le32, le64};
use crate::text::{decode_name, spec_trim, trim_chars};

verus! {

/// The smallest buffer this parser accepts.
pub const PARSE_MIN_LEN: usize = 0x181;

/// Why parsing a header buffer failed.
#[derive(Clone, Copy, Debug, Eq, PartialEq, Structural)]
pub enum NDSParserError {
    /// Reading the underlying file failed before parsing began.
    IO,
    /// A title field does not hold valid UTF-8.
    StringFromUTF8,
    /// The buffer is shorter than the parsed region.
    NotEnoughData,
}

/// The per-processor fields of the header.
#[derive(Clone, Copy, Debug, Eq, PartialEq, Structural)]
pub struct Cpu {
    pub rom_offset: u32,
    pub entry_address: u32,
    pub load_address: u32,
    pub size: u32,
    pub overlay_offset: u32,
    pub overlay_length: u32,
    pub autoload: u32,
}

impl Default for Cpu {
    /// All fields zero.
    fn default() -> (r: Self)
        ensures
            r == (Cpu {
                rom_offset: 0,
                entry_address: 0,
                load_address: 0,
                size: 0,
                overlay_offset: 0,
                overlay_length: 0,
                autoload: 0,
            }),
    {
        Cpu {
            rom_offset: 0,
            entry_address: 0,
            load_address: 0,
            size: 0,
            overlay_offset: 0,
            overlay_length: 0,
            autoload: 0,
        }
    }
}

/// Where one of the two filesystem tables sits in the image.
#[derive(Clone, Copy, Debug, Eq, PartialEq, Structural)]
pub struct Table {
    pub offset: u32,
    pub length: u32,
}

impl Default for Table {
    /// Both fields zero.
    fn default() -> (r: Self)
        ensures
            r == (Table { offset: 0, length: 0 }),
    {
        Table { offset: 0, length: 0 }
    }
}

/// The parsed fixed-offset header fields of an image.
#[derive(Clone, Debug, Eq, PartialEq)]
pub struct NDSParser {
    pub game_title: String,
    pub gamecode: String,
    pub makercode: String,
    pub unitcode: u8,
    pub encryption_seed_select: u8,
    pub devicecapacity: u8,
    pub game_revision: u16,
    pub rom_version: u8,
    pub internal_flags: u8,
    pub arm9: Cpu,
    pub arm7: Cpu,
    pub fnt: Table,
    pub fat: Table,
    pub normal_card_control_register_settings: u32,
    pub secure_card_control_register_settings: u32,
    pub icon_banner_offset: u32,
    pub secure_area: u16,
    pub secure_transfer_timeout: u16,
    pub secure_diable: u64,
    pub ntr_region_rom_size: u32,
    pub header_size: u32,
    pub nintendo_logo: Vec<u8>,
    pub nintendo_logo_crc: u16,
    pub header_crc: u16,
    pub debugger: Vec<u8>,
}

impl Default for NDSParser {
    /// Empty strings, zeroed fields, and zeroed logo and debugger blocks.
    fn default() -> (r: Self)
        ensures
            r.game_title@ == Seq::<char>::empty(),
            r.gamecode@ == Seq::<char>::empty(),
            r.makercode@ == Seq::<char>::empty(),
            r.unitcode == 0,
            r.encryption_seed_select == 0,
            r.devicecapacity == 0,
            r.game_revision == 0,
            r.rom_version == 0,
            r.internal_flags == 0,
            r.arm9 == (Cpu {
                rom_offset: 0,
                entry_address: 0,
                load_address: 0,
                size: 0,
                overlay_offset: 0,
                overlay_length: 0,
                autoload: 0,
            }),
            r.arm7 == r.arm9,
            r.fnt == (Table { offset: 0, length: 0 }),
            r.fat == r.fnt,
            r.normal_card_control_register_settings == 0,
            r.secure_card_control_register_settings == 0,
            r.icon_banner_offset == 0,
            r.secure_area == 0,
            r.secure_transfer_timeout == 0,
            r.secure_diable == 0,
            r.ntr_region_rom_size == 0,
            r.header_size == 0,
            r.nintendo_logo@ == Seq::new(156, |i: int| 0u8),
            r.nintendo_logo_crc == 0,
            r.header_crc == 0,
            r.debugger@ == Seq::new(32, |i: int| 0u8),
    {
        let nintendo_logo = zero_block(156);
        let debugger = zero_block(32);
        NDSParser {
            game_title: String::new(),
            gamecode: String::new(),
            makercode: String::new(),
            unitcode: 0,
            encryption_seed_select: 0,
            devicecapacity: 0,
            game_revision: 0,
            rom_version: 0,
            internal_flags: 0,
            arm9: Cpu::default(),
            arm7: Cpu::default(),
            fnt: Table::default(),
            fat: Table::default(),
            normal_card_control_register_settings: 0,
            secure_card_control_register_settings: 0,
            icon_banner_offset: 0,
            secure_area: 0,
            secure_transfer_timeout: 0,
            secure_diable: 0,
            ntr_region_rom_size: 0,
            header_size: 0,
            nintendo_logo,
            nintendo_logo_crc: 0,
            header_crc: 0,
            debugger,
        }
    }
}

/// A block of `n` zero bytes.
fn zero_block(n: usize) -> (r: Vec<u8>)
    ensures
        r@ == Seq::new(n as nat, |i: int| 0u8),
{
    let mut out: Vec<u8> = Vec::new();
    let mut i: usize = 0;
    while i < n
        invariant
            i <= n,
            out@ =~= Seq::new(i as nat, |k: int| 0u8),
        decreases n - i,
    {
        out.push(0);
        proof {
            assert(out@ =~= Seq::new(i as nat + 1, |k: int| 0u8));
        }
        i = i + 1;
    }
    out
}

/// The raw bytes of the three title fields of `content`.
pub open spec fn spec_title_bytes(content: Seq<u8>) -> Seq<u8> {
    content.subrange(0, 0x0c)
}

/// The raw bytes of the game-code field of `content`.
pub open spec fn spec_gamecode_bytes(content: Seq<u8>) -> Seq<u8> {
    content.subrange(0x0c, 0x10)
}

/// The raw bytes of the maker-code field of `content`.
pub open spec fn spec_makercode_bytes(content: Seq<u8>) -> Seq<u8> {
    content.subrange(0x10, 0x12)
}

impl NDSParser {
    /// Parses the fixed-offset fields of `content`.  Fails exactly when
    /// the buffer is shorter than `0x181` bytes, or when one of the three
    /// title fields is not valid UTF-8; on success every field is the
    /// value stored at its offset, with the titles decoded and trimmed.
    pub fn try_from(content: &Vec<u8>) -> (r: Result<Self, NDSParserError>)
        ensures
            content@.len() < PARSE_MIN_LEN ==> r == Err::<Self, NDSParserError>(
                NDSParserError::NotEnoughData,
            ),
            content@.len() >= PARSE_MIN_LEN ==> (r is Ok <==> valid_utf8(
                spec_title_bytes(content@),
            ) && valid_utf8(spec_gamecode_bytes(content@)) && valid_utf8(
                spec_makercode_bytes(content@),
            )),
            content@.len() >= PARSE_MIN_LEN && r is Err ==> r == Err::<Self, NDSParserError>(
                NDSParserError::StringFromUTF8,
            ),
            r is Ok ==> {
                let p = r.unwrap();
                &&& p.game_title@ == spec_trim(decode_utf8(spec_title_bytes(content@)))
                &&& p.gamecode@ == spec_trim(decode_utf8(spec_gamecode_bytes(content@)))
                &&& p.makercode@ == spec_trim(decode_utf8(spec_makercode_bytes(content@)))
                &&& p.unitcode == content@[0x12]
                &&& p.encryption_seed_select == content@[0x13]
                &&& p.devicecapacity == content@[0x14]
                &&& p.game_revision == le16(content@, 0x1c)
                &&& p.rom_version == content@[0x1e]
                &&& p.internal_flags == content@[0x1f]
                &&& p.arm9 == (Cpu {
                    rom_offset: le32(content@, 0x20),
                    entry_address: le32(content@, 0x24),
                    load_address: le32(content@, 0x28),
                    size: le32(content@, 0x2c),
                    overlay_offset: le32(content@, 0x50),
                    overlay_length: le32(content@, 0x54),
                    autoload: le32(content@, 0x70),
                })
                &&& p.arm7 == (Cpu {
                    rom_offset: le32(content@, 0x30),
                    entry_address: le32(content@, 0x34),
                    load_address: le32(content@, 0x38),
                    size: le32(content@, 0x3c),
                    overlay_offset: le32(content@, 0x58),
                    overlay_length: le32(content@, 0x5c),
                    autoload: le32(content@, 0x74),
                })
                &&& p.fnt == (Table { offset: le32(content@, 0x40), length: le32(content@, 0x44) })
                &&& p.fat == (Table { offset: le32(content@, 0x48), length: le32(content@, 0x4c) })
                &&& p.normal_card_control_register_settings == le32(content@, 0x60)
                &&& p.secure_card_control_register_settings == le32(content@, 0x64)
                &&& p.icon_banner_offset == le32(content@, 0x68)
                &&& p.secure_area == le16(content@, 0x6c)
                &&& p.secure_transfer_timeout == le16(content@, 0x6e)
                &&& p.secure_diable == le64(content@, 0x78)
                &&& p.ntr_region_rom_size == le32(content@, 0x80)
                &&& p.header_size == le32(content@, 0x84)
                &&& p.nintendo_logo@ == content@.subrange(0xc0, 0x15c)
                &&& p.nintendo_logo_crc == le16(content@, 0x15c)
                &&& p.header_crc == le16(content@, 0x15e)
                &&& p.debugger@ == content@.subrange(0x160, 0x180)
            },
    {
        if content.len() < PARSE_MIN_LEN {
            return Err(NDSParserError::NotEnoughData);
        }
        let data = content.as_slice();
        let title_bytes = vstd::slice::slice_to_vec(vstd::slice::slice_subrange(data, 0, 0x0c));
        let game_title = match decode_name(title_bytes) {
            Some(s) => trim_chars(s.as_str()),
            None => {
                return Err(NDSParserError::StringFromUTF8);
            },
        };
        let gamecode_bytes = vstd::slice::slice_to_vec(
            vstd::slice::slice_subrange(data, 0x0c, 0x10),
        );
        let gamecode = match decode_name(gamecode_bytes) {
            Some(s) => trim_chars(s.as_str()),
            None => {
                return Err(NDSParserError::StringFromUTF8);
            },
        };
        let makercode_bytes = vstd::slice::slice_to_vec(
            vstd::slice::slice_subrange(data, 0x10, 0x12),
        );
        let makercode = match decode_name(makercode_bytes) {
            Some(s) => trim_chars(s.as_str()),
            None => {
                return Err(NDSParserError::StringFromUTF8);
            },
        };
        let arm9 = Cpu {
            rom_offset: crate::bytes::read_le32(data, 0x20),
            entry_address: crate::bytes::read_le32(data, 0x24),
            load_address: crate::bytes::read_le32(data, 0x28),
            size: crate::bytes::read_le32(data, 0x2c),
            overlay_offset: crate::bytes::read_le32(data, 0x50),
            overlay_length: crate::bytes::read_le32(data, 0x54),
            autoload: crate::bytes::read_le32(data, 0x70),
        };
        let arm7 = Cpu {
            rom_offset: crate::bytes::read_le32(data, 0x30),
            entry_address: crate::bytes::read_le32(data, 0x34),
            load_address: crate::bytes::read_le32(data, 0x38),
            size: crate::bytes::read_le32(data, 0x3c),
            overlay_offset: crate::bytes::read_le32(data, 0x58),
            overlay_length: crate::bytes::read_le32(data, 0x5c),
            autoload: crate::bytes::read_le32(data, 0x74),
        };
        let fnt = Table {
            offset: crate::bytes::read_le32(data, 0x40),
            length: crate::bytes::read_le32(data, 0x44),
        };
        let fat = Table {
            offset: crate::bytes::read_le32(data, 0x48),
            length: crate::bytes::read_le32(data, 0x4c),
        };
        let nintendo_logo = vstd::slice::slice_to_vec(
            vstd::slice::slice_subrange(data, 0xc0, 0x15c),
        );
        let debugger = vstd::slice::slice_to_vec(vstd::slice::slice_subrange(data, 0x160, 0x180));
        Ok(NDSParser {
            game_title,
            gamecode,
            makercode,
            unitcode: data[0x12],
            encryption_seed_select: data[0x13],
            devicecapacity: data[0x14],
            game_revision: crate::bytes::read_le16(data, 0x1c),
            rom_version: data[0x1e],
            internal_flags: data[0x1f],
            arm9,
            arm7,
            fnt,
            fat,
            normal_card_control_register_settings: crate::bytes::read_le32(data, 0x60),
            secure_card_control_register_settings: crate::bytes::read_le32(data, 0x64),
            icon_banner_offset: crate::bytes::read_le32(data, 0x68),
            secure_area: crate::bytes::read_le16(data, 0x6c),
            secure_transfer_timeout: crate::bytes::read_le16(data, 0x6e),
            secure_diable: crate::bytes::read_le64(data, 0x78),
            ntr_region_rom_size: crate::bytes::read_le32(data, 0x80),
            header_size: crate::bytes::read_le32(data, 0x84),
            nintendo_logo,
            nintendo_logo_crc: crate::bytes::read_le16(data, 0x15c),
            header_crc: crate::bytes::read_le16(data, 0x15e),
            debugger,
        })
    }
}

} // verus!

//! The fixed-layout boot header: a flat record of fields read and written
//! at fixed offsets, little-endian throughout.

pub mod info;
pub mod offset;
pub mod rom;

use vstd::prelude::*;

use crate::bytes::{le16, le16_bytes, le32, le32_bytes, le64, le64_bytes};
use crate::extract::ExtractError;
use crate::header::info::{spec_info_bytes, Info};
use crate::header::offset::{spec_offset_bytes, Offset};
use crate::header::rom::{spec_rom_bytes, InnerRom};

verus! {

/// Total size in bytes of the serialized boot header.
pub const HEADER_BYTES: usize = 0x180;

/// Appends every byte of `v` to `out`.
pub fn push_bytes(out: &mut Vec<u8>, v: &Vec<u8>)
    ensures
        final(out)@ == old(out)@ + v@,
{
    let n = v.len();
    let mut i: usize = 0;
    while i < n
        invariant
            n == v@.len(),
            i <= n,
            out@ == old(out)@ + v@.take(i as int),
        decreases n - i,
    {
        out.push(v[i]);
        proof {
            assert(out@ =~= old(out)@ + v@.take(i as int + 1));
        }
        i = i + 1;
    }
    proof {
        assert(v@.take(n as int) =~= v@);
    }
}

/// The whole decoded boot header.  Every field sits at a fixed offset of
/// the serialized form; none of them drives any algorithm here beyond the
/// extraction ranges, which the extraction planner reads for itself.
#[derive(Clone, Debug, Default, Eq, PartialEq, Ord, PartialOrd, Hash)]
pub struct Header {
    pub game_info: Info,
    pub encrypt_seed: u8,
    pub capacity: u8,
    pub reserved1: Vec<u8>,
    pub revision: u16,
    pub rom_version: u8,
    pub flags: u8,
    pub arm9_rom: InnerRom,
    pub arm7_rom: InnerRom,
    pub file_name_table: Offset,
    pub file_alloc_table: Offset,
    pub arm9_overlay: Offset,
    pub arm7_overlay: Offset,
    pub normal_card_settings: u32,
    pub secure_card_settings: u32,
    pub icon_offset: u32,
    pub secure_crc: u16,
    pub secure_transfer_timeout: u16,
    pub arm9_autoload: u32,
    pub arm7_autoload: u32,
    pub secure_disable: u64,
    pub ntr_size: u32,
    pub header_size: u32,
    pub reserved2: Vec<u8>,
    pub logo: Vec<u8>,
    pub logo_crc: u16,
    pub header_crc: u16,
    pub debugger_reserved: Vec<u8>,
}

impl Header {
    /// The reserved and logo blocks have their fixed serialized sizes.
    pub open spec fn wf(&self) -> bool {
        &&& self.game_info.wf()
        &&& self.reserved1@.len() == 7
        &&& self.reserved2@.len() == 56
        &&& self.logo@.len() == 156
        &&& self.debugger_reserved@.len() == 32
    }

    /// The serialized bytes up to the processor records.
    pub open spec fn spec_front_bytes(&self) -> Seq<u8> {
        spec_info_bytes(self.game_info) + seq![self.encrypt_seed, self.capacity] + self.reserved1@
            + le16_bytes(self.revision) + seq![self.rom_version, self.flags] + spec_rom_bytes(
            self.arm9_rom,
        ) + spec_rom_bytes(self.arm7_rom)
    }

    /// The serialized bytes of the table offsets and card settings.
    pub open spec fn spec_mid_bytes(&self) -> Seq<u8> {
        spec_offset_bytes(self.file_name_table) + spec_offset_bytes(self.file_alloc_table)
            + spec_offset_bytes(self.arm9_overlay) + spec_offset_bytes(self.arm7_overlay)
            + le32_bytes(self.normal_card_settings) + le32_bytes(self.secure_card_settings)
            + le32_bytes(self.icon_offset) + le16_bytes(self.secure_crc) + le16_bytes(
            self.secure_transfer_timeout,
        ) + le32_bytes(self.arm9_autoload) + le32_bytes(self.arm7_autoload) + le64_bytes(
            self.secure_disable,
        ) + le32_bytes(self.ntr_size) + le32_bytes(self.header_size)
    }

    /// The serialized bytes of the trailing reserved and logo blocks.
    pub open spec fn spec_tail_bytes(&self) -> Seq<u8> {
        self.reserved2@ + self.logo@ + le16_bytes(self.logo_crc) + le16_bytes(self.header_crc)
            + self.debugger_reserved@
    }

    /// The serialized bytes of the header, field after field.
    pub open spec fn spec_bytes(&self) -> Seq<u8> {
        self.spec_front_bytes() + self.spec_mid_bytes() + self.spec_tail_bytes()
    }

    /// Decodes the boot header from the start of `data`.  Fails exactly
    /// when `data` is shorter than the serialized header.
    pub fn new(data: &[u8]) -> (r: Result<Self, ExtractError>)
        ensures
            r is Ok <==> data@.len() >= HEADER_BYTES,
            r is Err ==> r == Err::<Self, ExtractError>(ExtractError::NotEnoughData),
            r is Ok ==> {
                let h = r.unwrap();
                &&& h.wf()
                &&& h.game_info.title@ == data@.subrange(0, 0x0c)
                &&& h.game_info.gamecode == le32(data@, 0x0c)
                &&& h.game_info.makercode == le16(data@, 0x10)
                &&& h.game_info.unitcode == data@[0x12]
                &&& h.encrypt_seed == data@[0x13]
                &&& h.capacity == data@[0x14]
                &&& h.reserved1@ == data@.subrange(0x15, 0x1c)
                &&& h.revision == le16(data@, 0x1c)
                &&& h.rom_version == data@[0x1e]
                &&& h.flags == data@[0x1f]
                &&& h.arm9_rom == (InnerRom {
                    offset: le32(data@, 0x20),
                    entry_addr: le32(data@, 0x24),
                    load_addr: le32(data@, 0x28),
                    size: le32(data@, 0x2c),
                })
                &&& h.arm7_rom == (InnerRom {
                    offset: le32(data@, 0x30),
                    entry_addr: le32(data@, 0x34),
                    load_addr: le32(data@, 0x38),
                    size: le32(data@, 0x3c),
                })
                &&& h.file_name_table == (Offset {
                    offset: le32(data@, 0x40),
                    length: le32(data@, 0x44),
                })
                &&& h.file_alloc_table == (Offset {
                    offset: le32(data@, 0x48),
                    length: le32(data@, 0x4c),
                })
                &&& h.arm9_overlay == (Offset {
                    offset: le32(data@, 0x50),
                    length: le32(data@, 0x54),
                })
                &&& h.arm7_overlay == (Offset {
                    offset: le32(data@, 0x58),
                    length: le32(data@, 0x5c),
                })
                &&& h.normal_card_settings == le32(data@, 0x60)
                &&& h.secure_card_settings == le32(data@, 0x64)
                &&& h.icon_offset == le32(data@, 0x68)
                &&& h.secure_crc == le16(data@, 0x6c)
                &&& h.secure_transfer_timeout == le16(data@, 0x6e)
                &&& h.arm9_autoload == le32(data@, 0x70)
                &&& h.arm7_autoload == le32(data@, 0x74)
                &&& h.secure_disable == le64(data@, 0x78)
                &&& h.ntr_size == le32(data@, 0x80)
                &&& h.header_size == le32(data@, 0x84)
                &&& h.reserved2@ == data@.subrange(0x88, 0xc0)
                &&& h.logo@ == data@.subrange(0xc0, 0x15c)
                &&& h.logo_crc == le16(data@, 0x15c)
                &&& h.header_crc == le16(data@, 0x15e)
                &&& h.debugger_reserved@ == data@.subrange(0x160, 0x180)
            },
    {
        let n = data.len();
        if n < HEADER_BYTES {
            return Err(ExtractError::NotEnoughData);
        }
        let game_info = Info::new(data, 0);
        let reserved1 = vstd::slice::slice_to_vec(vstd::slice::slice_subrange(data, 0x15, 0x1c));
        let reserved2 = vstd::slice::slice_to_vec(vstd::slice::slice_subrange(data, 0x88, 0xc0));
        let logo = vstd::slice::slice_to_vec(vstd::slice::slice_subrange(data, 0xc0, 0x15c));
        let debugger_reserved = vstd::slice::slice_to_vec(
            vstd::slice::slice_subrange(data, 0x160, 0x180),
        );
        Ok(Header {
            game_info,
            encrypt_seed: data[0x13],
            capacity: data[0x14],
            reserved1,
            revision: crate::bytes::read_le16(data, 0x1c),
            rom_version: data[0x1e],
            flags: data[0x1f],
            arm9_rom: InnerRom::new(data, 0x20),
            arm7_rom: InnerRom::new(data, 0x30),
            file_name_table: Offset::new(data, 0x40),
            file_alloc_table: Offset::new(data, 0x48),
            arm9_overlay: Offset::new(data, 0x50),
            arm7_overlay: Offset::new(data, 0x58),
            normal_card_settings: crate::bytes::read_le32(data, 0x60),
            secure_card_settings: crate::bytes::read_le32(data, 0x64),
            icon_offset: crate::bytes::read_le32(data, 0x68),
            secure_crc: crate::bytes::read_le16(data, 0x6c),
            secure_transfer_timeout: crate::bytes::read_le16(data, 0x6e),
            arm9_autoload: crate::bytes::read_le32(data, 0x70),
            arm7_autoload: crate::bytes::read_le32(data, 0x74),
            secure_disable: crate::bytes::read_le64(data, 0x78),
            ntr_size: crate::bytes::read_le32(data, 0x80),
            header_size: crate::bytes::read_le32(data, 0x84),
            reserved2,
            logo,
            logo_crc: crate::bytes::read_le16(data, 0x15c),
            header_crc: crate::bytes::read_le16(data, 0x15e),
            debugger_reserved,
        })
    }

    /// Serializes the header, appending exactly its fixed-layout bytes.
    #[verifier::rlimit(100)]
    #[verifier::spinoff_prover]
    pub fn write(&self, out: &mut Vec<u8>)
        requires
            self.wf(),
        ensures
            final(out)@ == old(out)@ + self.spec_bytes(),
            final(out)@.len() == old(out)@.len() + HEADER_BYTES,
    {
        self.game_info.write(out);
        out.push(self.encrypt_seed);
        out.push(self.capacity);
        push_bytes(out, &self.reserved1);
        crate::bytes::push_le16(out, self.revision);
        out.push(self.rom_version);
        out.push(self.flags);
        self.arm9_rom.write(out);
        self.arm7_rom.write(out);
        let ghost after_front = out@;
        proof {
            assert(after_front =~= old(out)@ + self.spec_front_bytes());
        }
        self.file_name_table.write(out);
        self.file_alloc_table.write(out);
        self.arm9_overlay.write(out);
        self.arm7_overlay.write(out);
        crate::bytes::push_le32(out, self.normal_card_settings);
        crate::bytes::push_le32(out, self.secure_card_settings);
        crate::bytes::push_le32(out, self.icon_offset);
        crate::bytes::push_le16(out, self.secure_crc);
        crate::bytes::push_le16(out, self.secure_transfer_timeout);
        crate::bytes::push_le32(out, self.arm9_autoload);
        crate::bytes::push_le32(out, self.arm7_autoload);
        crate::bytes::push_le64(out, self.secure_disable);
        crate::bytes::push_le32(out, self.ntr_size);
        crate::bytes::push_le32(out, self.header_size);
        let ghost after_mid = out@;
        proof {
            assert(after_mid =~= after_front + self.spec_mid_bytes());
        }
        push_bytes(out, &self.reserved2);
        push_bytes(out, &self.logo);
        crate::bytes::push_le16(out, self.logo_crc);
        crate::bytes::push_le16(out, self.header_crc);
        push_bytes(out, &self.debugger_reserved);
        proof {
            assert(out@ =~= after_mid + self.spec_tail_bytes());
            vstd::seq_lib::lemma_concat_associative(
                old(out)@,
                self.spec_front_bytes(),
                self.spec_mid_bytes(),
            );
            vstd::seq_lib::lemma_concat_associative(
                old(out)@,
                self.spec_front_bytes() + self.spec_mid_bytes(),
                self.spec_tail_bytes(),
            );
            assert(out@ == old(out)@ + self.spec_bytes());
        }
    }
}

} // verus!

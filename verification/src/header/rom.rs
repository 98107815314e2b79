//! The per-processor code block record of the boot header.

use vstd::prelude::*;

use crate::bytes::{le32, le32_bytes};

verus! {

/// Where one processor binary sits in the image and how it is loaded.
#[derive(Clone, Copy, Debug, Default, Eq, PartialEq, Ord, PartialOrd, Hash, Structural)]
pub struct InnerRom {
    pub offset: u32,
    pub entry_addr: u32,
    pub load_addr: u32,
    pub size: u32,
}

/// The serialized bytes of the record.
pub open spec fn spec_rom_bytes(r: InnerRom) -> Seq<u8> {
    le32_bytes(r.offset) + le32_bytes(r.entry_addr) + le32_bytes(r.load_addr) + le32_bytes(r.size)
}

impl InnerRom {
    /// Decodes the 16-byte record at `pos`.
    pub fn new(data: &[u8], pos: usize) -> (r: Self)
        requires
            pos + 16 <= data@.len(),
        ensures
            r == (InnerRom {
                offset: le32(data@, pos as int),
                entry_addr: le32(data@, pos as int + 4),
                load_addr: le32(data@, pos as int + 8),
                size: le32(data@, pos as int + 12),
            }),
    {
        let n = data.len();
        InnerRom {
            offset: crate::bytes::read_le32(data, pos),
            entry_addr: crate::bytes::read_le32(data, pos + 4),
            load_addr: crate::bytes::read_le32(data, pos + 8),
            size: crate::bytes::read_le32(data, pos + 12),
        }
    }

    /// Serializes the record, appending exactly its 16 bytes.
    pub fn write(&self, out: &mut Vec<u8>)
        ensures
            final(out)@ == old(out)@ + spec_rom_bytes(*self),
            final(out)@.len() == old(out)@.len() + 16,
    {
        crate::bytes::push_le32(out, self.offset);
        crate::bytes::push_le32(out, self.entry_addr);
        crate::bytes::push_le32(out, self.load_addr);
        crate::bytes::push_le32(out, self.size);
        proof {
            assert(out@ =~= old(out)@ + spec_rom_bytes(*self));
        }
    }
}

} // verus!

//! The game-information block at the start of the boot header.

use vstd::prelude::*;

use crate::bytes::{le16, le16_bytes, le32, le32_bytes};

verus! {

/// Title and vendor codes: the first 19 bytes of the boot header.
#[derive(Clone, Debug, Default, Eq, PartialEq, Ord, PartialOrd, Hash)]
pub struct Info {
    /// The 12 raw title bytes.
    pub title: Vec<u8>,
    pub gamecode: u32,
    pub makercode: u16,
    pub unitcode: u8,
}

/// The serialized bytes of the block.
pub open spec fn spec_info_bytes(i: Info) -> Seq<u8> {
    i.title@ + le32_bytes(i.gamecode) + le16_bytes(i.makercode) + seq![i.unitcode]
}

impl Info {
    /// The title block has its fixed serialized size.
    pub open spec fn wf(&self) -> bool {
        self.title@.len() == 12
    }

    /// Decodes the 19-byte block at `pos`.
    pub fn new(data: &[u8], pos: usize) -> (r: Self)
        requires
            pos + 19 <= data@.len(),
        ensures
            r.title@ == data@.subrange(pos as int, pos as int + 12),
            r.gamecode == le32(data@, pos as int + 12),
            r.makercode == le16(data@, pos as int + 16),
            r.unitcode == data@[pos as int + 18],
            r.wf(),
    {
        let n = data.len();
        let title = vstd::slice::slice_to_vec(vstd::slice::slice_subrange(data, pos, pos + 12));
        Info {
            title,
            gamecode: crate::bytes::read_le32(data, pos + 12),
            makercode: crate::bytes::read_le16(data, pos + 16),
            unitcode: data[pos + 18],
        }
    }

    /// Serializes the block, appending exactly its 19 bytes.
    pub fn write(&self, out: &mut Vec<u8>)
        requires
            self.wf(),
        ensures
            final(out)@ == old(out)@ + spec_info_bytes(*self),
            final(out)@.len() == old(out)@.len() + 19,
    {
        crate::header::push_bytes(out, &self.title);
        crate::bytes::push_le32(out, self.gamecode);
        crate::bytes::push_le16(out, self.makercode);
        out.push(self.unitcode);
        proof {
            assert(out@ =~= old(out)@ + spec_info_bytes(*self));
        }
    }
}

} // verus!

//! An (offset, length) pair of the boot header, locating one sub-region of
//! the image.

use vstd::prelude::*;

use crate::bytes::{le32, le32_bytes};

verus! {

/// A sub-region of the image: where it starts and how long it is.
#[derive(Clone, Copy, Debug, Default, Eq, PartialEq, Ord, PartialOrd, Hash, Structural)]
pub struct Offset {
    pub offset: u32,
    pub length: u32,
}

/// The serialized bytes of the pair.
pub open spec fn spec_offset_bytes(o: Offset) -> Seq<u8> {
    le32_bytes(o.offset) + le32_bytes(o.length)
}

impl Offset {
    /// Decodes the 8-byte pair at `pos`.
    pub fn new(data: &[u8], pos: usize) -> (r: Self)
        requires
            pos + 8 <= data@.len(),
        ensures
            r == (Offset { offset: le32(data@, pos as int), length: le32(data@, pos as int + 4) }),
    {
        let n = data.len();
        Offset {
            offset: crate::bytes::read_le32(data, pos),
            length: crate::bytes::read_le32(data, pos + 4),
        }
    }

    /// Serializes the pair, appending exactly its 8 bytes.
    pub fn write(&self, out: &mut Vec<u8>)
        ensures
            final(out)@ == old(out)@ + spec_offset_bytes(*self),
            final(out)@.len() == old(out)@.len() + 8,
    {
        crate::bytes::push_le32(out, self.offset);
        crate::bytes::push_le32(out, self.length);
        proof {
            assert(out@ =~= old(out)@ + spec_offset_bytes(*self));
        }
    }
}

} // verus!

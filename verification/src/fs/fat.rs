//! The file allocation table (FAT): one half-open byte range per file ID.
//!
//! The raw region is a flat stream of 8-byte records, two little-endian
//! `u32` bounds each; the record index is the file ID.  `spec_fat_decode`
//! is the definition of that layout, and decoding is proved to produce
//! exactly it, failing exactly on regions that are not a whole number of
//! records.

use vstd::prelude::*;

use crate::bytes::le32;
use crate::fs::FsError;

verus! {

/// One allocation record: the half-open byte range `[start, end)` of a file
/// within the image.
#[derive(Clone, Copy, Debug, Default, Eq, PartialEq, Ord, PartialOrd, Hash, Structural)]
pub struct AllocInfo {
    /// Offset of the first byte of the file, relative to the image start.
    pub start: u32,
    /// Offset one past the last byte of the file.
    pub end: u32,
}

/// The record at index `i` of a raw allocation-table region.
pub open spec fn spec_fat_entry(s: Seq<u8>, i: int) -> AllocInfo
    recommends
        0 <= i,
        8 * i + 8 <= s.len(),
{
    AllocInfo { start: le32(s, 8 * i), end: le32(s, 8 * i + 4) }
}

/// The decoded allocation table, or nothing when the region length is not a
/// multiple of the record size.
pub open spec fn spec_fat_decode(s: Seq<u8>) -> Option<Seq<AllocInfo>> {
    if s.len() % 8 == 0 {
        Some(Seq::new((s.len() / 8) as nat, |i: int| spec_fat_entry(s, i)))
    } else {
        None
    }
}

/// Lookup by file ID: the record for `id`, or nothing when `id` is past the
/// end of the table.
pub open spec fn spec_fat_get(list: Seq<AllocInfo>, id: u16) -> Option<AllocInfo> {
    if (id as int) < list.len() {
        Some(list[id as int])
    } else {
        None
    }
}

impl AllocInfo {
    /// Decodes the 8-byte record at `pos`.
    pub fn new(data: &[u8], pos: usize) -> (r: Self)
        requires
            pos + 8 <= data@.len(),
        ensures
            r.start == le32(data@, pos as int),
            r.end == le32(data@, pos as int + 4),
    {
        let n = data.len();
        AllocInfo { start: crate::bytes::read_le32(data, pos), end: crate::bytes::read_le32(data, pos + 4) }
    }

    /// Length in bytes of the range.
    pub fn len(&self) -> (r: u32)
        requires
            self.start <= self.end,
        ensures
            r == self.end - self.start,
    {
        self.end - self.start
    }
}

/// The decoded allocation table: records in ID order.
#[derive(Clone, Debug, Default, Eq, PartialEq, Ord, PartialOrd, Hash)]
pub struct FileAllocTable {
    list: Vec<AllocInfo>,
}

impl View for FileAllocTable {
    type V = Seq<AllocInfo>;

    closed spec fn view(&self) -> Seq<AllocInfo> {
        self.list@
    }
}

impl FileAllocTable {
    /// Decodes a raw allocation-table region into a list of records, record
    /// index = file ID.  Fails exactly when the region is not a whole number
    /// of 8-byte records.
    pub fn new(fat: &[u8]) -> (r: Result<Self, FsError>)
        ensures
            r is Ok <==> fat@.len() % 8 == 0,
            r is Ok ==> r.unwrap()@ == spec_fat_decode(fat@).unwrap(),
            r is Err ==> r == Err::<FileAllocTable, FsError>(FsError::InvalidFatLen),
    {
        let n = fat.len();
        if n % 8 != 0 {
            return Err(FsError::InvalidFatLen);
        }
        proof {
            vstd::arithmetic::div_mod::lemma_fundamental_div_mod(n as int, 8);
        }
        let entries = n / 8;
        let mut list: Vec<AllocInfo> = Vec::new();
        let mut i: usize = 0;
        while i < entries
            invariant
                n == fat@.len(),
                n % 8 == 0,
                entries == n / 8,
                8 * entries == n,
                i <= entries,
                list@.len() == i,
                forall|j: int| 0 <= j < i ==> list@[j] == spec_fat_entry(fat@, j),
            decreases entries - i,
        {
            list.push(AllocInfo::new(fat, 8 * i));
            i = i + 1;
        }
        proof {
            assert(list@ =~= spec_fat_decode(fat@).unwrap());
        }
        Ok(FileAllocTable { list })
    }

    /// Returns the allocation record for `id`, or nothing when `id` has no
    /// record.
    pub fn get(&self, id: u16) -> (r: Option<AllocInfo>)
        ensures
            r == spec_fat_get(self@, id),
    {
        if (id as usize) < self.list.len() {
            Some(self.list[id as usize])
        } else {
            None
        }
    }
}

/// Decoding followed by lookup is exact: for every ID within the record
/// count the lookup returns precisely the record decoded at that index, and
/// for every ID at or past the record count it returns nothing.
pub proof fn lemma_fat_decode_get(bytes: Seq<u8>, id: u16)
    requires
        bytes.len() % 8 == 0,
    ensures
        (id as int) < bytes.len() / 8 ==> spec_fat_get(spec_fat_decode(bytes).unwrap(), id)
            == Some(spec_fat_entry(bytes, id as int)),
        (id as int) >= bytes.len() / 8 ==> spec_fat_get(spec_fat_decode(bytes).unwrap(), id) is None,
{
}

} // verus!

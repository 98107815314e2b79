//! Entries of the file name table (FNT): named files and the directories
//! that own them.
//!
//! Directory IDs live in a reserved block starting at [`ROOT_ID`]; the root
//! holds the total directory count where every other directory stores its
//! parent's ID.  File IDs are not stored at all: they are assigned in
//! traversal order while the name stream is decoded.

use vstd::prelude::*;

use crate::bytes::{le16, le32};
use crate::fs::fat::AllocInfo;

verus! {

/// The ID of the root directory, and the first ID of the reserved
/// directory-ID block.
pub const ROOT_ID: u16 = 0xF000;

/// The mathematical content of a [`FileEntry`].
pub struct FileEntryV {
    pub id: u16,
    pub path: Seq<u8>,
    pub alloc: AllocInfo,
}

/// One named file: its traversal-order ID, its path relative to the table
/// root as raw name bytes joined with `/`, and its resolved byte range.
/// Stored names are raw bytes and need not be valid text.
#[derive(Clone, Debug, Default, Eq, PartialEq, Ord, PartialOrd, Hash)]
pub struct FileEntry {
    pub id: u16,
    pub path: Vec<u8>,
    pub alloc: AllocInfo,
}

impl View for FileEntry {
    type V = FileEntryV;

    open spec fn view(&self) -> FileEntryV {
        FileEntryV { id: self.id, path: self.path@, alloc: self.alloc }
    }
}

/// The views of a sequence of file entries.
pub open spec fn entries_view(s: Seq<FileEntry>) -> Seq<FileEntryV> {
    s.map_values(|f: FileEntry| f@)
}

/// Appending one entry appends its view.
pub proof fn lemma_entries_view_push(s: Seq<FileEntry>, f: FileEntry)
    ensures
        entries_view(s.push(f)) == entries_view(s).push(f@),
{
    assert forall|j: int| 0 <= j < entries_view(s.push(f)).len() implies entries_view(s.push(f))[j]
        == entries_view(s).push(f@)[j] by {
        if j < s.len() {
            assert(s.push(f)[j] == s[j]);
        } else {
            assert(s.push(f)[j] == f);
        }
    }
    assert(entries_view(s.push(f)) =~= entries_view(s).push(f@));
}

impl FileEntry {
    /// A file entry with the given ID, relative path, and byte range.
    pub fn new(id: u16, path: &[u8], alloc: AllocInfo) -> (r: Self)
        ensures
            r@ == (FileEntryV { id, path: path@, alloc }),
    {
        FileEntry { id, path: vstd::slice::slice_to_vec(path), alloc }
    }

    /// A copy of the entry with the same content.
    pub fn duplicate(&self) -> (r: Self)
        ensures
            r@ == self@,
    {
        FileEntry {
            id: self.id,
            path: vstd::slice::slice_to_vec(self.path.as_slice()),
            alloc: self.alloc,
        }
    }
}

/// The mathematical content of a [`Directory`].
pub struct DirectoryV {
    pub path: Seq<u8>,
    pub files: Seq<FileEntryV>,
    pub offset: u32,
    pub start_id: u16,
    pub value: u16,
    pub id: u16,
}

/// One directory of the table: its decoded info record, its resolved path,
/// and the files found in its part of the name stream.  Subdirectories are
/// not owned here; they are reachable through their IDs in the shared
/// directory block.
#[derive(Clone, Debug, Eq, PartialEq, Ord, PartialOrd, Hash)]
pub struct Directory {
    /// Path of the directory relative to the table root, as raw name
    /// bytes joined with `/`.
    pub path: Vec<u8>,
    /// Files directly inside this directory, in name-stream order.
    pub files: Vec<FileEntry>,
    /// Offset into the FNT region of this directory's name stream.
    pub offset: u32,
    /// The file ID assigned to the first file of this directory.
    pub start_id: u16,
    /// For the root: the total directory count.  Otherwise: the parent ID.
    pub value: u16,
    /// The directory's own ID within the reserved block.
    pub id: u16,
}

impl View for Directory {
    type V = DirectoryV;

    open spec fn view(&self) -> DirectoryV {
        DirectoryV {
            path: self.path@,
            files: entries_view(self.files@),
            offset: self.offset,
            start_id: self.start_id,
            value: self.value,
            id: self.id,
        }
    }
}

impl Directory {
    /// Decodes the 8-byte directory info record at `pos` for directory
    /// `id`: name-stream offset, first file ID, then the count-or-parent
    /// field.  Path and file list start empty.
    pub fn new(data: &[u8], pos: usize, id: u16) -> (r: Self)
        requires
            pos + 8 <= data@.len(),
        ensures
            r@ == (DirectoryV {
                path: Seq::<u8>::empty(),
                files: Seq::<FileEntryV>::empty(),
                offset: le32(data@, pos as int),
                start_id: le16(data@, pos as int + 4),
                value: le16(data@, pos as int + 6),
                id,
            }),
            r.files@.len() == 0,
    {
        let n = data.len();
        let r = Directory {
            path: Vec::new(),
            files: Vec::new(),
            offset: crate::bytes::read_le32(data, pos),
            start_id: crate::bytes::read_le16(data, pos + 4),
            value: crate::bytes::read_le16(data, pos + 6),
            id,
        };
        proof {
            assert(entries_view(r.files@) =~= Seq::<FileEntryV>::empty());
        }
        r
    }

    /// Sets the full path that this directory is referenced by.
    pub fn set_path(&mut self, path: &[u8])
        ensures
            final(self)@ == (DirectoryV { path: path@, ..old(self)@ }),
    {
        self.path = vstd::slice::slice_to_vec(path);
    }

    /// The offset into the FNT region of this directory's name stream.
    pub fn offset(&self) -> (r: u32)
        ensures
            r == self.offset,
    {
        self.offset
    }

    /// The ID of the directory.
    pub fn id(&self) -> (r: u16)
        ensures
            r == self.id,
    {
        self.id
    }

    /// The ID of the first file in the directory's part of the stream.
    pub fn start_id(&self) -> (r: u16)
        ensures
            r == self.start_id,
    {
        self.start_id
    }

    /// The ID of the parent directory; for the root, which has no parent,
    /// `ROOT_ID` itself.
    pub fn parent_id(&self) -> (r: u16)
        ensures
            r == if self.id == ROOT_ID { ROOT_ID } else { self.value },
    {
        if self.is_root() {
            ROOT_ID
        } else {
            self.value
        }
    }

    /// Whether this directory is the root.
    pub fn is_root(&self) -> (r: bool)
        ensures
            r == (self.id == ROOT_ID),
    {
        self.id == ROOT_ID
    }

    /// Appends one file to the list associated with this directory.
    pub fn append_file(&mut self, file: FileEntry)
        ensures
            final(self)@ == (DirectoryV {
                files: old(self)@.files.push(file@),
                ..old(self)@
            }),
    {
        self.files.push(file);
        proof {
            assert(entries_view(self.files@) =~= entries_view(old(self).files@).push(
                old(self).files@.push(file).last()@,
            ));
        }
    }

    /// Appends several files to the list associated with this directory.
    pub fn append_files(&mut self, files: &[FileEntry])
        ensures
            final(self)@ == (DirectoryV {
                files: old(self)@.files + entries_view(files@),
                ..old(self)@
            }),
    {
        let n = files.len();
        let mut i: usize = 0;
        while i < n
            invariant
                n == files@.len(),
                i <= n,
                self.path == old(self).path,
                self.offset == old(self).offset,
                self.start_id == old(self).start_id,
                self.value == old(self).value,
                self.id == old(self).id,
                entries_view(self.files@) == entries_view(old(self).files@) + entries_view(
                    files@.take(i as int),
                ),
            decreases n - i,
        {
            let f = files[i].duplicate();
            let ghost prev = self.files@;
            self.files.push(f);
            proof {
                assert(self.files@ == prev.push(f));
                assert(entries_view(prev).len() == prev.len());
                assert(entries_view(old(self).files@).len() == old(self).files@.len());
                assert(entries_view(files@.take(i as int)).len() == i);
                assert(prev.len() == old(self).files@.len() + i);
                assert(entries_view(files@.take(i + 1)).len() == i + 1);
                let lhs = entries_view(self.files@);
                let rhs = entries_view(old(self).files@) + entries_view(files@.take(i + 1));
                assert forall|j: int| 0 <= j < lhs.len() implies lhs[j] == rhs[j] by {
                    assert(lhs[j] == self.files@[j]@);
                    if j < prev.len() {
                        assert(self.files@[j] == prev[j]);
                        assert(entries_view(prev)[j] == prev[j]@);
                    } else {
                        assert(self.files@[j] == f);
                        assert(entries_view(files@.take(i + 1))[j - old(self).files@.len()]
                            == files@.take(i + 1)[j - old(self).files@.len()]@);
                    }
                }
                assert(lhs =~= rhs);
            }
            i = i + 1;
        }
        proof {
            assert(files@.take(n as int) =~= files@);
            assert(final(self)@ == (DirectoryV {
                files: old(self)@.files + entries_view(files@),
                ..old(self)@
            }));
        }
    }
}

} // verus!

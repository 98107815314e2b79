//! The NitroROM virtual filesystem: the allocation table, the directory
//! table, and the composed view that joins them by file ID.
//!
//! Decoding starts from the directory count stored in the root's info
//! record, decodes one info record per directory ID, then walks the name
//! stream depth-first from the root.  File IDs are assigned in traversal
//! order starting at each directory's `start_id`; every ID below the root's
//! `start_id` is an overlay and gets a synthesized name.

pub mod fat;
pub mod fnt;

use vstd::prelude::*;

use crate::bytes::{le16, le32, read_le16};
use crate::fs::fat::{spec_fat_decode, spec_fat_get, AllocInfo, FileAllocTable};
use crate::fs::fnt::{entries_view, Directory, DirectoryV, FileEntry, FileEntryV, ROOT_ID};
use crate::text::{overlay_name, path_join, spec_overlay_name, spec_path_join};

verus! {

/// Structural faults found while decoding the filesystem tables.  Every one
/// of them means the image cannot be trusted, so decoding aborts.
#[derive(Clone, Copy, Debug, Eq, PartialEq, Structural)]
pub enum FsError {
    /// The allocation-table region is not a whole number of 8-byte records.
    InvalidFatLen,
    /// A read ran past the end of the directory-table region.
    Truncated,
    /// A file or overlay ID has no record in the allocation table.
    MissingAlloc,
    /// An entry names a directory ID outside the decoded directory block.
    UnknownDirectory,
    /// Following subdirectory links revisited a directory.
    DirectoryLoop,
    /// The directory count does not fit in the reserved ID block.
    TooManyDirectories,
    /// Assigning one more file ID would leave the 16-bit ID space.
    TooManyFiles,
}

/// The number of directories a table may hold: the reserved ID block is
/// `0xF000 ..= 0xFFFF`.
pub const MAX_DIR_COUNT: usize = 0x1000;

/// The views of a sequence of directories.
pub open spec fn dirs_view(s: Seq<Directory>) -> Seq<DirectoryV> {
    s.map_values(|d: Directory| d@)
}

/// The mathematical content of a [`FileSystem`].
pub struct FileSystemV {
    pub dirs: Seq<DirectoryV>,
    pub overlays: Seq<FileEntryV>,
}

/// A sequence of file entries carries IDs consecutive from `start_id`,
/// ranges resolved through the allocation table, and paths formed by
/// joining one nonempty name component onto `base`.
pub open spec fn files_seq_ok(
    files: Seq<FileEntryV>,
    base: Seq<u8>,
    start_id: u16,
    fat: Seq<AllocInfo>,
) -> bool {
    forall|j: int|
        0 <= j < files.len() ==> {
            let f = #[trigger] files[j];
            &&& f.id == start_id + j
            &&& start_id + j <= 0xFFFF
            &&& spec_fat_get(fat, f.id) == Some(f.alloc)
            &&& exists|name: Seq<u8>|
                name.len() > 0 && f.path == spec_path_join(base, name)
        }
}

/// The files directly inside `d` are well-formed relative to `d`'s own
/// path and first file ID.
pub open spec fn dir_files_ok(d: DirectoryV, fat: Seq<AllocInfo>) -> bool {
    files_seq_ok(d.files, d.path, d.start_id, fat)
}

/// Every directory's info fields are exactly the decoded record at its
/// index of the raw table, and its ID is its block position.
pub open spec fn dirs_decoded(fnt: Seq<u8>, dirs: Seq<DirectoryV>) -> bool {
    forall|i: int|
        0 <= i < dirs.len() ==> {
            let d = #[trigger] dirs[i];
            &&& d.id == ROOT_ID + i
            &&& d.offset == le32(fnt, 8 * i)
            &&& d.start_id == le16(fnt, 8 * i + 4)
            &&& d.value == le16(fnt, 8 * i + 6)
        }
}

/// One parsed entry of a directory's name stream: a named file, or a named
/// link to a subdirectory.
pub enum EntryS {
    File { name: Seq<u8> },
    Dir { name: Seq<u8>, child: u16 },
}

/// Parses one directory's entry list from the name stream at `pos`: a tag
/// byte per entry (`0` ends the list, `1 ..= 0x80` a file name of that
/// length, above `0x80` a subdirectory name of the low seven bits followed
/// by the child ID), or nothing when a read would run past the region end.
pub open spec fn parse_entries(fnt: Seq<u8>, pos: int) -> Option<Seq<EntryS>>
    decreases fnt.len() - pos,
    when 0 <= pos <= fnt.len()
{
    if pos >= fnt.len() {
        None
    } else {
        let tag = fnt[pos];
        if tag == 0 {
            Some(Seq::empty())
        } else {
            let nlen = if tag > 0x80 {
                (tag - 0x80) as int
            } else {
                tag as int
            };
            if pos + 1 + nlen > fnt.len() {
                None
            } else {
                let name = fnt.subrange(pos + 1, pos + 1 + nlen);
                if tag > 0x80 {
                    if pos + 3 + nlen > fnt.len() {
                        None
                    } else {
                        let child = le16(fnt, pos + 1 + nlen);
                        match parse_entries(fnt, pos + 3 + nlen) {
                            None => None,
                            Some(rest) => Some(seq![EntryS::Dir { name, child }] + rest),
                        }
                    }
                } else {
                    match parse_entries(fnt, pos + 1 + nlen) {
                        None => None,
                        Some(rest) => Some(seq![EntryS::File { name }] + rest),
                    }
                }
            }
        }
    }
}

/// The set of indices marked true.
pub open spec fn vis_set(s: Seq<bool>) -> Set<int> {
    Set::new(|i: int| 0 <= i < s.len() && s[i])
}

/// The decoded content of one directory: its resolved path and its file
/// entries in stream order.
pub struct DirRec {
    pub path: Seq<u8>,
    pub files: Seq<FileEntryV>,
}

/// Walks the directory at block index `id`, reached under `path`: parses
/// its stream at the offset its info record names, then walks the entries.
/// The result is the set of indices visited and the decoded content of
/// each, or nothing when the walk fails: an index outside the block, a
/// directory reached twice, a stream fault, or a file ID at or past the
/// record count.
pub open spec fn walk_dir(
    fnt: Seq<u8>,
    count: int,
    fat: Seq<AllocInfo>,
    id: int,
    path: Seq<u8>,
    visited: Set<int>,
    m: Map<int, DirRec>,
    fuel: nat,
) -> Option<(Set<int>, Map<int, DirRec>)>
    decreases fuel, 1nat, 0nat,
{
    if fuel == 0 {
        None
    } else if !(0 <= id < count) {
        None
    } else if visited.contains(id) {
        None
    } else if le32(fnt, 8 * id) > fnt.len() {
        None
    } else {
        match parse_entries(fnt, le32(fnt, 8 * id) as int) {
            None => None,
            Some(entries) => walk_entries(
                fnt,
                count,
                fat,
                entries,
                id,
                path,
                le16(fnt, 8 * id + 4) as int,
                Seq::empty(),
                visited.insert(id),
                m,
                fuel,
            ),
        }
    }
}

/// Walks the remaining entries of the directory at index `id`, with
/// `files` decoded so far: each file tag appends an entry whose ID is
/// consecutive from `start_id`, within the 16-bit space and the record
/// count, whose path joins the raw name bytes onto the directory's
/// `path`, and whose range is that ID's record; each subdirectory tag
/// walks the child under the joined path with one unit of fuel less.  At
/// the end of the list the directory's content is recorded.
pub open spec fn walk_entries(
    fnt: Seq<u8>,
    count: int,
    fat: Seq<AllocInfo>,
    entries: Seq<EntryS>,
    id: int,
    path: Seq<u8>,
    start_id: int,
    files: Seq<FileEntryV>,
    visited: Set<int>,
    m: Map<int, DirRec>,
    fuel: nat,
) -> Option<(Set<int>, Map<int, DirRec>)>
    decreases fuel, 0nat, entries.len(),
{
    if fuel == 0 {
        None
    } else if entries.len() == 0 {
        Some((visited, m.insert(id, DirRec { path, files })))
    } else {
        match entries[0] {
            EntryS::File { name } => {
                if start_id + files.len() <= 0xFFFF && start_id + files.len() < fat.len() {
                    walk_entries(
                        fnt,
                        count,
                        fat,
                        entries.drop_first(),
                        id,
                        path,
                        start_id,
                        files.push(
                            FileEntryV {
                                id: (start_id + files.len()) as u16,
                                path: spec_path_join(path, name),
                                alloc: fat[start_id + files.len()],
                            },
                        ),
                        visited,
                        m,
                        fuel,
                    )
                } else {
                    None
                }
            },
            EntryS::Dir { name, child } => {
                match walk_dir(
                    fnt,
                    count,
                    fat,
                    child - ROOT_ID,
                    spec_path_join(path, name),
                    visited,
                    m,
                    (fuel - 1) as nat,
                ) {
                    None => None,
                    Some((v2, m2)) => walk_entries(
                        fnt,
                        count,
                        fat,
                        entries.drop_first(),
                        id,
                        path,
                        start_id,
                        files,
                        v2,
                        m2,
                        fuel,
                    ),
                }
            },
        }
    }
}

/// The walk of one directory, split at a position inside its stream:
/// parse the rest of the stream at `pos` and walk what it yields.
pub open spec fn walk_from(
    fnt: Seq<u8>,
    count: int,
    fat: Seq<AllocInfo>,
    pos: int,
    id: int,
    path: Seq<u8>,
    start_id: int,
    files: Seq<FileEntryV>,
    visited: Set<int>,
    m: Map<int, DirRec>,
    fuel: nat,
) -> Option<(Set<int>, Map<int, DirRec>)> {
    match parse_entries(fnt, pos) {
        None => None,
        Some(tail) => walk_entries(
            fnt,
            count,
            fat,
            tail,
            id,
            path,
            start_id,
            files,
            visited,
            m,
            fuel,
        ),
    }
}

/// The whole depth-first walk of a table pair, from the root under the
/// empty path.
pub open spec fn spec_walk(fnt: Seq<u8>, fat: Seq<u8>) -> Option<(Set<int>, Map<int, DirRec>)> {
    walk_dir(
        fnt,
        le16(fnt, 6) as int,
        spec_fat_decode(fat).unwrap(),
        0,
        Seq::<u8>::empty(),
        Set::empty(),
        Map::empty(),
        (le16(fnt, 6) + 1) as nat,
    )
}

/// Whether the whole filesystem decode of the two regions succeeds: the
/// root record is readable, the directory count fits the reserved block
/// and its records fit the region, the allocation table is whole records,
/// the depth-first walk from the root succeeds, and every overlay ID below
/// the root's first file ID has a record.
pub open spec fn decode_succeeds(fnt: Seq<u8>, fat: Seq<u8>) -> bool {
    &&& fnt.len() >= 8
    &&& le16(fnt, 6) <= MAX_DIR_COUNT
    &&& 8 * le16(fnt, 6) <= fnt.len()
    &&& fat.len() % 8 == 0
    &&& spec_walk(fnt, fat) is Some
    &&& le16(fnt, 4) <= fat.len() as int / 8
}

/// The directories marked in `vis_new` but not in `vis_old`, each with
/// its decoded content as `dirs` holds it.
pub open spec fn added_map(dirs: Seq<Directory>, vis_old: Seq<bool>, vis_new: Seq<bool>) -> Map<
    int,
    DirRec,
> {
    Map::new(
        |i: int| 0 <= i < vis_new.len() && vis_new[i] && !(0 <= i < vis_old.len() && vis_old[i]),
        |i: int| DirRec { path: dirs[i]@.path, files: dirs[i]@.files },
    )
}

/// What a successful decode guarantees about the resulting view, relative
/// to the raw directory-table and allocation-table regions.
pub open spec fn fs_decoded(fnt: Seq<u8>, fat: Seq<u8>, v: FileSystemV) -> bool {
    &&& fnt.len() >= 8
    &&& fat.len() % 8 == 0
    &&& v.dirs.len() == le16(fnt, 6) as int
    &&& 1 <= v.dirs.len() <= MAX_DIR_COUNT
    &&& 8 * v.dirs.len() <= fnt.len()
    &&& dirs_decoded(fnt, v.dirs)
    &&& v.dirs[0].path == Seq::<u8>::empty()
    &&& forall|i: int|
        0 <= i < v.dirs.len() ==> dir_files_ok(#[trigger] v.dirs[i], spec_fat_decode(fat).unwrap())
    &&& v.overlays.len() == v.dirs[0].start_id as int
    &&& forall|k: int|
        0 <= k < v.overlays.len() ==> {
            let o = #[trigger] v.overlays[k];
            &&& o.id == k
            &&& o.path == spec_overlay_name(k as u16)
            &&& spec_fat_get(spec_fat_decode(fat).unwrap(), o.id) == Some(o.alloc)
        }
}

/// Represents a decoded NitroROM file system.
#[derive(Debug, Default, Eq, PartialEq)]
pub struct FileSystem {
    /// The directory block, at index `id - ROOT_ID`.
    pub dirs: Vec<Directory>,
    /// The inferred overlay entries, one per ID below the root's first
    /// file ID.
    pub overlays: Vec<FileEntry>,
}

impl View for FileSystem {
    type V = FileSystemV;

    open spec fn view(&self) -> FileSystemV {
        FileSystemV { dirs: dirs_view(self.dirs@), overlays: entries_view(self.overlays@) }
    }
}

/// The info fields (offset, first file ID, count-or-parent, own ID) of
/// every directory of `b` match `a`.
spec fn info_preserved(a: Seq<Directory>, b: Seq<Directory>) -> bool {
    &&& b.len() == a.len()
    &&& forall|i: int|
        0 <= i < a.len() ==> {
            let d = #[trigger] b[i];
            &&& d.offset == a[i].offset
            &&& d.start_id == a[i].start_id
            &&& d.value == a[i].value
            &&& d.id == a[i].id
        }
}

/// Directories already visited stay visited and untouched.
spec fn marks_kept(av: Seq<bool>, a: Seq<Directory>, bv: Seq<bool>, b: Seq<Directory>) -> bool {
    &&& bv.len() == av.len()
    &&& forall|i: int| 0 <= i < av.len() && #[trigger] av[i] ==> bv[i] && b[i] == a[i]
}

/// Every visited directory already has its well-formed file list.
spec fn visited_files_ok(dirs: Seq<Directory>, visited: Seq<bool>, fat: Seq<AllocInfo>) -> bool {
    forall|i: int|
        0 <= i < visited.len() && #[trigger] visited[i] ==> dir_files_ok(dirs[i]@, fat)
}

/// Every unvisited directory still has an empty file list.
spec fn unvisited_clean(dirs: Seq<Directory>, visited: Seq<bool>) -> bool {
    forall|i: int|
        0 <= i < visited.len() && !(#[trigger] visited[i]) ==> dirs[i].files@.len() == 0
}

proof fn lemma_info_preserved_trans(a: Seq<Directory>, b: Seq<Directory>, c: Seq<Directory>)
    requires
        info_preserved(a, b),
        info_preserved(b, c),
    ensures
        info_preserved(a, c),
{
}

proof fn lemma_marks_kept_trans(
    av: Seq<bool>,
    a: Seq<Directory>,
    bv: Seq<bool>,
    b: Seq<Directory>,
    cv: Seq<bool>,
    c: Seq<Directory>,
)
    requires
        marks_kept(av, a, bv, b),
        marks_kept(bv, b, cv, c),
    ensures
        marks_kept(av, a, cv, c),
{
}

proof fn lemma_walk_step_end(
    fnt: Seq<u8>,
    count: int,
    fat: Seq<AllocInfo>,
    p: int,
    id: int,
    path: Seq<u8>,
    start_id: int,
    files: Seq<FileEntryV>,
    vis: Set<int>,
    m: Map<int, DirRec>,
    fuel: nat,
)
    requires
        0 <= p < fnt.len(),
        fnt[p] == 0,
        fuel >= 1,
    ensures
        walk_from(fnt, count, fat, p, id, path, start_id, files, vis, m, fuel) == Some(
            (vis, m.insert(id, DirRec { path, files })),
        ),
{
    assert(parse_entries(fnt, p) == Some(Seq::<EntryS>::empty()));
}

proof fn lemma_walk_step_file(
    fnt: Seq<u8>,
    count: int,
    fat: Seq<AllocInfo>,
    p: int,
    id: int,
    path: Seq<u8>,
    start_id: int,
    files: Seq<FileEntryV>,
    vis: Set<int>,
    m: Map<int, DirRec>,
    fuel: nat,
)
    requires
        0 <= p < fnt.len(),
        1 <= fnt[p] <= 0x80,
        p + 1 + fnt[p] <= fnt.len(),
        fuel >= 1,
    ensures
        ({
            let nlen = fnt[p] as int;
            let name = fnt.subrange(p + 1, p + 1 + nlen);
            let ok = start_id + files.len() <= 0xFFFF && start_id + files.len() < fat.len();
            walk_from(fnt, count, fat, p, id, path, start_id, files, vis, m, fuel) == if ok {
                walk_from(
                    fnt,
                    count,
                    fat,
                    p + 1 + nlen,
                    id,
                    path,
                    start_id,
                    files.push(
                        FileEntryV {
                            id: (start_id + files.len()) as u16,
                            path: spec_path_join(path, name),
                            alloc: fat[start_id + files.len()],
                        },
                    ),
                    vis,
                    m,
                    fuel,
                )
            } else {
                None::<(Set<int>, Map<int, DirRec>)>
            }
        }),
{
    let nlen = fnt[p] as int;
    let name = fnt.subrange(p + 1, p + 1 + nlen);
    match parse_entries(fnt, p + 1 + nlen) {
        None => {
            assert(parse_entries(fnt, p) is None);
        },
        Some(rest) => {
            let es = seq![EntryS::File { name }] + rest;
            assert(parse_entries(fnt, p) == Some(es));
            assert(es[0] == EntryS::File { name });
            assert(es.drop_first() =~= rest);
        },
    }
}

proof fn lemma_walk_step_dir(
    fnt: Seq<u8>,
    count: int,
    fat: Seq<AllocInfo>,
    p: int,
    id: int,
    path: Seq<u8>,
    start_id: int,
    files: Seq<FileEntryV>,
    vis: Set<int>,
    m: Map<int, DirRec>,
    fuel: nat,
)
    requires
        0 <= p < fnt.len(),
        fnt[p] > 0x80,
        p + 3 + (fnt[p] - 0x80) <= fnt.len(),
        fuel >= 1,
    ensures
        ({
            let nlen = (fnt[p] - 0x80) as int;
            let name = fnt.subrange(p + 1, p + 1 + nlen);
            let child = le16(fnt, p + 1 + nlen);
            walk_from(fnt, count, fat, p, id, path, start_id, files, vis, m, fuel) == match
                walk_dir(
                fnt,
                count,
                fat,
                child - ROOT_ID,
                spec_path_join(path, name),
                vis,
                m,
                (fuel - 1) as nat,
            ) {
                None => None::<(Set<int>, Map<int, DirRec>)>,
                Some((v2, m2)) => walk_from(
                    fnt,
                    count,
                    fat,
                    p + 3 + nlen,
                    id,
                    path,
                    start_id,
                    files,
                    v2,
                    m2,
                    fuel,
                ),
            }
        }),
{
    let nlen = (fnt[p] - 0x80) as int;
    let name = fnt.subrange(p + 1, p + 1 + nlen);
    let child = le16(fnt, p + 1 + nlen);
    match parse_entries(fnt, p + 3 + nlen) {
        None => {
            assert(parse_entries(fnt, p) is None);
            assert(walk_from(fnt, count, fat, p, id, path, start_id, files, vis, m, fuel)
                is None);
            match walk_dir(
                fnt,
                count,
                fat,
                child - ROOT_ID,
                spec_path_join(path, name),
                vis,
                m,
                (fuel - 1) as nat,
            ) {
                None => {},
                Some((v2, m2)) => {
                    assert(walk_from(
                        fnt,
                        count,
                        fat,
                        p + 3 + nlen,
                        id,
                        path,
                        start_id,
                        files,
                        v2,
                        m2,
                        fuel,
                    ) is None);
                },
            }
        },
        Some(rest) => {
            let es = seq![EntryS::Dir { name, child }] + rest;
            assert(parse_entries(fnt, p) == Some(es));
            assert(es[0] == EntryS::Dir { name, child });
            assert(es.drop_first() =~= rest);
        },
    }
}

/// Walks the name stream of directory `id` at its recorded offset: collects
/// one file entry per file tag, assigning IDs consecutively from the
/// directory's `start_id`, and recurses into each subdirectory tag with the
/// joined path.  The cursor position is local to each call, so a parent
/// resumes where it left off after a child returns.
fn populate_dir(
    dirs: &mut Vec<Directory>,
    visited: &mut Vec<bool>,
    fnt: &[u8],
    fat: &FileAllocTable,
    path: &[u8],
    id: u16,
    fuel: usize,
) -> (r: Result<(), FsError>)
    requires
        old(dirs)@.len() == old(visited)@.len(),
        old(dirs)@.len() <= MAX_DIR_COUNT,
        visited_files_ok(old(dirs)@, old(visited)@, fat@),
        unvisited_clean(old(dirs)@, old(visited)@),
        forall|i: int|
            0 <= i < old(dirs)@.len() ==> (#[trigger] old(dirs)@[i]).offset == le32(fnt@, 8 * i)
                && old(dirs)@[i].start_id == le16(fnt@, 8 * i + 4),
    ensures
        forall|m0: Map<int, DirRec>|
            #[trigger] walk_dir(
                fnt@,
                old(dirs)@.len() as int,
                fat@,
                id - ROOT_ID,
                path@,
                vis_set(old(visited)@),
                m0,
                fuel as nat,
            ) == if r is Ok {
                Some(
                    (
                        vis_set(final(visited)@),
                        m0.union_prefer_right(
                            added_map(final(dirs)@, old(visited)@, final(visited)@),
                        ),
                    ),
                )
            } else {
                None::<(Set<int>, Map<int, DirRec>)>
            },
        r is Ok ==> {
            &&& final(dirs)@.len() == old(dirs)@.len()
            &&& final(visited)@.len() == old(visited)@.len()
            &&& info_preserved(old(dirs)@, final(dirs)@)
            &&& marks_kept(old(visited)@, old(dirs)@, final(visited)@, final(dirs)@)
            &&& visited_files_ok(final(dirs)@, final(visited)@, fat@)
            &&& unvisited_clean(final(dirs)@, final(visited)@)
            &&& ROOT_ID <= id
            &&& id - ROOT_ID < old(dirs)@.len()
            &&& final(visited)@[id - ROOT_ID]
            &&& final(dirs)@[id - ROOT_ID]@.path == path@
        },
        fuel > 0 && (id < ROOT_ID || id - ROOT_ID >= old(dirs)@.len()) ==> r == Err::<(), FsError>(
            FsError::UnknownDirectory,
        ),
    decreases fuel,
{
    if fuel == 0 {
        return Err(FsError::DirectoryLoop);
    }
    if id < ROOT_ID {
        return Err(FsError::UnknownDirectory);
    }
    let idx = (id - ROOT_ID) as usize;
    if idx >= dirs.len() {
        return Err(FsError::UnknownDirectory);
    }
    if visited[idx] {
        proof {
            assert(vis_set(old(visited)@).contains(id - ROOT_ID));
        }
        return Err(FsError::DirectoryLoop);
    }
    visited[idx] = true;
    proof {
        assert(dirs@[idx as int].files@.len() == 0);
        assert(entries_view(dirs@[idx as int].files@).len() == 0);
        assert(dir_files_ok(dirs@[idx as int]@, fat@));
        assert(!vis_set(old(visited)@).contains(id - ROOT_ID));
        assert(vis_set(visited@) =~= vis_set(old(visited)@).insert(id - ROOT_ID));
    }
    let offset = dirs[idx].offset;
    let start_id = dirs[idx].start_id;
    let value = dirs[idx].value;
    let did = dirs[idx].id;
    let n = fnt.len();
    let mut pos: usize = offset as usize;
    proof {
        assert(le32(fnt@, 8 * (id - ROOT_ID)) == offset);
        assert(le16(fnt@, 8 * (id - ROOT_ID) + 4) == start_id);
    }
    if pos > n {
        return Err(FsError::Truncated);
    }
    let mut files: Vec<FileEntry> = Vec::new();
    proof {
        let acc0 = added_map(dirs@, old(visited)@.update(id - ROOT_ID, true), visited@);
        assert(acc0 =~= Map::<int, DirRec>::empty());
        assert(entries_view(files@) =~= Seq::<FileEntryV>::empty());
        assert forall|m0: Map<int, DirRec>| #[trigger] walk_dir(
            fnt@,
            old(dirs)@.len() as int,
            fat@,
            id - ROOT_ID,
            path@,
            vis_set(old(visited)@),
            m0,
            fuel as nat,
        ) == walk_from(
            fnt@,
            old(dirs)@.len() as int,
            fat@,
            pos as int,
            id - ROOT_ID,
            path@,
            start_id as int,
            entries_view(files@),
            vis_set(visited@),
            m0.union_prefer_right(acc0),
            fuel as nat,
        ) by {
            assert(m0.union_prefer_right(acc0) =~= m0);
        }
    }
    loop
        invariant_except_break
            forall|m0: Map<int, DirRec>| #[trigger] walk_dir(
                fnt@,
                old(dirs)@.len() as int,
                fat@,
                id - ROOT_ID,
                path@,
                vis_set(old(visited)@),
                m0,
                fuel as nat,
            ) == walk_from(
                fnt@,
                old(dirs)@.len() as int,
                fat@,
                pos as int,
                id - ROOT_ID,
                path@,
                start_id as int,
                entries_view(files@),
                vis_set(visited@),
                m0.union_prefer_right(
                    added_map(dirs@, old(visited)@.update(id - ROOT_ID, true), visited@),
                ),
                fuel as nat,
            ),
        invariant
            n == fnt@.len(),
            pos <= n,
            dirs@.len() == old(dirs)@.len(),
            visited@.len() == old(visited)@.len(),
            old(dirs)@.len() == old(visited)@.len(),
            old(dirs)@.len() <= MAX_DIR_COUNT,
            idx < dirs@.len(),
            id == ROOT_ID + idx,
            info_preserved(old(dirs)@, dirs@),
            marks_kept(old(visited)@, old(dirs)@, visited@, dirs@),
            visited@[idx as int],
            dirs@[idx as int] == old(dirs)@[idx as int],
            offset == dirs@[idx as int].offset,
            start_id == dirs@[idx as int].start_id,
            value == dirs@[idx as int].value,
            did == dirs@[idx as int].id,
            visited_files_ok(dirs@, visited@, fat@),
            unvisited_clean(dirs@, visited@),
            files_seq_ok(entries_view(files@), path@, start_id, fat@),
            start_id + files@.len() <= 0x10000,
            fuel >= 1,
            forall|i: int|
                0 <= i < dirs@.len() ==> (#[trigger] dirs@[i]).offset == le32(fnt@, 8 * i)
                    && dirs@[i].start_id == le16(fnt@, 8 * i + 4),
        ensures
            n == fnt@.len(),
            dirs@.len() == old(dirs)@.len(),
            visited@.len() == old(visited)@.len(),
            idx < dirs@.len(),
            info_preserved(old(dirs)@, dirs@),
            marks_kept(old(visited)@, old(dirs)@, visited@, dirs@),
            visited@[idx as int],
            dirs@[idx as int] == old(dirs)@[idx as int],
            offset == dirs@[idx as int].offset,
            start_id == dirs@[idx as int].start_id,
            value == dirs@[idx as int].value,
            did == dirs@[idx as int].id,
            visited_files_ok(dirs@, visited@, fat@),
            unvisited_clean(dirs@, visited@),
            files_seq_ok(entries_view(files@), path@, start_id, fat@),
            start_id + files@.len() <= 0x10000,
            forall|m0: Map<int, DirRec>| #[trigger] walk_dir(
                fnt@,
                old(dirs)@.len() as int,
                fat@,
                id - ROOT_ID,
                path@,
                vis_set(old(visited)@),
                m0,
                fuel as nat,
            ) == Some(
                (
                    vis_set(visited@),
                    m0.union_prefer_right(
                        added_map(dirs@, old(visited)@.update(id - ROOT_ID, true), visited@),
                    ).insert(id - ROOT_ID, DirRec { path: path@, files: entries_view(files@) }),
                ),
            ),
        decreases n - pos, fuel,
    {
        let ghost count_g = old(dirs)@.len() as int;
        let ghost vis0_g = vis_set(old(visited)@);
        let ghost vis_cur = vis_set(visited@);
        let ghost acc_g = added_map(dirs@, old(visited)@.update(id - ROOT_ID, true), visited@);
        let ghost files_v = entries_view(files@);
        let ghost p = pos as int;
        if pos >= n {
            proof {
                assert(parse_entries(fnt@, p) is None);
            }
            return Err(FsError::Truncated);
        }
        let tag = fnt[pos];
        pos = pos + 1;
        if tag == 0 {
            proof {
                assert forall|m0: Map<int, DirRec>| #[trigger] walk_dir(
                    fnt@,
                    count_g,
                    fat@,
                    id - ROOT_ID,
                    path@,
                    vis0_g,
                    m0,
                    fuel as nat,
                ) == Some(
                    (
                        vis_cur,
                        m0.union_prefer_right(acc_g).insert(
                            id - ROOT_ID,
                            DirRec { path: path@, files: files_v },
                        ),
                    ),
                ) by {
                    lemma_walk_step_end(
                        fnt@,
                        count_g,
                        fat@,
                        p,
                        id - ROOT_ID,
                        path@,
                        start_id as int,
                        files_v,
                        vis_cur,
                        m0.union_prefer_right(acc_g),
                        fuel as nat,
                    );
                }
            }
            break;
        }
        let name_len = (if tag > 0x80 {
            tag - 0x80
        } else {
            tag
        }) as usize;
        let ghost nlen_g = name_len as int;
        if name_len > n - pos {
            proof {
                assert(parse_entries(fnt@, p) is None);
            }
            return Err(FsError::Truncated);
        }
        let name = vstd::slice::slice_subrange(fnt, pos, pos + name_len);
        proof {
            assert(name@ == fnt@.subrange(p + 1, p + 1 + nlen_g));
            assert(name@.len() > 0);
        }
        pos = pos + name_len;
        if tag > 0x80 {
            if 2 > n - pos {
                proof {
                    assert(parse_entries(fnt@, p) is None);
                }
                return Err(FsError::Truncated);
            }
            let child_id = read_le16(fnt, pos);
            pos = pos + 2;
            proof {
                assert(child_id == le16(fnt@, p + 1 + nlen_g));
            }
            let child_path = path_join(path, name);
            proof {
                assert(child_path@ == spec_path_join(
                    path@,
                    fnt@.subrange(p + 1, p + 1 + nlen_g),
                ));
            }
            let ghost mid_dirs = dirs@;
            let ghost mid_vis = visited@;
            match populate_dir(dirs, visited, fnt, fat, child_path.as_slice(), child_id, fuel
                - 1) {
                Ok(()) => {},
                Err(e) => {
                    proof {
                        assert forall|m0: Map<int, DirRec>| #[trigger] walk_dir(
                            fnt@,
                            count_g,
                            fat@,
                            id - ROOT_ID,
                            path@,
                            vis0_g,
                            m0,
                            fuel as nat,
                        ) is None by {
                            lemma_walk_step_dir(
                                fnt@,
                                count_g,
                                fat@,
                                p,
                                id - ROOT_ID,
                                path@,
                                start_id as int,
                                files_v,
                                vis_cur,
                                m0.union_prefer_right(acc_g),
                                fuel as nat,
                            );
                            assert(walk_dir(
                                fnt@,
                                count_g,
                                fat@,
                                child_id - ROOT_ID,
                                child_path@,
                                vis_cur,
                                m0.union_prefer_right(acc_g),
                                (fuel - 1) as nat,
                            ) is None);
                        }
                    }
                    return Err(e);
                },
            }
            proof {
                lemma_info_preserved_trans(old(dirs)@, mid_dirs, dirs@);
                lemma_marks_kept_trans(
                    old(visited)@,
                    old(dirs)@,
                    mid_vis,
                    mid_dirs,
                    visited@,
                    dirs@,
                );
                assert(visited@[idx as int] && dirs@[idx as int] == mid_dirs[idx as int]);
                let acc_child = added_map(dirs@, mid_vis, visited@);
                let acc_new = added_map(
                    dirs@,
                    old(visited)@.update(id - ROOT_ID, true),
                    visited@,
                );
                assert(acc_g == added_map(
                    mid_dirs,
                    old(visited)@.update(id - ROOT_ID, true),
                    mid_vis,
                ));
                assert forall|k: int| #[trigger] acc_g.contains_key(k) implies acc_child.contains_key(
                    k,
                ) == false && acc_new.contains_key(k) && acc_new[k] == acc_g[k] by {
                    assert(mid_vis[k]);
                    assert(visited@[k] && dirs@[k] == mid_dirs[k]);
                }
                assert(acc_g.union_prefer_right(acc_child) =~= acc_new);
                assert forall|m0: Map<int, DirRec>| #[trigger] walk_dir(
                    fnt@,
                    count_g,
                    fat@,
                    id - ROOT_ID,
                    path@,
                    vis0_g,
                    m0,
                    fuel as nat,
                ) == walk_from(
                    fnt@,
                    count_g,
                    fat@,
                    pos as int,
                    id - ROOT_ID,
                    path@,
                    start_id as int,
                    entries_view(files@),
                    vis_set(visited@),
                    m0.union_prefer_right(acc_new),
                    fuel as nat,
                ) by {
                    lemma_walk_step_dir(
                        fnt@,
                        count_g,
                        fat@,
                        p,
                        id - ROOT_ID,
                        path@,
                        start_id as int,
                        files_v,
                        vis_cur,
                        m0.union_prefer_right(acc_g),
                        fuel as nat,
                    );
                    assert(walk_dir(
                        fnt@,
                        count_g,
                        fat@,
                        child_id - ROOT_ID,
                        child_path@,
                        vis_cur,
                        m0.union_prefer_right(acc_g),
                        (fuel - 1) as nat,
                    ) == Some(
                        (
                            vis_set(visited@),
                            (m0.union_prefer_right(acc_g)).union_prefer_right(acc_child),
                        ),
                    ));
                    assert((m0.union_prefer_right(acc_g)).union_prefer_right(acc_child)
                        =~= m0.union_prefer_right(acc_new));
                }
            }
        } else {
            if files.len() > 0xFFFF - (start_id as usize) {
                proof {
                    assert forall|m0: Map<int, DirRec>| #[trigger] walk_dir(
                        fnt@,
                        count_g,
                        fat@,
                        id - ROOT_ID,
                        path@,
                        vis0_g,
                        m0,
                        fuel as nat,
                    ) is None by {
                        lemma_walk_step_file(
                            fnt@,
                            count_g,
                            fat@,
                            p,
                            id - ROOT_ID,
                            path@,
                            start_id as int,
                            files_v,
                            vis_cur,
                            m0.union_prefer_right(acc_g),
                            fuel as nat,
                        );
                    }
                }
                return Err(FsError::TooManyFiles);
            }
            let fid = (start_id as usize + files.len()) as u16;
            let alloc = match fat.get(fid) {
                Some(a) => a,
                None => {
                    proof {
                        assert forall|m0: Map<int, DirRec>| #[trigger] walk_dir(
                            fnt@,
                            count_g,
                            fat@,
                            id - ROOT_ID,
                            path@,
                            vis0_g,
                            m0,
                            fuel as nat,
                        ) is None by {
                            lemma_walk_step_file(
                                fnt@,
                                count_g,
                                fat@,
                                p,
                                id - ROOT_ID,
                                path@,
                                start_id as int,
                                files_v,
                                vis_cur,
                                m0.union_prefer_right(acc_g),
                                fuel as nat,
                            );
                        }
                    }
                    return Err(FsError::MissingAlloc);
                },
            };
            let fpath = path_join(path, name);
            let entry = FileEntry { id: fid, path: fpath, alloc };
            let ghost prev = files@;
            files.push(entry);
            proof {
                assert(files@ == prev.push(entry));
                let ev = entries_view(files@);
                assert(ev.len() == prev.len() + 1);
                assert forall|j: int| 0 <= j < ev.len() implies {
                    let f = #[trigger] ev[j];
                    &&& f.id == start_id + j
                    &&& start_id + j <= 0xFFFF
                    &&& spec_fat_get(fat@, f.id) == Some(f.alloc)
                    &&& exists|nm: Seq<u8>| nm.len() > 0 && f.path == spec_path_join(path@, nm)
                } by {
                    if j < prev.len() {
                        assert(files@[j] == prev[j]);
                        assert(entries_view(prev)[j] == prev[j]@);
                    } else {
                        assert(files@[j] == entry);
                        assert(ev[j] == entry@);
                        assert(entry@.path == spec_path_join(path@, name@));
                        assert(name@.len() > 0 && entry@.path == spec_path_join(path@, name@));
                    }
                }
                crate::fs::fnt::lemma_entries_view_push(prev, entry);
                assert(files_v == entries_view(prev));
                assert(fid == start_id + files_v.len());
                assert(alloc == fat@[start_id + files_v.len()]);
                assert(entry@ == (FileEntryV {
                    id: (start_id + files_v.len()) as u16,
                    path: spec_path_join(path@, fnt@.subrange(p + 1, p + 1 + nlen_g)),
                    alloc: fat@[start_id + files_v.len()],
                }));
                assert(entries_view(files@) == files_v.push(entry@));
                assert forall|m0: Map<int, DirRec>| #[trigger] walk_dir(
                    fnt@,
                    count_g,
                    fat@,
                    id - ROOT_ID,
                    path@,
                    vis0_g,
                    m0,
                    fuel as nat,
                ) == walk_from(
                    fnt@,
                    count_g,
                    fat@,
                    pos as int,
                    id - ROOT_ID,
                    path@,
                    start_id as int,
                    entries_view(files@),
                    vis_set(visited@),
                    m0.union_prefer_right(
                        added_map(dirs@, old(visited)@.update(id - ROOT_ID, true), visited@),
                    ),
                    fuel as nat,
                ) by {
                    lemma_walk_step_file(
                        fnt@,
                        count_g,
                        fat@,
                        p,
                        id - ROOT_ID,
                        path@,
                        start_id as int,
                        files_v,
                        vis_cur,
                        m0.union_prefer_right(acc_g),
                        fuel as nat,
                    );
                }
            }
        }
    }
    // End of this directory's entries: record the path and the collected
    // files, keeping the decoded info fields.
    let ghost mid_dirs = dirs@;
    let ghost files_fin = entries_view(files@);
    let new_dir = Directory {
        path: vstd::slice::slice_to_vec(path),
        files,
        offset,
        start_id,
        value,
        id: did,
    };
    proof {
        assert(dir_files_ok(new_dir@, fat@));
        assert(new_dir@.files == files_fin);
    }
    dirs[idx] = new_dir;
    proof {
        assert(dirs@ =~= mid_dirs.update(idx as int, dirs@[idx as int]));
        assert(dirs@[idx as int]@.path == path@);
        assert(info_preserved(old(dirs)@, dirs@));
        assert(marks_kept(old(visited)@, old(dirs)@, visited@, dirs@));
        assert(visited_files_ok(dirs@, visited@, fat@));
        assert(unvisited_clean(dirs@, visited@));
        let acc_exc = added_map(mid_dirs, old(visited)@.update(id - ROOT_ID, true), visited@);
        let acc_fin = added_map(dirs@, old(visited)@, visited@);
        assert forall|k: int| #[trigger] acc_exc.contains_key(k) implies k != id - ROOT_ID
            && acc_fin.contains_key(k) && acc_fin[k] == acc_exc[k] by {
            assert(dirs@[k] == mid_dirs[k]);
        }
        assert(acc_fin.contains_key(id - ROOT_ID));
        assert(acc_fin[id - ROOT_ID] == DirRec { path: path@, files: files_fin });
        assert forall|m0: Map<int, DirRec>| #[trigger] walk_dir(
            fnt@,
            old(dirs)@.len() as int,
            fat@,
            id - ROOT_ID,
            path@,
            vis_set(old(visited)@),
            m0,
            fuel as nat,
        ) == Some((vis_set(visited@), m0.union_prefer_right(acc_fin))) by {
            assert(m0.union_prefer_right(acc_exc).insert(
                id - ROOT_ID,
                DirRec { path: path@, files: files_fin },
            ) =~= m0.union_prefer_right(acc_fin));
        }
    }
    Ok(())
}

impl FileSystem {
    /// Decodes the raw directory-table region `fnt` and allocation-table
    /// region `fat` into a filesystem view.  Decoding succeeds exactly when
    /// [`decode_succeeds`] holds of the two regions; the result then carries
    /// the structure [`fs_decoded`] states, and each directory's path and
    /// file list are exactly what the depth-first walk [`spec_walk`]
    /// decodes for it.  Structural faults abort with the error naming them.
    pub fn new(fnt: &[u8], fat: &[u8]) -> (r: Result<FileSystem, FsError>)
        ensures
            r is Ok <==> decode_succeeds(fnt@, fat@),
            r is Ok ==> fs_decoded(fnt@, fat@, r.unwrap()@),
            r is Ok ==> ({
                let m = spec_walk(fnt@, fat@).unwrap().1;
                let v = r.unwrap()@;
                &&& forall|i: int|
                    #[trigger] m.contains_key(i) ==> 0 <= i < v.dirs.len() && v.dirs[i].path
                        == m[i].path && v.dirs[i].files == m[i].files
                &&& forall|i: int|
                    0 <= i < v.dirs.len() && !(#[trigger] m.contains_key(i)) ==> v.dirs[i].files.len()
                        == 0
            }),
            fnt@.len() < 8 ==> r == Err::<FileSystem, FsError>(FsError::Truncated),
            fnt@.len() >= 8 && le16(fnt@, 6) > MAX_DIR_COUNT ==> r == Err::<FileSystem, FsError>(
                FsError::TooManyDirectories,
            ),
            fnt@.len() >= 8 && le16(fnt@, 6) <= MAX_DIR_COUNT && 8 * le16(fnt@, 6) > fnt@.len()
                ==> r == Err::<FileSystem, FsError>(FsError::Truncated),
            fnt@.len() >= 8 && le16(fnt@, 6) <= MAX_DIR_COUNT && 8 * le16(fnt@, 6) <= fnt@.len()
                && fat@.len() % 8 != 0 ==> r == Err::<FileSystem, FsError>(FsError::InvalidFatLen),
            fnt@.len() >= 8 && le16(fnt@, 6) == 0 && 8 * le16(fnt@, 6) <= fnt@.len() && fat@.len()
                % 8 == 0 ==> r == Err::<FileSystem, FsError>(FsError::UnknownDirectory),
    {
        let n = fnt.len();
        if n < 8 {
            return Err(FsError::Truncated);
        }
        let count = read_le16(fnt, 6) as usize;
        if count > MAX_DIR_COUNT {
            return Err(FsError::TooManyDirectories);
        }
        if 8 * count > n {
            return Err(FsError::Truncated);
        }
        let table = FileAllocTable::new(fat)?;
        let mut dirs: Vec<Directory> = Vec::new();
        let mut i: usize = 0;
        while i < count
            invariant
                n == fnt@.len(),
                count <= MAX_DIR_COUNT,
                8 * count <= n,
                i <= count,
                dirs@.len() == i,
                forall|k: int|
                    0 <= k < i ==> {
                        let d = (#[trigger] dirs@[k])@;
                        &&& d.id == ROOT_ID + k
                        &&& d.offset == le32(fnt@, 8 * k)
                        &&& d.start_id == le16(fnt@, 8 * k + 4)
                        &&& d.value == le16(fnt@, 8 * k + 6)
                        &&& d.files.len() == 0
                    },
                forall|k: int| 0 <= k < i ==> (#[trigger] dirs@[k]).files@.len() == 0,
            decreases count - i,
        {
            dirs.push(Directory::new(fnt, 8 * i, ROOT_ID + i as u16));
            i = i + 1;
        }
        let mut visited: Vec<bool> = Vec::new();
        let mut j: usize = 0;
        while j < count
            invariant
                j <= count,
                visited@.len() == j,
                forall|k: int| 0 <= k < j ==> !(#[trigger] visited@[k]),
            decreases count - j,
        {
            visited.push(false);
            j = j + 1;
        }
        let root_path: Vec<u8> = Vec::new();
        let ghost vis_init = visited@;
        proof {
            assert(vis_set(visited@) =~= Set::<int>::empty());
            assert(table@.len() == fat@.len() / 8);
            assert forall|k: int| 0 <= k < dirs@.len() implies (#[trigger] dirs@[k]).offset
                == le32(fnt@, 8 * k) && dirs@[k].start_id == le16(fnt@, 8 * k + 4) by {
                assert(dirs@[k]@.offset == le32(fnt@, 8 * k));
                assert(dirs@[k]@.start_id == le16(fnt@, 8 * k + 4));
            }
        }
        match populate_dir(&mut dirs, &mut visited, fnt, &table, root_path.as_slice(), ROOT_ID,
            count + 1) {
            Ok(()) => {},
            Err(e) => {
                proof {
                    assert(walk_dir(
                        fnt@,
                        count as int,
                        table@,
                        0,
                        Seq::<u8>::empty(),
                        Set::<int>::empty(),
                        Map::<int, DirRec>::empty(),
                        (count + 1) as nat,
                    ) is None);
                    assert(!decode_succeeds(fnt@, fat@));
                }
                return Err(e);
            },
        }
        proof {
            let acc = added_map(dirs@, vis_init, visited@);
            assert(walk_dir(
                fnt@,
                count as int,
                table@,
                0,
                Seq::<u8>::empty(),
                Set::<int>::empty(),
                Map::<int, DirRec>::empty(),
                (count + 1) as nat,
            ) == Some((vis_set(visited@), Map::<int, DirRec>::empty().union_prefer_right(acc))));
            assert(Map::<int, DirRec>::empty().union_prefer_right(acc) =~= acc);
            assert(spec_walk(fnt@, fat@) == Some((vis_set(visited@), acc)));
        }
        let start = dirs[0].start_id;
        proof {
            assert(dirs@[0].start_id == le16(fnt@, 4));
        }
        let mut overlays: Vec<FileEntry> = Vec::new();
        let mut oid: u16 = 0;
        while oid < start
            invariant
                n == fnt@.len(),
                n >= 8,
                count == le16(fnt@, 6),
                1 <= count <= MAX_DIR_COUNT,
                8 * count <= n,
                fat@.len() % 8 == 0,
                table@.len() == fat@.len() / 8,
                start == le16(fnt@, 4),
                spec_walk(fnt@, fat@) == Some(
                    (vis_set(visited@), added_map(dirs@, vis_init, visited@)),
                ),
                dirs@.len() == count,
                visited@.len() == count,
                unvisited_clean(dirs@, visited@),
                oid > 0 ==> oid as int - 1 < table@.len(),
                oid <= start,
                overlays@.len() == oid as int,
                forall|k: int|
                    0 <= k < oid as int ==> {
                        let o = (#[trigger] overlays@[k])@;
                        &&& o.id == k
                        &&& o.path == spec_overlay_name(k as u16)
                        &&& spec_fat_get(table@, o.id) == Some(o.alloc)
                    },
            decreases start - oid,
        {
            let alloc = match table.get(oid) {
                Some(a) => a,
                None => {
                    proof {
                        assert(le16(fnt@, 4) > fat@.len() / 8);
                        assert(!decode_succeeds(fnt@, fat@));
                    }
                    return Err(FsError::MissingAlloc);
                },
            };
            let name = overlay_name(oid);
            overlays.push(FileEntry { id: oid, path: name, alloc });
            oid = oid + 1;
        }
        let fs = FileSystem { dirs, overlays };
        proof {
            assert(start as int <= table@.len());
            assert(decode_succeeds(fnt@, fat@));
            let m = spec_walk(fnt@, fat@).unwrap().1;
            assert forall|i: int| #[trigger] m.contains_key(i) implies 0 <= i < fs@.dirs.len()
                && fs@.dirs[i].path == m[i].path && fs@.dirs[i].files == m[i].files by {
                assert(fs@.dirs[i] == fs.dirs@[i]@);
            }
            assert forall|i: int| 0 <= i < fs@.dirs.len() && !(#[trigger] m.contains_key(i))
                implies fs@.dirs[i].files.len() == 0 by {
                assert(!visited@[i]);
                assert(fs.dirs@[i].files@.len() == 0);
                assert(fs@.dirs[i] == fs.dirs@[i]@);
            }
            let v = fs@;
            assert(v.dirs.len() == count);
            assert forall|k: int| 0 <= k < v.dirs.len() implies {
                let d = #[trigger] v.dirs[k];
                &&& d.id == ROOT_ID + k
                &&& d.offset == le32(fnt@, 8 * k)
                &&& d.start_id == le16(fnt@, 8 * k + 4)
                &&& d.value == le16(fnt@, 8 * k + 6)
                &&& dir_files_ok(d, spec_fat_decode(fat@).unwrap())
            } by {
                assert(v.dirs[k] == fs.dirs@[k]@);
                if visited@[k] {
                    assert(dir_files_ok(fs.dirs@[k]@, table@));
                } else {
                    assert(fs.dirs@[k].files@.len() == 0);
                    assert(entries_view(fs.dirs@[k].files@).len() == 0);
                }
            }
            assert(v.overlays.len() == v.dirs[0].start_id as int);
            assert(v.dirs[0].path == Seq::<u8>::empty());
        }
        Ok(fs)
    }

    /// How many directories there are.
    pub fn count(&self) -> (r: usize)
        ensures
            r == self@.dirs.len(),
    {
        self.dirs.len()
    }

    /// The root directory's declared first file ID.  Every ID below it in
    /// the allocation table is treated as an overlay.  The decoder does not
    /// reject a directory record that declares a first file ID below this
    /// one, so only when no directory does — as in a well-formed image —
    /// are named-file IDs disjoint from overlay IDs; see
    /// [`lemma_overlay_ids_disjoint`].
    pub fn start_id(&self) -> (r: u16)
        requires
            self@.dirs.len() >= 1,
        ensures
            r == self@.dirs[0].start_id,
    {
        self.dirs[0].start_id
    }

    /// All named files of every directory, flattened in directory order.
    pub fn files(&self) -> (r: Vec<FileEntry>)
        ensures
            entries_view(r@) == spec_all_files(self@.dirs),
    {
        let mut out: Vec<FileEntry> = Vec::new();
        let nd = self.dirs.len();
        let mut i: usize = 0;
        while i < nd
            invariant
                nd == self.dirs@.len(),
                i <= nd,
                entries_view(out@) == spec_all_files(dirs_view(self.dirs@).take(i as int)),
            decreases nd - i,
        {
            let dv = Ghost(dirs_view(self.dirs@));
            let nf = self.dirs[i].files.len();
            let mut j: usize = 0;
            while j < nf
                invariant
                    nd == self.dirs@.len(),
                    i < nd,
                    nf == self.dirs@[i as int].files@.len(),
                    j <= nf,
                    dv@ == dirs_view(self.dirs@),
                    entries_view(out@) == spec_all_files(dv@.take(i as int)) + dv@[i as int].files.take(
                        j as int,
                    ),
                decreases nf - j,
            {
                let ghost prev = out@;
                let f = self.dirs[i].files[j].duplicate();
                out.push(f);
                proof {
                    assert(out@ == prev.push(f));
                    crate::fs::fnt::lemma_entries_view_push(prev, f);
                    assert(f@ == self.dirs@[i as int].files@[j as int]@);
                    assert(dv@[i as int] == self.dirs@[i as int]@);
                    assert(dv@[i as int].files[j as int] == entries_view(
                        self.dirs@[i as int].files@,
                    )[j as int]);
                    assert(dv@[i as int].files.take(j as int + 1) =~= dv@[i as int].files.take(
                        j as int,
                    ).push(dv@[i as int].files[j as int]));
                    assert(entries_view(out@) =~= spec_all_files(dv@.take(i as int)) + dv@[i as int].files.take(
                        j as int + 1,
                    ));
                }
                j = j + 1;
            }
            proof {
                assert(dv@[i as int].files.take(nf as int) =~= dv@[i as int].files);
                lemma_all_files_push(dv@.take(i as int), dv@[i as int]);
                assert(dv@.take(i as int).push(dv@[i as int]) =~= dv@.take(i as int + 1));
            }
            i = i + 1;
        }
        proof {
            assert(dirs_view(self.dirs@).take(nd as int) =~= dirs_view(self.dirs@));
        }
        out
    }

    /// The inferred overlay entries.
    pub fn overlays(&self) -> (r: &Vec<FileEntry>)
        ensures
            entries_view(r@) == self@.overlays,
    {
        &self.overlays
    }
}

/// Every named file of every directory, in directory order.
pub open spec fn spec_all_files(dirs: Seq<DirectoryV>) -> Seq<FileEntryV>
    decreases dirs.len(),
{
    if dirs.len() == 0 {
        Seq::empty()
    } else {
        dirs[0].files + spec_all_files(dirs.drop_first())
    }
}

/// In a decoded filesystem, file IDs are assigned in traversal order: the
/// `j`-th file of any directory has ID `start_id + j`, its byte range is
/// the allocation record of that ID, and its path is the directory's path
/// joined with one nonempty name component.
pub proof fn lemma_traversal_order(fnt: Seq<u8>, fat: Seq<u8>, v: FileSystemV, i: int, j: int)
    requires
        fs_decoded(fnt, fat, v),
        0 <= i < v.dirs.len(),
        0 <= j < v.dirs[i].files.len(),
    ensures
        v.dirs[i].files[j].id == v.dirs[i].start_id + j,
        spec_fat_get(spec_fat_decode(fat).unwrap(), v.dirs[i].files[j].id) == Some(
            v.dirs[i].files[j].alloc,
        ),
        exists|name: Seq<u8>|
            name.len() > 0 && v.dirs[i].files[j].path == spec_path_join(v.dirs[i].path, name),
{
    assert(dir_files_ok(v.dirs[i], spec_fat_decode(fat).unwrap()));
}

/// When no directory declares a first file ID below the root's — as in a
/// well-formed image — every named file's ID is at or above the root's
/// first file ID, so named files and overlays never share an ID.  The
/// decoder itself accepts a corrupt image that breaks the hypothesis, so
/// the restriction cannot be dropped.
pub proof fn lemma_overlay_ids_disjoint(fnt: Seq<u8>, fat: Seq<u8>, v: FileSystemV, i: int, j: int)
    requires
        fs_decoded(fnt, fat, v),
        forall|d: int| 0 <= d < v.dirs.len() ==> (#[trigger] v.dirs[d]).start_id >= v.dirs[0].start_id,
        0 <= i < v.dirs.len(),
        0 <= j < v.dirs[i].files.len(),
    ensures
        v.dirs[i].files[j].id >= v.dirs[0].start_id,
        forall|k: int|
            0 <= k < v.overlays.len() ==> (#[trigger] v.overlays[k]).id != v.dirs[i].files[j].id,
{
    assert(dir_files_ok(v.dirs[i], spec_fat_decode(fat).unwrap()));
    assert(v.dirs[i].files[j].id == v.dirs[i].start_id + j);
}

/// When the directories' assigned ID ranges are pairwise disjoint — as in
/// a well-formed image — no two named files share an ID.  The decoder
/// itself accepts a corrupt image whose declared first file IDs overlap,
/// so the restriction cannot be dropped.
pub proof fn lemma_file_ids_unique(
    fnt: Seq<u8>,
    fat: Seq<u8>,
    v: FileSystemV,
    i1: int,
    j1: int,
    i2: int,
    j2: int,
)
    requires
        fs_decoded(fnt, fat, v),
        forall|d1: int, d2: int|
            #![trigger v.dirs[d1], v.dirs[d2]]
            0 <= d1 < d2 < v.dirs.len() ==> v.dirs[d1].start_id + v.dirs[d1].files.len()
                <= v.dirs[d2].start_id || v.dirs[d2].start_id + v.dirs[d2].files.len()
                <= v.dirs[d1].start_id,
        0 <= i1 < v.dirs.len(),
        0 <= j1 < v.dirs[i1].files.len(),
        0 <= i2 < v.dirs.len(),
        0 <= j2 < v.dirs[i2].files.len(),
        i1 != i2 || j1 != j2,
    ensures
        v.dirs[i1].files[j1].id != v.dirs[i2].files[j2].id,
{
    assert(dir_files_ok(v.dirs[i1], spec_fat_decode(fat).unwrap()));
    assert(dir_files_ok(v.dirs[i2], spec_fat_decode(fat).unwrap()));
    assert(v.dirs[i1].files[j1].id == v.dirs[i1].start_id + j1);
    assert(v.dirs[i2].files[j2].id == v.dirs[i2].start_id + j2);
}

proof fn lemma_all_files_push(s: Seq<DirectoryV>, d: DirectoryV)
    ensures
        spec_all_files(s.push(d)) == spec_all_files(s) + d.files,
    decreases s.len(),
{
    if s.len() == 0 {
        assert(s.push(d)[0] == d);
        assert(s.push(d).drop_first() =~= Seq::<DirectoryV>::empty());
        assert(spec_all_files(s.push(d).drop_first()) == Seq::<FileEntryV>::empty());
        assert(spec_all_files(s.push(d)) == d.files + Seq::<FileEntryV>::empty());
        assert(spec_all_files(s.push(d)) =~= spec_all_files(s) + d.files);
    } else {
        assert(s.push(d).drop_first() =~= s.drop_first().push(d));
        lemma_all_files_push(s.drop_first(), d);
        assert(s.push(d)[0] == s[0]);
        assert(spec_all_files(s.push(d)) == s[0].files + spec_all_files(s.drop_first().push(d)));
        assert(spec_all_files(s.push(d)) =~= spec_all_files(s) + d.files);
    }
}

} // verus!

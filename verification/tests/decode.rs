//! Tests for the allocation-table and directory-table decoders.

use nds::fs::fat::{AllocInfo, FileAllocTable};
use nds::fs::fnt::{Directory, FileEntry, ROOT_ID};
use nds::fs::{FileSystem, FsError};

fn le32(v: u32) -> [u8; 4] {
    v.to_le_bytes()
}

fn le16(v: u16) -> [u8; 2] {
    v.to_le_bytes()
}

/// A FAT region with the given (start, end) records.
fn fat_bytes(records: &[(u32, u32)]) -> Vec<u8> {
    let mut out = Vec::new();
    for (s, e) in records {
        out.extend_from_slice(&le32(*s));
        out.extend_from_slice(&le32(*e));
    }
    out
}

/// An FNT with two directories: the root holding files `a`, `b` and a
/// subdirectory `sub`, which holds one file `c.bin`.
fn two_dir_fnt() -> Vec<u8> {
    let mut fnt = Vec::new();
    // Root info record: stream at 16, first file ID 2, directory count 2.
    fnt.extend_from_slice(&le32(16));
    fnt.extend_from_slice(&le16(2));
    fnt.extend_from_slice(&le16(2));
    // Subdirectory info record: stream at 27, first file ID 4, parent root.
    fnt.extend_from_slice(&le32(27));
    fnt.extend_from_slice(&le16(4));
    fnt.extend_from_slice(&le16(0xF000));
    // Root stream: file "a", file "b", subdirectory "sub" -> 0xF001, end.
    fnt.extend_from_slice(&[0x01, b'a']);
    fnt.extend_from_slice(&[0x01, b'b']);
    fnt.extend_from_slice(&[0x83, b's', b'u', b'b', 0x01, 0xF0]);
    fnt.push(0x00);
    // Subdirectory stream: file "c.bin", end.
    fnt.extend_from_slice(&[0x05, b'c', b'.', b'b', b'i', b'n']);
    fnt.push(0x00);
    fnt
}

#[test]
fn fat_decode_then_get_returns_every_record() {
    let raw = fat_bytes(&[(0, 4), (4, 8), (100, 250)]);
    let table = FileAllocTable::new(&raw).expect("valid FAT must decode");
    assert_eq!(table.get(0), Some(AllocInfo { start: 0, end: 4 }));
    assert_eq!(table.get(1), Some(AllocInfo { start: 4, end: 8 }));
    assert_eq!(table.get(2), Some(AllocInfo { start: 100, end: 250 }));
    assert_eq!(table.get(3), None);
    assert_eq!(table.get(u16::MAX), None);
}

#[test]
fn fat_decode_rejects_ragged_lengths() {
    for len in [1usize, 7, 9, 15, 23] {
        let raw = vec![0u8; len];
        assert_eq!(FileAllocTable::new(&raw), Err(FsError::InvalidFatLen));
    }
    assert!(FileAllocTable::new(&[]).is_ok());
    assert!(FileAllocTable::new(&vec![0u8; 16]).is_ok());
}

#[test]
fn alloc_info_len_is_range_width() {
    let raw = fat_bytes(&[(10, 25)]);
    let table = FileAllocTable::new(&raw).unwrap();
    assert_eq!(table.get(0).unwrap().len(), 15);
}

#[test]
fn synthetic_tree_assigns_ids_in_traversal_order() {
    let fnt = two_dir_fnt();
    let fat = fat_bytes(&[(0, 4), (4, 8), (8, 12), (12, 16), (16, 21)]);
    let fs = FileSystem::new(&fnt, &fat).expect("tree must decode");
    assert_eq!(fs.count(), 2);
    assert_eq!(fs.start_id(), 2);

    let root = &fs.dirs[0];
    assert_eq!(root.id, ROOT_ID);
    assert!(root.path.is_empty());
    assert_eq!(root.files.len(), 2);
    assert_eq!(root.files[0].id, 2);
    assert_eq!(root.files[0].path, b"a");
    assert_eq!(root.files[0].alloc, AllocInfo { start: 8, end: 12 });
    assert_eq!(root.files[1].id, 3);
    assert_eq!(root.files[1].path, b"b");
    assert_eq!(root.files[1].alloc, AllocInfo { start: 12, end: 16 });

    let sub = &fs.dirs[1];
    assert_eq!(sub.id, 0xF001);
    assert_eq!(sub.path, b"sub");
    assert_eq!(sub.parent_id(), ROOT_ID);
    assert_eq!(sub.files.len(), 1);
    assert_eq!(sub.files[0].id, 4);
    assert_eq!(sub.files[0].path, b"sub/c.bin");
    assert_eq!(sub.files[0].alloc, AllocInfo { start: 16, end: 21 });
}

#[test]
fn parent_resumes_after_subdirectory() {
    // Root stream: file "a", subdirectory "s", then file "b".  The walk
    // into "s" must not disturb the parent's cursor or its ID counter:
    // "b" still gets the ID right after "a", and "s" uses its own block.
    let mut fnt = Vec::new();
    fnt.extend_from_slice(&le32(16));
    fnt.extend_from_slice(&le16(5));
    fnt.extend_from_slice(&le16(2));
    fnt.extend_from_slice(&le32(25));
    fnt.extend_from_slice(&le16(9));
    fnt.extend_from_slice(&le16(0xF000));
    fnt.extend_from_slice(&[0x01, b'a']);
    fnt.extend_from_slice(&[0x81, b's', 0x01, 0xF0]);
    fnt.extend_from_slice(&[0x01, b'b']);
    fnt.push(0x00);
    fnt.extend_from_slice(&[0x01, b'c']);
    fnt.push(0x00);
    let fat = fat_bytes(&(0..10).map(|i| (4 * i, 4 * i + 4)).collect::<Vec<_>>());
    let fs = FileSystem::new(&fnt, &fat).expect("tree must decode");
    let root = &fs.dirs[0];
    assert_eq!(root.files.len(), 2);
    assert_eq!((root.files[0].id, root.files[0].path.as_slice()), (5, &b"a"[..]));
    assert_eq!((root.files[1].id, root.files[1].path.as_slice()), (6, &b"b"[..]));
    let sub = &fs.dirs[1];
    assert_eq!(sub.path, b"s");
    assert_eq!(sub.files.len(), 1);
    assert_eq!((sub.files[0].id, sub.files[0].path.as_slice()), (9, &b"s/c"[..]));
    assert_eq!(fs.overlays().len(), 5);
}

#[test]
fn every_record_is_referenced_exactly_once() {
    let fnt = two_dir_fnt();
    let fat = fat_bytes(&[(0, 4), (4, 8), (8, 12), (12, 16), (16, 21)]);
    let fs = FileSystem::new(&fnt, &fat).unwrap();
    let files = fs.files();
    let overlays = fs.overlays();
    assert_eq!(files.len() + overlays.len(), 5);
    let mut ids: Vec<u16> = files.iter().map(|f| f.id).collect();
    ids.extend(overlays.iter().map(|f| f.id));
    ids.sort_unstable();
    assert_eq!(ids, vec![0, 1, 2, 3, 4]);
}

#[test]
fn overlays_are_synthesized_below_first_file_id() {
    let fnt = two_dir_fnt();
    let fat = fat_bytes(&[(0, 4), (4, 8), (8, 12), (12, 16), (16, 21)]);
    let fs = FileSystem::new(&fnt, &fat).unwrap();
    let overlays = fs.overlays();
    assert_eq!(overlays.len(), 2);
    assert_eq!(overlays[0].id, 0);
    assert_eq!(overlays[0].path, b"overlay_0000");
    assert_eq!(overlays[0].alloc, AllocInfo { start: 0, end: 4 });
    assert_eq!(overlays[1].id, 1);
    assert_eq!(overlays[1].path, b"overlay_0001");
    assert_eq!(overlays[1].alloc, AllocInfo { start: 4, end: 8 });
}

#[test]
fn names_are_raw_bytes_not_text() {
    // Names are carried as stored, whether or not they are valid text:
    // here one name that is a two-byte UTF-8 sequence and one that is not
    // valid UTF-8 at all.
    let mut fnt = Vec::new();
    fnt.extend_from_slice(&le32(8));
    fnt.extend_from_slice(&le16(0));
    fnt.extend_from_slice(&le16(1));
    fnt.extend_from_slice(&[0x02, 0xC3, 0xA9]);
    fnt.extend_from_slice(&[0x01, 0xFF]);
    fnt.push(0x00);
    let fat = fat_bytes(&[(0, 1), (1, 2)]);
    let fs = FileSystem::new(&fnt, &fat).expect("raw names must decode");
    let files = fs.files();
    assert_eq!(files.len(), 2);
    assert_eq!(files[0].path, vec![0xC3, 0xA9]);
    assert_eq!(files[1].path, vec![0xFF]);
}

#[test]
fn truncated_tables_are_rejected() {
    assert_eq!(FileSystem::new(&[], &[]), Err(FsError::Truncated));
    assert_eq!(FileSystem::new(&[0u8; 7], &[]), Err(FsError::Truncated));
    // Claims two directories but holds bytes for less than two records.
    let mut fnt = Vec::new();
    fnt.extend_from_slice(&le32(9));
    fnt.extend_from_slice(&le16(0));
    fnt.extend_from_slice(&le16(2));
    fnt.push(0x00);
    assert_eq!(FileSystem::new(&fnt, &[]), Err(FsError::Truncated));
    // A stream that starts past the end of the region.
    let mut far = Vec::new();
    far.extend_from_slice(&le32(1000));
    far.extend_from_slice(&le16(0));
    far.extend_from_slice(&le16(1));
    assert_eq!(FileSystem::new(&far, &[]), Err(FsError::Truncated));
    // A stream that never terminates.
    let mut open_stream = Vec::new();
    open_stream.extend_from_slice(&le32(8));
    open_stream.extend_from_slice(&le16(0));
    open_stream.extend_from_slice(&le16(1));
    open_stream.extend_from_slice(&[0x01, b'x']);
    let one_record = fat_bytes(&[(0, 1)]);
    assert_eq!(FileSystem::new(&open_stream, &one_record), Err(FsError::Truncated));
}

#[test]
fn dangling_child_id_is_rejected() {
    let mut fnt = Vec::new();
    fnt.extend_from_slice(&le32(8));
    fnt.extend_from_slice(&le16(0));
    fnt.extend_from_slice(&le16(1));
    // Subdirectory entry naming an ID with no record.
    fnt.extend_from_slice(&[0x81, b'q', 0x05, 0xF0]);
    fnt.push(0x00);
    assert_eq!(FileSystem::new(&fnt, &[]), Err(FsError::UnknownDirectory));
}

#[test]
fn directory_cycle_is_rejected() {
    // The root's stream links back to the root itself.
    let mut fnt = Vec::new();
    fnt.extend_from_slice(&le32(8));
    fnt.extend_from_slice(&le16(0));
    fnt.extend_from_slice(&le16(1));
    fnt.extend_from_slice(&[0x81, b'q', 0x00, 0xF0]);
    fnt.push(0x00);
    assert_eq!(FileSystem::new(&fnt, &[]), Err(FsError::DirectoryLoop));
}

#[test]
fn missing_allocation_record_is_rejected() {
    // One named file, but an empty allocation table.
    let mut fnt = Vec::new();
    fnt.extend_from_slice(&le32(8));
    fnt.extend_from_slice(&le16(0));
    fnt.extend_from_slice(&le16(1));
    fnt.extend_from_slice(&[0x01, b'x']);
    fnt.push(0x00);
    assert_eq!(FileSystem::new(&fnt, &[]), Err(FsError::MissingAlloc));
    // An overlay declared by the root's first file ID but absent.
    let mut with_overlay = Vec::new();
    with_overlay.extend_from_slice(&le32(8));
    with_overlay.extend_from_slice(&le16(1));
    with_overlay.extend_from_slice(&le16(1));
    with_overlay.push(0x00);
    assert_eq!(FileSystem::new(&with_overlay, &[]), Err(FsError::MissingAlloc));
}

#[test]
fn oversized_directory_count_is_rejected() {
    // The reserved block holds 0x1000 IDs; one more is corrupt.
    let mut fnt = Vec::new();
    fnt.extend_from_slice(&le32(8));
    fnt.extend_from_slice(&le16(0));
    fnt.extend_from_slice(&le16(0x1001));
    assert_eq!(FileSystem::new(&fnt, &[]), Err(FsError::TooManyDirectories));
}

#[test]
fn file_id_overflow_is_rejected() {
    // The root's first file ID is the last 16-bit value, so a second
    // file cannot be assigned an ID.
    let mut fnt = Vec::new();
    fnt.extend_from_slice(&le32(8));
    fnt.extend_from_slice(&le16(0xFFFF));
    fnt.extend_from_slice(&le16(1));
    fnt.extend_from_slice(&[0x01, b'a']);
    fnt.extend_from_slice(&[0x01, b'b']);
    fnt.push(0x00);
    let fat = vec![0u8; 0x10000 * 8];
    assert_eq!(FileSystem::new(&fnt, &fat), Err(FsError::TooManyFiles));
}

#[test]
fn directory_entry_accessors() {
    let mut record = Vec::new();
    record.extend_from_slice(&le32(0x1234));
    record.extend_from_slice(&le16(7));
    record.extend_from_slice(&le16(0xF000));
    let mut dir = Directory::new(&record, 0, 0xF002);
    assert_eq!(dir.offset(), 0x1234);
    assert_eq!(dir.id(), 0xF002);
    assert_eq!(dir.start_id(), 7);
    assert_eq!(dir.parent_id(), 0xF000);
    assert!(!dir.is_root());

    let root = Directory::new(&record, 0, ROOT_ID);
    assert!(root.is_root());
    assert_eq!(root.parent_id(), ROOT_ID);

    dir.set_path(b"top/inner");
    assert_eq!(dir.path, b"top/inner");
    let a = FileEntry::new(7, b"top/inner/a", AllocInfo { start: 1, end: 2 });
    let b = FileEntry::new(8, b"top/inner/b", AllocInfo { start: 2, end: 3 });
    let c = FileEntry::new(9, b"top/inner/c", AllocInfo { start: 3, end: 4 });
    dir.append_file(a.clone());
    dir.append_files(&[b.clone(), c.clone()]);
    assert_eq!(dir.files, vec![a, b, c]);
}

#[test]
fn text_helpers_join_and_trim() {
    assert_eq!(nds::text::path_join(b"", b"a"), b"a");
    assert_eq!(nds::text::path_join(b"a", b"b"), b"a/b");
    assert_eq!(nds::text::path_join(b"a/b", b"c.bin"), b"a/b/c.bin");
    assert_eq!(nds::text::path_join(b"x", &[0xFF]), vec![b'x', b'/', 0xFF]);
    assert_eq!(nds::text::overlay_name(0), b"overlay_0000");
    assert_eq!(nds::text::overlay_name(42), b"overlay_0042");
    assert_eq!(nds::text::overlay_name(9999), b"overlay_9999");
    assert_eq!(nds::text::overlay_name(12345), b"overlay_12345");
    assert_eq!(nds::text::overlay_name(65535), b"overlay_65535");
    assert_eq!(nds::text::trim_chars("  ABC  "), "ABC");
    assert_eq!(nds::text::trim_chars("\t a b \n"), "a b");
    assert_eq!(nds::text::trim_chars("\u{3000}x\u{00A0}"), "x");
    assert_eq!(nds::text::trim_chars("\u{200B}y"), "\u{200B}y");
    assert_eq!(nds::text::trim_chars("   "), "");
    assert_eq!(nds::text::trim_chars(""), "");
    assert_eq!(nds::text::trim_chars("x"), "x");
}

//! Tests for image validation and the extraction plan.

use std::collections::HashMap;

use nds::extract::{finish_batch, file_jobs, overlay_jobs, ExtractError, Extractor, WriteFailure};
use nds::fs::FsError;

fn put_u32(img: &mut [u8], at: usize, v: u32) {
    img[at..at + 4].copy_from_slice(&v.to_le_bytes());
}

fn put_u16(img: &mut [u8], at: usize, v: u16) {
    img[at..at + 2].copy_from_slice(&v.to_le_bytes());
}

fn seal_checksum(img: &mut [u8]) {
    let crc = nds::crc16(&img[..0x15E]);
    put_u16(img, 0x15E, crc);
}

/// A minimal image: a 0x200-byte header block, a 16-byte binary for each
/// processor, then the given FNT and FAT regions and a data region.
fn build_image(fnt: &[u8], fat: &[u8], data_region: &[u8]) -> Vec<u8> {
    let mut img = vec![0u8; 0x200];
    put_u32(&mut img, 0x84, 0x200); // header block length
    put_u32(&mut img, 0x20, 0x200); // processor A offset
    put_u32(&mut img, 0x2C, 16); // processor A length
    put_u32(&mut img, 0x30, 0x210); // processor B offset
    put_u32(&mut img, 0x3C, 16); // processor B length
    let fnt_off = 0x220u32;
    put_u32(&mut img, 0x40, fnt_off);
    put_u32(&mut img, 0x44, fnt.len() as u32);
    let fat_off = fnt_off + fnt.len() as u32;
    put_u32(&mut img, 0x48, fat_off);
    put_u32(&mut img, 0x4C, fat.len() as u32);
    seal_checksum(&mut img);
    img.extend((0..16).map(|i| 0xA0u8 + i)); // processor A bytes
    img.extend((0..16).map(|i| 0xB0u8 + i)); // processor B bytes
    img.extend_from_slice(fnt);
    img.extend_from_slice(fat);
    img.extend_from_slice(data_region);
    img
}

/// An FNT with only an empty root directory.
fn root_only_fnt() -> Vec<u8> {
    let mut fnt = Vec::new();
    fnt.extend_from_slice(&8u32.to_le_bytes());
    fnt.extend_from_slice(&0u16.to_le_bytes());
    fnt.extend_from_slice(&1u16.to_le_bytes());
    fnt.push(0x00);
    fnt
}

/// An FNT whose root holds the named files, IDs from zero.
fn flat_fnt(names: &[&str]) -> Vec<u8> {
    let mut fnt = Vec::new();
    fnt.extend_from_slice(&8u32.to_le_bytes());
    fnt.extend_from_slice(&0u16.to_le_bytes());
    fnt.extend_from_slice(&1u16.to_le_bytes());
    for name in names {
        fnt.push(name.len() as u8);
        fnt.extend_from_slice(name.as_bytes());
    }
    fnt.push(0x00);
    fnt
}

fn fat_bytes(records: &[(u32, u32)]) -> Vec<u8> {
    let mut out = Vec::new();
    for (s, e) in records {
        out.extend_from_slice(&s.to_le_bytes());
        out.extend_from_slice(&e.to_le_bytes());
    }
    out
}

#[test]
fn minimum_size_boundary() {
    let mut img = vec![0u8; 0x160];
    put_u32(&mut img, 0x84, 0x160);
    seal_checksum(&mut img);
    assert!(Extractor::new(&img, false).is_ok());
    assert!(Extractor::new(&img, true).is_ok());
    assert_eq!(
        Extractor::new(&img[..0x15F], false).unwrap_err(),
        ExtractError::NotEnoughData
    );

    // At the exact minimum the header-only ranges still resolve.
    let ex = Extractor::new(&img, true).unwrap();
    let jobs = ex.fixed_jobs().expect("fixed ranges fit");
    assert_eq!(jobs.len(), 3);
    assert_eq!(jobs[0].path, b"header.bin");
    assert_eq!((jobs[0].start, jobs[0].end), (0, 0x160));
    assert_eq!(ex.job_bytes(&jobs[0]).unwrap(), img);
}

#[test]
fn stored_checksum_is_verified_on_request() {
    let mut img = vec![0u8; 0x160];
    put_u32(&mut img, 0x84, 0x160);
    seal_checksum(&mut img);
    assert!(Extractor::new(&img, true).is_ok());

    let mut bad = img.clone();
    bad[0x17] ^= 0x04;
    assert_eq!(
        Extractor::new(&bad, true).unwrap_err(),
        ExtractError::InvalidChecksum
    );
    // Skipping verification accepts the mismatch.
    assert!(Extractor::new(&bad, false).is_ok());
}

#[test]
fn end_to_end_plan_for_minimal_image() {
    let img = build_image(&root_only_fnt(), &[], &[]);
    let ex = Extractor::new(&img, true).expect("image is valid");

    let jobs = ex.fixed_jobs().expect("fixed ranges fit");
    assert_eq!(jobs.len(), 3);
    assert_eq!(jobs[0].path, b"header.bin");
    assert_eq!((jobs[0].start, jobs[0].end), (0, 0x200));
    assert_eq!(ex.job_bytes(&jobs[0]).unwrap(), img[..0x200].to_vec());
    assert_eq!(jobs[1].path, b"arm9.bin");
    assert_eq!((jobs[1].start, jobs[1].end), (0x200, 0x210));
    assert_eq!(ex.job_bytes(&jobs[1]).unwrap(), img[0x200..0x210].to_vec());
    assert_eq!(jobs[2].path, b"arm7.bin");
    assert_eq!((jobs[2].start, jobs[2].end), (0x210, 0x220));
    assert_eq!(ex.job_bytes(&jobs[2]).unwrap(), img[0x210..0x220].to_vec());

    // Both table regions end exactly at the image end here, which fits.
    assert!(ex.fnt_region().is_ok());
    assert!(ex.fat_region().is_ok());
    let fs = ex.file_system().expect("tables decode");
    assert_eq!(fs.count(), 1);
    assert_eq!(fs.start_id(), 0);
    assert!(fs.files().is_empty());
    assert!(fs.overlays().is_empty());
    assert!(overlay_jobs(&fs).is_empty());
    assert!(file_jobs(&fs).is_empty());
}

#[test]
fn partial_failure_reports_exactly_the_bad_entry() {
    // Three files; the middle one's record runs past the end of the image.
    let fnt = flat_fnt(&["f0", "f1", "f2"]);
    let data_at = (0x220 + fnt.len() + 24) as u32;
    let fat = fat_bytes(&[
        (data_at, data_at + 4),
        (data_at + 4, 0x0FFF_0000),
        (data_at + 8, data_at + 12),
    ]);
    let img = build_image(&fnt, &fat, &[1, 2, 3, 4, 5, 6, 7, 8, 9, 10, 11, 12]);
    let ex = Extractor::new(&img, true).unwrap();
    let fs = ex.file_system().unwrap();
    let jobs = file_jobs(&fs);
    assert_eq!(jobs.len(), 3);

    let mut written: HashMap<Vec<u8>, Vec<u8>> = HashMap::new();
    let mut failures: Vec<WriteFailure> = Vec::new();
    for job in &jobs {
        match ex.job_bytes(job) {
            Ok(bytes) => {
                written.insert(job.path.clone(), bytes);
            }
            Err(_) => failures.push(WriteFailure {
                path: String::from_utf8(job.path.clone()).unwrap(),
                message: String::from("source range outside the image"),
            }),
        }
    }
    assert_eq!(written.len(), 2);
    assert_eq!(written[b"data/f0".as_slice()], vec![1, 2, 3, 4]);
    assert_eq!(written[b"data/f2".as_slice()], vec![9, 10, 11, 12]);

    match finish_batch(failures) {
        Err(ExtractError::WriteError(list)) => {
            assert_eq!(list.len(), 1);
            assert_eq!(list[0].path, "data/f1");
        }
        other => panic!("expected an aggregated write error, got {other:?}"),
    }
    assert!(finish_batch(Vec::new()).is_ok());
}

#[test]
fn overlay_plan_uses_synthesized_names() {
    // Root's first file ID is 2, so records 0 and 1 are overlays.
    let mut fnt = Vec::new();
    fnt.extend_from_slice(&8u32.to_le_bytes());
    fnt.extend_from_slice(&2u16.to_le_bytes());
    fnt.extend_from_slice(&1u16.to_le_bytes());
    fnt.push(0x00);
    let fat = fat_bytes(&[(0x200, 0x204), (0x204, 0x210)]);
    let img = build_image(&fnt, &fat, &[]);
    let ex = Extractor::new(&img, true).unwrap();
    let fs = ex.file_system().unwrap();
    let jobs = overlay_jobs(&fs);
    assert_eq!(jobs.len(), 2);
    assert_eq!(jobs[0].path, b"overlay/overlay_0000");
    assert_eq!((jobs[0].start, jobs[0].end), (0x200, 0x204));
    assert_eq!(jobs[1].path, b"overlay/overlay_0001");
    assert_eq!(ex.job_bytes(&jobs[0]).unwrap(), img[0x200..0x204].to_vec());
}

#[test]
fn corrupt_tables_surface_structure_errors() {
    // A FAT region whose length is not a multiple of the record size.
    let mut img = build_image(&root_only_fnt(), &[0u8; 7], &[]);
    seal_checksum(&mut img);
    let ex = Extractor::new(&img, false).unwrap();
    assert_eq!(
        ex.file_system().unwrap_err(),
        ExtractError::Structure(FsError::InvalidFatLen)
    );

    // Table regions pointing past the end of the image.
    let mut far = vec![0u8; 0x160];
    put_u32(&mut far, 0x40, 0x1000);
    let ex = Extractor::new(&far, false).unwrap();
    assert_eq!(ex.file_system().unwrap_err(), ExtractError::NotEnoughData);
}

#[test]
fn job_bytes_rejects_inverted_and_oversized_ranges() {
    let mut img = vec![0u8; 0x160];
    put_u32(&mut img, 0x84, 0x160);
    let ex = Extractor::new(&img, false).unwrap();
    let inverted = nds::extract::Job {
        path: b"x".to_vec(),
        start: 10,
        end: 5,
    };
    assert_eq!(ex.job_bytes(&inverted).unwrap_err(), ExtractError::NotEnoughData);
    let oversized = nds::extract::Job {
        path: b"y".to_vec(),
        start: 0,
        end: 0x161,
    };
    assert_eq!(ex.job_bytes(&oversized).unwrap_err(), ExtractError::NotEnoughData);
    let whole = nds::extract::Job {
        path: b"z".to_vec(),
        start: 0,
        end: 0x160,
    };
    assert_eq!(ex.job_bytes(&whole).unwrap(), img);
}

//! Extraction planning for a whole image: validates the image, locates the
//! table regions, and turns the decoded filesystem into a list of byte-range
//! copy jobs with relative destination paths.
//!
//! The caller materializes the plan: it copies each job's byte range (taken
//! with [`Extractor::job_bytes`], which checks the range) to the job's path,
//! collects per-job failures without stopping the batch, and closes the
//! batch with [`finish_batch`].

use vstd::prelude::*;

use crate::bytes::{le16, le32, read_le32};
use crate::fs::fnt::FileEntryV;
use crate::fs::{fs_decoded, spec_all_files, FileSystem, FsError};
use crate::text::{path_join, spec_path_join};
use crate::util::crc::{crc16, spec_crc16};

verus! {

/// Header offset of the processor-A code range.
pub const ARM9_OFFSET: usize = 0x20;

/// Header offset of the processor-A code length.
pub const ARM9_LEN: usize = 0x2C;

/// Header offset of the processor-B code range.
pub const ARM7_OFFSET: usize = 0x30;

/// Header offset of the processor-B code length.
pub const ARM7_LEN: usize = 0x3C;

/// Header offset of the directory-table offset.
pub const FNT_OFFSET: usize = 0x40;

/// Header offset of the directory-table length.
pub const FNT_LEN: usize = 0x44;

/// Header offset of the allocation-table offset.
pub const FAT_OFFSET: usize = 0x48;

/// Header offset of the allocation-table length.
pub const FAT_LEN: usize = 0x4C;

/// Header offset of the header block length.
pub const HEADER_SIZE: usize = 0x84;

/// Number of bytes covered by the header checksum.
pub const CHECKSUM_REGION_END: usize = 0x15E;

/// The smallest acceptable image: the boot header plus its trailing
/// checksum.
pub const MIN_IMAGE_LEN: usize = 0x160;

/// One failed write, reported by the caller that ran a batch: the
/// destination path and what went wrong there.
#[derive(Clone, Debug, Eq, PartialEq)]
pub struct WriteFailure {
    /// Relative destination path of the entry that failed.
    pub path: String,
    /// Description of the underlying failure.
    pub message: String,
}

/// Why validation, planning, or a byte-range copy failed.
#[derive(Clone, Debug, Eq, PartialEq)]
pub enum ExtractError {
    /// A required byte range does not fit inside the image.
    NotEnoughData,
    /// The stored header checksum does not match the header bytes.
    InvalidChecksum,
    /// The filesystem tables are corrupt.
    Structure(FsError),
    /// Some writes of a batch failed; every failure is listed.
    WriteError(Vec<WriteFailure>),
}

/// The mathematical content of a [`Job`].
pub struct JobV {
    pub path: Seq<u8>,
    pub start: u64,
    pub end: u64,
}

/// One planned copy: the bytes `[start, end)` of the image go to the
/// relative destination `path`, a byte path of raw name components
/// joined with `/`.
#[derive(Clone, Debug, Eq, PartialEq)]
pub struct Job {
    /// Relative destination path, as raw bytes.
    pub path: Vec<u8>,
    /// First byte of the source range.
    pub start: u64,
    /// One past the last byte of the source range.
    pub end: u64,
}

impl View for Job {
    type V = JobV;

    open spec fn view(&self) -> JobV {
        JobV { path: self.path@, start: self.start, end: self.end }
    }
}

/// The job that copies the byte range of `f` under the directory `prefix`.
pub open spec fn job_of(prefix: Seq<u8>, f: FileEntryV) -> JobV {
    JobV {
        path: spec_path_join(prefix, f.path),
        start: f.alloc.start as u64,
        end: f.alloc.end as u64,
    }
}

/// The destination file name of the raw header block.
pub open spec fn spec_header_name() -> Seq<u8> {
    seq![0x68, 0x65, 0x61, 0x64, 0x65, 0x72, 0x2e, 0x62, 0x69, 0x6e]
}

/// The destination file name of the processor-A binary.
pub open spec fn spec_arm9_name() -> Seq<u8> {
    seq![0x61, 0x72, 0x6d, 0x39, 0x2e, 0x62, 0x69, 0x6e]
}

/// The destination file name of the processor-B binary.
pub open spec fn spec_arm7_name() -> Seq<u8> {
    seq![0x61, 0x72, 0x6d, 0x37, 0x2e, 0x62, 0x69, 0x6e]
}

/// The destination directory of the overlay entries.
pub open spec fn spec_overlay_dir() -> Seq<u8> {
    seq![0x6f, 0x76, 0x65, 0x72, 0x6c, 0x61, 0x79]
}

/// The destination directory of the named files.
pub open spec fn spec_data_dir() -> Seq<u8> {
    seq![0x64, 0x61, 0x74, 0x61]
}

fn header_name() -> (r: Vec<u8>)
    ensures
        r@ == spec_header_name(),
{
    let mut v: Vec<u8> = Vec::new();
    v.push(0x68);
    v.push(0x65);
    v.push(0x61);
    v.push(0x64);
    v.push(0x65);
    v.push(0x72);
    v.push(0x2e);
    v.push(0x62);
    v.push(0x69);
    v.push(0x6e);
    proof {
        assert(v@ =~= spec_header_name());
    }
    v
}

fn arm_name(nine: bool) -> (r: Vec<u8>)
    ensures
        r@ == if nine {
            spec_arm9_name()
        } else {
            spec_arm7_name()
        },
{
    let mut v: Vec<u8> = Vec::new();
    v.push(0x61);
    v.push(0x72);
    v.push(0x6d);
    if nine {
        v.push(0x39);
    } else {
        v.push(0x37);
    }
    v.push(0x2e);
    v.push(0x62);
    v.push(0x69);
    v.push(0x6e);
    proof {
        if nine {
            assert(v@ =~= spec_arm9_name());
        } else {
            assert(v@ =~= spec_arm7_name());
        }
    }
    v
}

fn overlay_dir() -> (r: Vec<u8>)
    ensures
        r@ == spec_overlay_dir(),
{
    let mut v: Vec<u8> = Vec::new();
    v.push(0x6f);
    v.push(0x76);
    v.push(0x65);
    v.push(0x72);
    v.push(0x6c);
    v.push(0x61);
    v.push(0x79);
    proof {
        assert(v@ =~= spec_overlay_dir());
    }
    v
}

fn data_dir() -> (r: Vec<u8>)
    ensures
        r@ == spec_data_dir(),
{
    let mut v: Vec<u8> = Vec::new();
    v.push(0x64);
    v.push(0x61);
    v.push(0x74);
    v.push(0x61);
    proof {
        assert(v@ =~= spec_data_dir());
    }
    v
}

/// Closes a batch of independent writes: a batch with no failures
/// succeeded; otherwise every collected failure is reported together.
pub fn finish_batch(failures: Vec<WriteFailure>) -> (r: Result<(), ExtractError>)
    ensures
        failures@.len() == 0 <==> r is Ok,
        failures@.len() > 0 ==> r == Err::<(), ExtractError>(ExtractError::WriteError(failures)),
{
    if failures.is_empty() {
        Ok(())
    } else {
        Err(ExtractError::WriteError(failures))
    }
}

/// Whether the fixed ranges named by the boot header (header block,
/// processor A, processor B) all fit inside an image of `data`'s length.
pub open spec fn fixed_ranges_fit(data: Seq<u8>) -> bool {
    &&& le32(data, HEADER_SIZE as int) <= data.len()
    &&& le32(data, ARM9_OFFSET as int) + le32(data, ARM9_LEN as int) <= data.len()
    &&& le32(data, ARM7_OFFSET as int) + le32(data, ARM7_LEN as int) <= data.len()
}

/// Whether the directory-table and allocation-table regions named by the
/// boot header lie inside an image of `data`'s length.  A region whose
/// last byte is the image's last byte fits.
pub open spec fn table_regions_fit(data: Seq<u8>) -> bool {
    &&& le32(data, FNT_OFFSET as int) + le32(data, FNT_LEN as int) <= data.len()
    &&& le32(data, FAT_OFFSET as int) + le32(data, FAT_LEN as int) <= data.len()
}

/// The directory-table region of the image.
pub open spec fn spec_fnt_region(data: Seq<u8>) -> Seq<u8> {
    data.subrange(
        le32(data, FNT_OFFSET as int) as int,
        le32(data, FNT_OFFSET as int) + le32(data, FNT_LEN as int),
    )
}

/// The allocation-table region of the image.
pub open spec fn spec_fat_region(data: Seq<u8>) -> Seq<u8> {
    data.subrange(
        le32(data, FAT_OFFSET as int) as int,
        le32(data, FAT_OFFSET as int) + le32(data, FAT_LEN as int),
    )
}

/// Extracts files from a NitroROM image held in memory.
#[derive(Debug)]
pub struct Extractor<'a> {
    data: &'a [u8],
}

impl<'a> View for Extractor<'a> {
    type V = Seq<u8>;

    closed spec fn view(&self) -> Seq<u8> {
        self.data@
    }
}

impl<'a> Extractor<'a> {
    /// Accepts an image for extraction.  An image shorter than the boot
    /// header (plus checksum) is rejected outright; when `check_crc` is
    /// set, the CRC-16 of the header prefix must equal the stored
    /// little-endian checksum that follows it.
    pub fn new(data: &'a [u8], check_crc: bool) -> (r: Result<Self, ExtractError>)
        ensures
            r is Ok <==> data@.len() >= MIN_IMAGE_LEN && (check_crc ==> spec_crc16(
                data@.take(CHECKSUM_REGION_END as int),
            ) == le16(data@, CHECKSUM_REGION_END as int)),
            r is Ok ==> r.unwrap()@ == data@,
            data@.len() < MIN_IMAGE_LEN ==> r == Err::<Self, ExtractError>(
                ExtractError::NotEnoughData,
            ),
            data@.len() >= MIN_IMAGE_LEN && check_crc && spec_crc16(
                data@.take(CHECKSUM_REGION_END as int),
            ) != le16(data@, CHECKSUM_REGION_END as int) ==> r == Err::<Self, ExtractError>(
                ExtractError::InvalidChecksum,
            ),
    {
        let n = data.len();
        if n < MIN_IMAGE_LEN {
            return Err(ExtractError::NotEnoughData);
        }
        if check_crc {
            let prefix = vstd::slice::slice_subrange(data, 0, CHECKSUM_REGION_END);
            let crc = crc16(prefix);
            let stored = crate::bytes::read_le16(data, CHECKSUM_REGION_END);
            proof {
                assert(prefix@ =~= data@.take(CHECKSUM_REGION_END as int));
            }
            if crc != stored {
                return Err(ExtractError::InvalidChecksum);
            }
        }
        Ok(Extractor { data })
    }

    /// Reads the little-endian `u32` header field at `offset`.
    fn read_u32(&self, offset: usize) -> (r: u32)
        requires
            offset + 4 <= self@.len(),
        ensures
            r == le32(self@, offset as int),
    {
        read_le32(self.data, offset)
    }

    /// Plans the three fixed copies named by the boot header: the raw
    /// header block, then the two processor binaries.  Fails exactly when
    /// one of those ranges does not fit inside the image.
    pub fn fixed_jobs(&self) -> (r: Result<Vec<Job>, ExtractError>)
        requires
            self@.len() >= MIN_IMAGE_LEN,
        ensures
            r is Ok <==> fixed_ranges_fit(self@),
            r is Err ==> r == Err::<Vec<Job>, ExtractError>(ExtractError::NotEnoughData),
            r is Ok ==> {
                let jobs = r.unwrap()@;
                &&& jobs.len() == 3
                &&& jobs[0]@ == (JobV {
                    path: spec_header_name(),
                    start: 0,
                    end: le32(self@, HEADER_SIZE as int) as u64,
                })
                &&& jobs[1]@ == (JobV {
                    path: spec_arm9_name(),
                    start: le32(self@, ARM9_OFFSET as int) as u64,
                    end: (le32(self@, ARM9_OFFSET as int) + le32(
                        self@,
                        ARM9_LEN as int,
                    )) as u64,
                })
                &&& jobs[2]@ == (JobV {
                    path: spec_arm7_name(),
                    start: le32(self@, ARM7_OFFSET as int) as u64,
                    end: (le32(self@, ARM7_OFFSET as int) + le32(
                        self@,
                        ARM7_LEN as int,
                    )) as u64,
                })
            },
    {
        let n = self.data.len() as u64;
        let header_size = self.read_u32(HEADER_SIZE) as u64;
        let arm9_start = self.read_u32(ARM9_OFFSET) as u64;
        let arm9_len = self.read_u32(ARM9_LEN) as u64;
        let arm7_start = self.read_u32(ARM7_OFFSET) as u64;
        let arm7_len = self.read_u32(ARM7_LEN) as u64;
        if header_size > n || arm9_start + arm9_len > n || arm7_start + arm7_len > n {
            return Err(ExtractError::NotEnoughData);
        }
        let mut jobs: Vec<Job> = Vec::new();
        jobs.push(Job { path: header_name(), start: 0, end: header_size });
        jobs.push(Job { path: arm_name(true), start: arm9_start, end: arm9_start + arm9_len });
        jobs.push(Job { path: arm_name(false), start: arm7_start, end: arm7_start + arm7_len });
        Ok(jobs)
    }

    /// The raw directory-table region, as the boot header locates it.
    pub fn fnt_region(&self) -> (r: Result<&'a [u8], ExtractError>)
        requires
            self@.len() >= MIN_IMAGE_LEN,
        ensures
            r is Ok <==> le32(self@, FNT_OFFSET as int) + le32(self@, FNT_LEN as int)
                <= self@.len(),
            r is Ok ==> r.unwrap()@ == spec_fnt_region(self@),
            r is Err ==> r == Err::<&'a [u8], ExtractError>(ExtractError::NotEnoughData),
    {
        let n = self.data.len() as u64;
        let start = self.read_u32(FNT_OFFSET) as u64;
        let len = self.read_u32(FNT_LEN) as u64;
        if start + len > n {
            return Err(ExtractError::NotEnoughData);
        }
        Ok(vstd::slice::slice_subrange(self.data, start as usize, (start + len) as usize))
    }

    /// The raw allocation-table region, as the boot header locates it.
    pub fn fat_region(&self) -> (r: Result<&'a [u8], ExtractError>)
        requires
            self@.len() >= MIN_IMAGE_LEN,
        ensures
            r is Ok <==> le32(self@, FAT_OFFSET as int) + le32(self@, FAT_LEN as int)
                <= self@.len(),
            r is Ok ==> r.unwrap()@ == spec_fat_region(self@),
            r is Err ==> r == Err::<&'a [u8], ExtractError>(ExtractError::NotEnoughData),
    {
        let n = self.data.len() as u64;
        let start = self.read_u32(FAT_OFFSET) as u64;
        let len = self.read_u32(FAT_LEN) as u64;
        if start + len > n {
            return Err(ExtractError::NotEnoughData);
        }
        Ok(vstd::slice::slice_subrange(self.data, start as usize, (start + len) as usize))
    }

    /// Decodes the filesystem tables of the image.  On success the result
    /// is exactly the decode of the two regions the header names, as
    /// [`fs_decoded`] states.
    pub fn file_system(&self) -> (r: Result<FileSystem, ExtractError>)
        requires
            self@.len() >= MIN_IMAGE_LEN,
        ensures
            r is Ok <==> table_regions_fit(self@) && crate::fs::decode_succeeds(
                spec_fnt_region(self@),
                spec_fat_region(self@),
            ),
            r is Ok ==> table_regions_fit(self@) && fs_decoded(
                spec_fnt_region(self@),
                spec_fat_region(self@),
                r.unwrap()@,
            ),
            !table_regions_fit(self@) ==> r == Err::<FileSystem, ExtractError>(
                ExtractError::NotEnoughData,
            ),
            table_regions_fit(self@) && r is Err ==> (exists|e: FsError|
                r == Err::<FileSystem, ExtractError>(ExtractError::Structure(e))),
            table_regions_fit(self@) && spec_fnt_region(self@).len() >= 8 && le16(
                spec_fnt_region(self@),
                6,
            ) <= crate::fs::MAX_DIR_COUNT && 8 * le16(spec_fnt_region(self@), 6) <= spec_fnt_region(
                self@,
            ).len() && spec_fat_region(self@).len() % 8 != 0 ==> r == Err::<
                FileSystem,
                ExtractError,
            >(ExtractError::Structure(FsError::InvalidFatLen)),
    {
        let fnt = match self.fnt_region() {
            Ok(region) => region,
            Err(e) => {
                return Err(e);
            },
        };
        let fat = match self.fat_region() {
            Ok(region) => region,
            Err(e) => {
                return Err(e);
            },
        };
        match FileSystem::new(fnt, fat) {
            Ok(fs) => Ok(fs),
            Err(e) => Err(ExtractError::Structure(e)),
        }
    }

    /// The bytes of one planned copy.  Fails exactly when the job's range
    /// is inverted or runs past the end of the image; a bad range in one
    /// entry therefore never stops the rest of a batch.
    pub fn job_bytes(&self, job: &Job) -> (r: Result<Vec<u8>, ExtractError>)
        ensures
            r is Ok <==> job.start <= job.end && job.end <= self@.len(),
            r is Ok ==> r.unwrap()@ == self@.subrange(job.start as int, job.end as int),
            r is Err ==> r == Err::<Vec<u8>, ExtractError>(ExtractError::NotEnoughData),
    {
        let n = self.data.len();
        if job.start > job.end || job.end > n as u64 {
            return Err(ExtractError::NotEnoughData);
        }
        let piece = vstd::slice::slice_subrange(self.data, job.start as usize, job.end as usize);
        Ok(vstd::slice::slice_to_vec(piece))
    }
}

/// Plans one copy job per overlay entry, under the `overlay` directory.
pub fn overlay_jobs(fs: &FileSystem) -> (r: Vec<Job>)
    ensures
        r@.len() == fs@.overlays.len(),
        forall|k: int|
            0 <= k < r@.len() ==> (#[trigger] r@[k])@ == job_of(spec_overlay_dir(), fs@.overlays[k]),
{
    let entries = fs.overlays();
    let prefix = overlay_dir();
    let n = entries.len();
    let mut out: Vec<Job> = Vec::new();
    let mut i: usize = 0;
    while i < n
        invariant
            n == entries@.len(),
            prefix@ == spec_overlay_dir(),
            crate::fs::fnt::entries_view(entries@) == fs@.overlays,
            i <= n,
            out@.len() == i,
            forall|k: int|
                0 <= k < i ==> (#[trigger] out@[k])@ == job_of(
                    spec_overlay_dir(),
                    fs@.overlays[k],
                ),
        decreases n - i,
    {
        let e = &entries[i];
        let path = path_join(prefix.as_slice(), e.path.as_slice());
        out.push(Job { path, start: e.alloc.start as u64, end: e.alloc.end as u64 });
        proof {
            assert(crate::fs::fnt::entries_view(entries@)[i as int] == entries@[i as int]@);
            assert(fs@.overlays[i as int] == entries@[i as int]@);
        }
        i = i + 1;
    }
    out
}

/// Plans one copy job per named file, under the `data` directory.
pub fn file_jobs(fs: &FileSystem) -> (r: Vec<Job>)
    ensures
        r@.len() == spec_all_files(fs@.dirs).len(),
        forall|k: int|
            0 <= k < r@.len() ==> (#[trigger] r@[k])@ == job_of(
                spec_data_dir(),
                spec_all_files(fs@.dirs)[k],
            ),
{
    let entries = fs.files();
    let prefix = data_dir();
    let n = entries.len();
    let mut out: Vec<Job> = Vec::new();
    let mut i: usize = 0;
    while i < n
        invariant
            n == entries@.len(),
            prefix@ == spec_data_dir(),
            crate::fs::fnt::entries_view(entries@) == spec_all_files(fs@.dirs),
            i <= n,
            out@.len() == i,
            forall|k: int|
                0 <= k < i ==> (#[trigger] out@[k])@ == job_of(
                    spec_data_dir(),
                    spec_all_files(fs@.dirs)[k],
                ),
        decreases n - i,
    {
        let e = &entries[i];
        let path = path_join(prefix.as_slice(), e.path.as_slice());
        out.push(Job { path, start: e.alloc.start as u64, end: e.alloc.end as u64 });
        proof {
            assert(spec_all_files(fs@.dirs)[i as int] == crate::fs::fnt::entries_view(
                entries@,
            )[i as int]);
            assert(crate::fs::fnt::entries_view(entries@)[i as int] == entries@[i as int]@);
        }
        i = i + 1;
    }
    out
}

} // verus!

//! Decoder and extraction planner for the NitroROM cartridge-image container.
//!
//! A NitroROM image is one flat byte blob holding a boot header, two processor
//! binaries, a block of relocatable overlays, and a virtual filesystem made of
//! an allocation table (byte range per numeric file ID) and a directory table
//! (a recursive, variable-length name encoding).  This crate decodes those
//! tables into an in-memory tree and plans the extraction of every byte range
//! to a relative destination path; the caller performs the actual disk writes.

pub mod bytes;
pub mod extract;
pub mod fs;
pub mod header;
pub mod parser;
pub mod text;
pub mod util;

pub use crate::bytes::{le16, le32, le64, read_le16, read_le32, read_le64};
pub use crate::extract::Extractor;
pub use crate::util::crc::crc16;

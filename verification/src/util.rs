//! Small self-contained helpers: the header checksum.

pub mod crc;

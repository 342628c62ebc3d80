//! A verified library for hiding and retrieving data chunks in PNG files.
//!
//! The PNG container format is a fixed 8-byte signature followed by a
//! sequence of chunks, each carrying a 4-letter type code, a payload and a
//! CRC-32 checksum. This crate models that format exactly: parsing a byte
//! buffer yields an ordered chunk list, and serializing that list reproduces
//! the accepted buffer byte for byte.

pub mod chunk;
pub mod chunk_type;
pub mod codec;
pub mod crc;
pub mod encoding;
pub mod error;
pub mod png;
pub mod text;

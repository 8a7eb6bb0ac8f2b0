//! Read-only reader for a packed game-archive container.
//!
//! The archive is a single file holding a compressed index and many embedded
//! resources, some stored raw and some zstd-compressed.  This crate parses the
//! binary index, builds an in-memory filesystem model keyed by 40-bit content
//! hashes, and serves decompressed byte ranges of any contained file.

pub mod cache;
pub mod hash40;
pub mod labels;
pub mod laws;
pub mod mem_file;
pub mod model;
pub mod parser;
pub mod query;
pub mod structs;
pub mod types;
pub mod zstd_codec;

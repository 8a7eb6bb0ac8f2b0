//! Errors and query-surface value types of the reader.

use vstd::prelude::*;

use crate::mem_file::FileSlice;
use vstd::slice::slice_subrange;

verus! {

/// What exactly is wrong with the archive when a fatal or per-query
/// corruption is reported.
#[derive(Clone, Copy, Debug, PartialEq, Eq, Structural)]
pub enum CorruptKind {
    /// The magic constant at offset 0 is not the expected value.
    BadMagic,
    /// The compressed index blob did not decode to the announced size.
    IndexDecode,
    /// A table window runs past the end of its buffer; carries the offending
    /// byte offset.
    TableOverflow { offset: u64 },
    /// A compressed file's bytes did not decode, or decoded to a size other
    /// than its recorded decompressed size.
    ZstdDecode,
}

/// Failure of a query or of `open`.
#[derive(Clone, Copy, Debug, PartialEq, Eq, Structural)]
pub enum LookupError {
    /// The hash names no entry of the model.
    Missing,
    /// The hash names a directory where a file was asked for.
    NotAFile,
    /// The archive's contents are inconsistent.
    Corrupt(CorruptKind),
}

/// Whether an entry is a leaf file or a directory.
#[derive(Clone, Copy, Debug, PartialEq, Eq, Structural)]
pub enum FileKind {
    File,
    Directory,
}

/// Size and kind of an entry, as served to the filesystem driver.
#[derive(Clone, Copy, Debug, PartialEq, Eq, Structural)]
pub struct FileMetadata {
    /// Decompressed byte size; zero for directories.
    pub decomp_size: u64,
    pub kind: FileKind,
}

/// One row of a directory listing.
#[derive(Clone, Debug)]
pub struct DirEntry {
    pub hash: u64,
    pub kind: FileKind,
    /// Last path component of the child.
    pub stem: String,
}

/// How one entry of the filesystem model is stored in the archive.
#[derive(Clone, Copy)]
pub enum ArcFileInfo {
    /// Stored raw: `data` is the byte range inside the archive.
    Uncompressed { data: FileSlice<u8>, flags: u32 },
    /// Stored zstd-compressed: `data` is the compressed byte range inside the
    /// archive and `decomp_size` the size it decodes to.
    Compressed { data: FileSlice<u8>, decomp_size: u64 },
    /// A directory of the virtual tree.
    Directory,
}

/// File bytes served either as a zero-copy window into the archive or as an
/// owned decompressed buffer.
pub enum FileSliceOrVec {
    FileSlice(FileSlice<u8>),
    Owned(Vec<u8>),
}

impl FileSliceOrVec {
    /// The bytes the value stands for, given the archive the window points
    /// into.
    pub open spec fn bytes_spec(&self, archive: Seq<u8>) -> Seq<u8> {
        match self {
            FileSliceOrVec::FileSlice(fs) => archive.subrange(
                fs.base as int,
                fs.base + fs.count as int,
            ),
            FileSliceOrVec::Owned(v) => v@,
        }
    }

    /// Resolves the value to a byte slice, borrowing from `archive` for the
    /// zero-copy case.
    pub fn get_slice<'a>(&'a self, archive: &'a [u8]) -> (r: &'a [u8])
        requires
            self matches FileSliceOrVec::FileSlice(fs) ==> fs.base + fs.count <= archive@.len(),
        ensures
            r@ == self.bytes_spec(archive@),
    {
        let archive_len = archive.len();
        match self {
            FileSliceOrVec::FileSlice(fs) => slice_subrange(
                archive,
                fs.inner_ptr(),
                fs.inner_ptr() + fs.len(),
            ),
            FileSliceOrVec::Owned(v) => v.as_slice(),
        }
    }
}

} // verus!

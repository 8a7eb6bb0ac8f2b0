//! On-disk record layouts of the archive.
//!
//! Every record is stored packed and little-endian; each type states its byte
//! size and how its fields are decoded from a buffer, so that the parser can
//! project tables as `(base, count)` windows and read records on demand.

use vstd::prelude::*;

use crate::mem_file::Record;
use crate::mem_file::le16;
use crate::mem_file::le24;
use crate::mem_file::le32;
use crate::mem_file::le64;
use crate::mem_file::read_u16;
use crate::mem_file::read_u24;
use crate::mem_file::read_u32;
use crate::mem_file::read_u64;

verus! {

/// Archive header at offset 0: magic constant, section offsets, and the
/// offset of the compressed index blob (`file_system`).
#[derive(Clone, Copy, PartialEq, Eq, Structural, Debug)]
pub struct ArcHeader {
    pub magic: u64,
    pub music_section_offset: u64,
    pub file_section_offset: u64,
    pub shared_section_offset: u64,
    pub file_system: u64,
    pub unk_section_offset: u64,
}

impl Record for ArcHeader {
    open spec fn size_spec() -> nat {
        48
    }

    proof fn size_pos() {
    }

    open spec fn decode_spec(b: Seq<u8>, off: int) -> ArcHeader {
        ArcHeader {
            magic: le64(b, off),
            music_section_offset: le64(b, off + 8),
            file_section_offset: le64(b, off + 16),
            shared_section_offset: le64(b, off + 24),
            file_system: le64(b, off + 32),
            unk_section_offset: le64(b, off + 40),
        }
    }

    fn record_size() -> usize {
        48
    }

    fn decode(buf: &[u8], off: usize) -> ArcHeader {
        let buf_len = buf.len();
        ArcHeader {
            magic: read_u64(buf, off),
            music_section_offset: read_u64(buf, off + 8),
            file_section_offset: read_u64(buf, off + 16),
            shared_section_offset: read_u64(buf, off + 24),
            file_system: read_u64(buf, off + 32),
            unk_section_offset: read_u64(buf, off + 40),
        }
    }
}

/// Header of the zstd-compressed index blob.
#[derive(Clone, Copy, PartialEq, Eq, Structural, Debug)]
pub struct CompTableHeader {
    pub header_size: u32,
    pub decomp_size: u32,
    pub comp_size: u32,
    pub section_size: u32,
}

impl Record for CompTableHeader {
    open spec fn size_spec() -> nat {
        16
    }

    proof fn size_pos() {
    }

    open spec fn decode_spec(b: Seq<u8>, off: int) -> CompTableHeader {
        CompTableHeader {
            header_size: le32(b, off),
            decomp_size: le32(b, off + 4),
            comp_size: le32(b, off + 8),
            section_size: le32(b, off + 12),
        }
    }

    fn record_size() -> usize {
        16
    }

    fn decode(buf: &[u8], off: usize) -> CompTableHeader {
        let buf_len = buf.len();
        CompTableHeader {
            header_size: read_u32(buf, off),
            decomp_size: read_u32(buf, off + 4),
            comp_size: read_u32(buf, off + 8),
            section_size: read_u32(buf, off + 12),
        }
    }
}

/// Flat run of counts for every table of the compressed file-system
/// description; stands at the start of the decompressed index.
#[derive(Clone, Copy, PartialEq, Eq, Structural, Debug)]
pub struct FileSystemHeader {
    pub table_filesize: u32,
    pub file_info_path_count: u32,
    pub file_info_index_count: u32,
    pub folder_count: u32,
    pub folder_offset_count_1: u32,
    pub hash_folder_count: u32,
    pub file_info_count: u32,
    pub file_info_sub_index_count: u32,
    pub sub_file_count: u32,
    pub folder_offset_count_2: u32,
    pub sub_file_count_2: u32,
    pub padding: u32,
    pub unk1_10: u32,
    pub unk2_10: u32,
    pub regional_count_1: u8,
    pub regional_count_2: u8,
    pub padding2: u16,
    pub version: u32,
    pub extra_folder: u32,
    pub extra_count: u32,
    pub unk_a: u32,
    pub unk_b: u32,
    pub extra_count_2: u32,
    pub extra_sub_count: u32,
}

impl Record for FileSystemHeader {
    open spec fn size_spec() -> nat {
        88
    }

    proof fn size_pos() {
    }

    open spec fn decode_spec(b: Seq<u8>, off: int) -> FileSystemHeader {
        FileSystemHeader {
            table_filesize: le32(b, off),
            file_info_path_count: le32(b, off + 4),
            file_info_index_count: le32(b, off + 8),
            folder_count: le32(b, off + 12),
            folder_offset_count_1: le32(b, off + 16),
            hash_folder_count: le32(b, off + 20),
            file_info_count: le32(b, off + 24),
            file_info_sub_index_count: le32(b, off + 28),
            sub_file_count: le32(b, off + 32),
            folder_offset_count_2: le32(b, off + 36),
            sub_file_count_2: le32(b, off + 40),
            padding: le32(b, off + 44),
            unk1_10: le32(b, off + 48),
            unk2_10: le32(b, off + 52),
            regional_count_1: b[off + 56],
            regional_count_2: b[off + 57],
            padding2: le16(b, off + 58),
            version: le32(b, off + 60),
            extra_folder: le32(b, off + 64),
            extra_count: le32(b, off + 68),
            unk_a: le32(b, off + 72),
            unk_b: le32(b, off + 76),
            extra_count_2: le32(b, off + 80),
            extra_sub_count: le32(b, off + 84),
        }
    }

    fn record_size() -> usize {
        88
    }

    fn decode(buf: &[u8], off: usize) -> FileSystemHeader {
        let buf_len = buf.len();
        FileSystemHeader {
            table_filesize: read_u32(buf, off),
            file_info_path_count: read_u32(buf, off + 4),
            file_info_index_count: read_u32(buf, off + 8),
            folder_count: read_u32(buf, off + 12),
            folder_offset_count_1: read_u32(buf, off + 16),
            hash_folder_count: read_u32(buf, off + 20),
            file_info_count: read_u32(buf, off + 24),
            file_info_sub_index_count: read_u32(buf, off + 28),
            sub_file_count: read_u32(buf, off + 32),
            folder_offset_count_2: read_u32(buf, off + 36),
            sub_file_count_2: read_u32(buf, off + 40),
            padding: read_u32(buf, off + 44),
            unk1_10: read_u32(buf, off + 48),
            unk2_10: read_u32(buf, off + 52),
            regional_count_1: buf[off + 56],
            regional_count_2: buf[off + 57],
            padding2: read_u16(buf, off + 58),
            version: read_u32(buf, off + 60),
            extra_folder: read_u32(buf, off + 64),
            extra_count: read_u32(buf, off + 68),
            unk_a: read_u32(buf, off + 72),
            unk_b: read_u32(buf, off + 76),
            extra_count_2: read_u32(buf, off + 80),
            extra_sub_count: read_u32(buf, off + 84),
        }
    }
}

/// Counts of the four streamed-entry tables; stands at offset 256 of the
/// decompressed index.
#[derive(Clone, Copy, PartialEq, Eq, Structural, Debug)]
pub struct StreamHeader {
    pub quick_dir_count: u32,
    pub stream_hash_count: u32,
    pub stream_file_index_count: u32,
    pub stream_offset_entry_count: u32,
}

impl Record for StreamHeader {
    open spec fn size_spec() -> nat {
        16
    }

    proof fn size_pos() {
    }

    open spec fn decode_spec(b: Seq<u8>, off: int) -> StreamHeader {
        StreamHeader {
            quick_dir_count: le32(b, off),
            stream_hash_count: le32(b, off + 4),
            stream_file_index_count: le32(b, off + 8),
            stream_offset_entry_count: le32(b, off + 12),
        }
    }

    fn record_size() -> usize {
        16
    }

    fn decode(buf: &[u8], off: usize) -> StreamHeader {
        let buf_len = buf.len();
        StreamHeader {
            quick_dir_count: read_u32(buf, off),
            stream_hash_count: read_u32(buf, off + 4),
            stream_file_index_count: read_u32(buf, off + 8),
            stream_offset_entry_count: read_u32(buf, off + 12),
        }
    }
}

/// Acceleration record listing a top-level stream directory.
#[derive(Clone, Copy, PartialEq, Eq, Structural, Debug)]
pub struct QuickDir {
    pub hash: u32,
    pub name_length: u8,
    pub count: u32,
    pub index: u32,
}

impl Record for QuickDir {
    open spec fn size_spec() -> nat {
        12
    }

    proof fn size_pos() {
    }

    open spec fn decode_spec(b: Seq<u8>, off: int) -> QuickDir {
        QuickDir {
            hash: le32(b, off),
            name_length: b[off + 4],
            count: le24(b, off + 5),
            index: le32(b, off + 8),
        }
    }

    fn record_size() -> usize {
        12
    }

    fn decode(buf: &[u8], off: usize) -> QuickDir {
        let buf_len = buf.len();
        QuickDir {
            hash: read_u32(buf, off),
            name_length: buf[off + 4],
            count: read_u24(buf, off + 5),
            index: read_u32(buf, off + 8),
        }
    }
}

/// One streamed (raw) file: a 40-bit path hash split over `hash` and
/// `name_length`, and an index into the stream-file-index table.
#[derive(Clone, Copy, PartialEq, Eq, Structural, Debug)]
pub struct StreamEntry {
    pub hash: u32,
    pub name_length: u8,
    pub index: u32,
    pub flags: u32,
}

impl Record for StreamEntry {
    open spec fn size_spec() -> nat {
        12
    }

    proof fn size_pos() {
    }

    open spec fn decode_spec(b: Seq<u8>, off: int) -> StreamEntry {
        StreamEntry {
            hash: le32(b, off),
            name_length: b[off + 4],
            index: le24(b, off + 5),
            flags: le32(b, off + 8),
        }
    }

    fn record_size() -> usize {
        12
    }

    fn decode(buf: &[u8], off: usize) -> StreamEntry {
        let buf_len = buf.len();
        StreamEntry {
            hash: read_u32(buf, off),
            name_length: buf[off + 4],
            index: read_u24(buf, off + 5),
            flags: read_u32(buf, off + 8),
        }
    }
}

/// Absolute byte range of one streamed file inside the archive.
#[derive(Clone, Copy, PartialEq, Eq, Structural, Debug)]
pub struct StreamOffsetEntry {
    pub size: u64,
    pub offset: u64,
}

impl Record for StreamOffsetEntry {
    open spec fn size_spec() -> nat {
        16
    }

    proof fn size_pos() {
    }

    open spec fn decode_spec(b: Seq<u8>, off: int) -> StreamOffsetEntry {
        StreamOffsetEntry {
            size: le64(b, off),
            offset: le64(b, off + 8),
        }
    }

    fn record_size() -> usize {
        16
    }

    fn decode(buf: &[u8], off: usize) -> StreamOffsetEntry {
        let buf_len = buf.len();
        StreamOffsetEntry {
            size: read_u64(buf, off),
            offset: read_u64(buf, off + 8),
        }
    }
}

/// Path, extension, parent and file-name hash groups of one file.
#[derive(Clone, Copy, PartialEq, Eq, Structural, Debug)]
pub struct FileInformationPath {
    pub path: HashIndexGroup,
    pub ext: HashIndexGroup,
    pub parent: HashIndexGroup,
    pub file_name: HashIndexGroup,
}

impl Record for FileInformationPath {
    open spec fn size_spec() -> nat {
        32
    }

    proof fn size_pos() {
    }

    open spec fn decode_spec(b: Seq<u8>, off: int) -> FileInformationPath {
        FileInformationPath {
            path: HashIndexGroup::decode_spec(b, off),
            ext: HashIndexGroup::decode_spec(b, off + 8),
            parent: HashIndexGroup::decode_spec(b, off + 16),
            file_name: HashIndexGroup::decode_spec(b, off + 24),
        }
    }

    fn record_size() -> usize {
        32
    }

    fn decode(buf: &[u8], off: usize) -> FileInformationPath {
        let buf_len = buf.len();
        FileInformationPath {
            path: HashIndexGroup::decode(buf, off),
            ext: HashIndexGroup::decode(buf, off + 8),
            parent: HashIndexGroup::decode(buf, off + 16),
            file_name: HashIndexGroup::decode(buf, off + 24),
        }
    }
}

/// Redirect target: where a redirected `FileInfo2` finds its real entry.
#[derive(Clone, Copy, PartialEq, Eq, Structural, Debug)]
pub struct FileInformationIndex {
    pub dir_offset_index: u32,
    pub file_info_index: u32,
}

impl Record for FileInformationIndex {
    open spec fn size_spec() -> nat {
        8
    }

    proof fn size_pos() {
    }

    open spec fn decode_spec(b: Seq<u8>, off: int) -> FileInformationIndex {
        FileInformationIndex {
            dir_offset_index: le32(b, off),
            file_info_index: le32(b, off + 4),
        }
    }

    fn record_size() -> usize {
        8
    }

    fn decode(buf: &[u8], off: usize) -> FileInformationIndex {
        let buf_len = buf.len();
        FileInformationIndex {
            dir_offset_index: read_u32(buf, off),
            file_info_index: read_u32(buf, off + 4),
        }
    }
}

/// Folder-related record kept for layout completeness; the reader does not
/// consume it.
#[derive(Clone, Copy, PartialEq, Eq, Structural, Debug)]
pub struct SomeFolderThing {
    pub hash: u32,
    pub unk: u8,
    pub index: u16,
    pub padding: u8,
}

impl Record for SomeFolderThing {
    open spec fn size_spec() -> nat {
        8
    }

    proof fn size_pos() {
    }

    open spec fn decode_spec(b: Seq<u8>, off: int) -> SomeFolderThing {
        SomeFolderThing {
            hash: le32(b, off),
            unk: b[off + 4],
            index: le16(b, off + 5),
            padding: b[off + 7],
        }
    }

    fn record_size() -> usize {
        8
    }

    fn decode(buf: &[u8], off: usize) -> SomeFolderThing {
        let buf_len = buf.len();
        SomeFolderThing {
            hash: read_u32(buf, off),
            unk: buf[off + 4],
            index: read_u16(buf, off + 5),
            padding: buf[off + 7],
        }
    }
}

/// On-disk form of a 40-bit path hash: 32 hash bits plus the path length
/// byte, padded to eight bytes.
#[derive(Clone, Copy, PartialEq, Eq, Structural, Debug)]
pub struct Hash40 {
    pub hash: u32,
    pub length: u8,
}

impl Record for Hash40 {
    open spec fn size_spec() -> nat {
        8
    }

    proof fn size_pos() {
    }

    open spec fn decode_spec(b: Seq<u8>, off: int) -> Hash40 {
        Hash40 {
            hash: le32(b, off),
            length: b[off + 4],
        }
    }

    fn record_size() -> usize {
        8
    }

    fn decode(buf: &[u8], off: usize) -> Hash40 {
        let buf_len = buf.len();
        Hash40 {
            hash: read_u32(buf, off),
            length: buf[off + 4],
        }
    }
}

/// One directory of the compressed file-system description.
#[derive(Clone, Copy, PartialEq, Eq, Structural, Debug)]
pub struct DirectoryInfo {
    pub path_hash: u32,
    pub dir_offset_index: u32,
    pub name: Hash40,
    pub parent: Hash40,
    pub extra_dis_re: u32,
    pub extra_dis_re_length: u32,
    pub file_name_start_index: u32,
    pub file_info_count: u32,
    pub child_dir_start_index: u32,
    pub child_dir_count: u32,
    pub flags: u32,
}

impl Record for DirectoryInfo {
    open spec fn size_spec() -> nat {
        52
    }

    proof fn size_pos() {
    }

    open spec fn decode_spec(b: Seq<u8>, off: int) -> DirectoryInfo {
        DirectoryInfo {
            path_hash: le32(b, off),
            dir_offset_index: le32(b, off + 4),
            name: Hash40::decode_spec(b, off + 8),
            parent: Hash40::decode_spec(b, off + 16),
            extra_dis_re: le32(b, off + 24),
            extra_dis_re_length: le32(b, off + 28),
            file_name_start_index: le32(b, off + 32),
            file_info_count: le32(b, off + 36),
            child_dir_start_index: le32(b, off + 40),
            child_dir_count: le32(b, off + 44),
            flags: le32(b, off + 48),
        }
    }

    fn record_size() -> usize {
        52
    }

    fn decode(buf: &[u8], off: usize) -> DirectoryInfo {
        let buf_len = buf.len();
        DirectoryInfo {
            path_hash: read_u32(buf, off),
            dir_offset_index: read_u32(buf, off + 4),
            name: Hash40::decode(buf, off + 8),
            parent: Hash40::decode(buf, off + 16),
            extra_dis_re: read_u32(buf, off + 24),
            extra_dis_re_length: read_u32(buf, off + 28),
            file_name_start_index: read_u32(buf, off + 32),
            file_info_count: read_u32(buf, off + 36),
            child_dir_start_index: read_u32(buf, off + 40),
            child_dir_count: read_u32(buf, off + 44),
            flags: read_u32(buf, off + 48),
        }
    }
}

/// Base offset and sizes of one directory's data run inside the archive.
#[derive(Clone, Copy, PartialEq, Eq, Structural, Debug)]
pub struct DirectoryOffsets {
    pub offset: u64,
    pub decomp_size: u32,
    pub size: u32,
    pub sub_data_start_index: u32,
    pub sub_data_count: u32,
    pub resource_index: u32,
}

impl Record for DirectoryOffsets {
    open spec fn size_spec() -> nat {
        28
    }

    proof fn size_pos() {
    }

    open spec fn decode_spec(b: Seq<u8>, off: int) -> DirectoryOffsets {
        DirectoryOffsets {
            offset: le64(b, off),
            decomp_size: le32(b, off + 8),
            size: le32(b, off + 12),
            sub_data_start_index: le32(b, off + 16),
            sub_data_count: le32(b, off + 20),
            resource_index: le32(b, off + 24),
        }
    }

    fn record_size() -> usize {
        28
    }

    fn decode(buf: &[u8], off: usize) -> DirectoryOffsets {
        let buf_len = buf.len();
        DirectoryOffsets {
            offset: read_u64(buf, off),
            decomp_size: read_u32(buf, off + 8),
            size: read_u32(buf, off + 12),
            sub_data_start_index: read_u32(buf, off + 16),
            sub_data_count: read_u32(buf, off + 20),
            resource_index: read_u32(buf, off + 24),
        }
    }
}

/// Folder hash paired with a count; kept for layout completeness.
#[derive(Clone, Copy, PartialEq, Eq, Structural, Debug)]
pub struct FolderHashIndex {
    pub hash: u32,
    pub count: u32,
}

impl Record for FolderHashIndex {
    open spec fn size_spec() -> nat {
        8
    }

    proof fn size_pos() {
    }

    open spec fn decode_spec(b: Seq<u8>, off: int) -> FolderHashIndex {
        FolderHashIndex {
            hash: le32(b, off),
            count: le32(b, off + 4),
        }
    }

    fn record_size() -> usize {
        8
    }

    fn decode(buf: &[u8], off: usize) -> FolderHashIndex {
        let buf_len = buf.len();
        FolderHashIndex {
            hash: read_u32(buf, off),
            count: read_u32(buf, off + 4),
        }
    }
}

/// One compressed-file entry: indices into the path, redirect and sub-index
/// tables, plus flags (bit 4 marks a redirect).
#[derive(Clone, Copy, PartialEq, Eq, Structural, Debug)]
pub struct FileInfo2 {
    pub hash_index: u32,
    pub hash_index_2: u32,
    pub sub_file_index: u32,
    pub flags: u32,
}

impl Record for FileInfo2 {
    open spec fn size_spec() -> nat {
        16
    }

    proof fn size_pos() {
    }

    open spec fn decode_spec(b: Seq<u8>, off: int) -> FileInfo2 {
        FileInfo2 {
            hash_index: le32(b, off),
            hash_index_2: le32(b, off + 4),
            sub_file_index: le32(b, off + 8),
            flags: le32(b, off + 12),
        }
    }

    fn record_size() -> usize {
        16
    }

    fn decode(buf: &[u8], off: usize) -> FileInfo2 {
        let buf_len = buf.len();
        FileInfo2 {
            hash_index: read_u32(buf, off),
            hash_index_2: read_u32(buf, off + 4),
            sub_file_index: read_u32(buf, off + 8),
            flags: read_u32(buf, off + 12),
        }
    }
}

/// Second hop of compressed-file resolution: which directory-offset record
/// and which sub-file record describe the bytes.
#[derive(Clone, Copy, PartialEq, Eq, Structural, Debug)]
pub struct FileInfoSubIndex {
    pub folder_offset_index: u32,
    pub sub_file_index: u32,
    pub file_info_index_and_flag: u32,
}

impl Record for FileInfoSubIndex {
    open spec fn size_spec() -> nat {
        12
    }

    proof fn size_pos() {
    }

    open spec fn decode_spec(b: Seq<u8>, off: int) -> FileInfoSubIndex {
        FileInfoSubIndex {
            folder_offset_index: le32(b, off),
            sub_file_index: le32(b, off + 4),
            file_info_index_and_flag: le32(b, off + 8),
        }
    }

    fn record_size() -> usize {
        12
    }

    fn decode(buf: &[u8], off: usize) -> FileInfoSubIndex {
        let buf_len = buf.len();
        FileInfoSubIndex {
            folder_offset_index: read_u32(buf, off),
            sub_file_index: read_u32(buf, off + 4),
            file_info_index_and_flag: read_u32(buf, off + 8),
        }
    }
}

/// Byte range of one compressed file relative to its directory's base;
/// `offset` is in units of four bytes.
#[derive(Clone, Copy, PartialEq, Eq, Structural, Debug)]
pub struct SubFileInfo {
    pub offset: u32,
    pub comp_size: u32,
    pub decomp_size: u32,
    pub flags: u32,
}

impl Record for SubFileInfo {
    open spec fn size_spec() -> nat {
        16
    }

    proof fn size_pos() {
    }

    open spec fn decode_spec(b: Seq<u8>, off: int) -> SubFileInfo {
        SubFileInfo {
            offset: le32(b, off),
            comp_size: le32(b, off + 4),
            decomp_size: le32(b, off + 8),
            flags: le32(b, off + 12),
        }
    }

    fn record_size() -> usize {
        16
    }

    fn decode(buf: &[u8], off: usize) -> SubFileInfo {
        let buf_len = buf.len();
        SubFileInfo {
            offset: read_u32(buf, off),
            comp_size: read_u32(buf, off + 4),
            decomp_size: read_u32(buf, off + 8),
            flags: read_u32(buf, off + 12),
        }
    }
}

/// Stream hash paired with a name index; kept for layout completeness.
#[derive(Clone, Copy, PartialEq, Eq, Structural, Debug)]
pub struct StreamHashToName {
    pub hash: u32,
    pub name_index: u32,
}

impl Record for StreamHashToName {
    open spec fn size_spec() -> nat {
        8
    }

    proof fn size_pos() {
    }

    open spec fn decode_spec(b: Seq<u8>, off: int) -> StreamHashToName {
        StreamHashToName {
            hash: le32(b, off),
            name_index: le32(b, off + 4),
        }
    }

    fn record_size() -> usize {
        8
    }

    fn decode(buf: &[u8], off: usize) -> StreamHashToName {
        let buf_len = buf.len();
        StreamHashToName {
            hash: read_u32(buf, off),
            name_index: read_u32(buf, off + 4),
        }
    }
}

/// Record of the leading unknown table of the file-system description.
#[derive(Clone, Copy, PartialEq, Eq, Structural, Debug)]
pub struct FileInformationUnknownTable {
    pub some_index: u32,
    pub some_index_2: u32,
}

impl Record for FileInformationUnknownTable {
    open spec fn size_spec() -> nat {
        8
    }

    proof fn size_pos() {
    }

    open spec fn decode_spec(b: Seq<u8>, off: int) -> FileInformationUnknownTable {
        FileInformationUnknownTable {
            some_index: le32(b, off),
            some_index_2: le32(b, off + 4),
        }
    }

    fn record_size() -> usize {
        8
    }

    fn decode(buf: &[u8], off: usize) -> FileInformationUnknownTable {
        let buf_len = buf.len();
        FileInformationUnknownTable {
            some_index: read_u32(buf, off),
            some_index_2: read_u32(buf, off + 4),
        }
    }
}

/// A 32-bit hash paired with a table index whose top byte extends the hash
/// to a 40-bit value.
#[derive(Clone, Copy, PartialEq, Eq, Structural, Debug)]
pub struct HashIndexGroup {
    pub hash: u32,
    pub index: u32,
}

impl Record for HashIndexGroup {
    open spec fn size_spec() -> nat {
        8
    }

    proof fn size_pos() {
    }

    open spec fn decode_spec(b: Seq<u8>, off: int) -> HashIndexGroup {
        HashIndexGroup {
            hash: le32(b, off),
            index: le32(b, off + 4),
        }
    }

    fn record_size() -> usize {
        8
    }

    fn decode(buf: &[u8], off: usize) -> HashIndexGroup {
        let buf_len = buf.len();
        HashIndexGroup {
            hash: read_u32(buf, off),
            index: read_u32(buf, off + 4),
        }
    }
}

impl HashIndexGroup {
    /// The 40-bit hash encoded by the pair: the 32 hash bits extended by the
    /// low byte of `index`.
    pub open spec fn hash40_spec(&self) -> u64 {
        ((self.hash as u64) + (((self.index as u64) & 0xFF) << 32)) as u64
    }

    /// Composes the 40-bit hash of the pair.
    pub fn hash40(&self) -> (r: u64)
        ensures
            r == self.hash40_spec(),
    {
        let ext: u64 = (self.index as u64) & 0xFF;
        proof {
            let e = self.index as u64;
            assert((e & 0xFF) <= 0xFF) by (bit_vector);
            assert(((e & 0xFF) << 32) <= 0xFF00000000u64) by (bit_vector);
        }
        self.hash as u64 + (ext << 32)
    }
}

} // verus!

//! Walking the archive header and carving the decompressed index into typed
//! table windows.
//!
//! Table bases are computed sequentially: each table starts where the
//! previous one ends, with every window checked against the index buffer
//! before it is handed out.  Nothing is copied; the windows are `(base,
//! count)` pairs read on demand.

use vstd::prelude::*;

use crate::mem_file::FilePtr;
use crate::mem_file::FileSlice;
use crate::mem_file::Record;
use crate::mem_file::get_header;
use crate::mem_file::le32;
use crate::mem_file::read_u32;
use crate::structs::ArcHeader;
use crate::structs::CompTableHeader;
use crate::structs::DirectoryInfo;
use crate::structs::DirectoryOffsets;
use crate::structs::FileInfo2;
use crate::structs::FileInfoSubIndex;
use crate::structs::FileInformationIndex;
use crate::structs::FileInformationPath;
use crate::structs::FileInformationUnknownTable;
use crate::structs::FileSystemHeader;
use crate::structs::HashIndexGroup;
use crate::structs::QuickDir;
use crate::structs::StreamEntry;
use crate::structs::StreamHeader;
use crate::structs::StreamOffsetEntry;
use crate::structs::SubFileInfo;
use crate::types::CorruptKind;
use crate::types::LookupError;
use crate::zstd_codec::zstd_decode;
use crate::zstd_codec::zstd_inflate;

verus! {

/// The magic constant every archive starts with.
pub const MAGIC: u64 = 0xABCDEF9876543210;

/// All table windows of one opened archive, each a `(base, count)` pair into
/// the decompressed index buffer, together with the decoded headers.
pub struct ArcInternal {
    pub arc_header: ArcHeader,
    pub fs_header: FileSystemHeader,
    pub stream_header: StreamHeader,
    pub quick_dirs: FileSlice<QuickDir>,
    pub stream_hashes: FileSlice<u64>,
    pub stream_entries: FileSlice<StreamEntry>,
    pub stream_file_indices: FileSlice<u32>,
    pub stream_offset_entries: FileSlice<StreamOffsetEntry>,
    pub file_info_unks: FileSlice<FileInformationUnknownTable>,
    pub hash_index_groups: FileSlice<HashIndexGroup>,
    pub file_info_paths: FileSlice<FileInformationPath>,
    pub file_info_indices: FileSlice<FileInformationIndex>,
    pub dir_hash_to_index: FileSlice<HashIndexGroup>,
    pub directories: FileSlice<DirectoryInfo>,
    pub folder_offsets: FileSlice<DirectoryOffsets>,
    pub folder_child_hashes: FileSlice<HashIndexGroup>,
    pub file_infos_v2: FileSlice<FileInfo2>,
    pub file_info_sub_index: FileSlice<FileInfoSubIndex>,
    pub sub_files: FileSlice<SubFileInfo>,
}

impl ArcInternal {
    /// Every table window lies inside an index buffer of `index_len` bytes.
    pub open spec fn wf(&self, index_len: nat) -> bool {
        &&& self.quick_dirs.in_bounds(index_len)
        &&& self.stream_hashes.in_bounds(index_len)
        &&& self.stream_entries.in_bounds(index_len)
        &&& self.stream_file_indices.in_bounds(index_len)
        &&& self.stream_offset_entries.in_bounds(index_len)
        &&& self.file_info_unks.in_bounds(index_len)
        &&& self.hash_index_groups.in_bounds(index_len)
        &&& self.file_info_paths.in_bounds(index_len)
        &&& self.file_info_indices.in_bounds(index_len)
        &&& self.dir_hash_to_index.in_bounds(index_len)
        &&& self.directories.in_bounds(index_len)
        &&& self.folder_offsets.in_bounds(index_len)
        &&& self.folder_child_hashes.in_bounds(index_len)
        &&& self.file_infos_v2.in_bounds(index_len)
        &&& self.file_info_sub_index.in_bounds(index_len)
        &&& self.sub_files.in_bounds(index_len)
    }

    /// The tables stand back to back in the order the format fixes, starting
    /// at byte 0x110 of the index, with every count taken from the decoded
    /// headers (and the two sentinel counts read from the buffer itself).
    pub open spec fn layout_ok(&self, index: Seq<u8>) -> bool {
        let fs = FileSystemHeader::decode_spec(index, 0);
        let sh = StreamHeader::decode_spec(index, 0x100);
        let unk_off = self.stream_offset_entries.byte_len();
        &&& self.fs_header == fs
        &&& self.stream_header == sh
        &&& self.quick_dirs.base == 0x110
        &&& self.quick_dirs.count == sh.quick_dir_count
        &&& self.stream_hashes.base == self.quick_dirs.byte_len()
        &&& self.stream_hashes.count == sh.stream_hash_count
        &&& self.stream_entries.base == self.stream_hashes.byte_len()
        &&& self.stream_entries.count == sh.stream_hash_count
        &&& self.stream_file_indices.base == self.stream_entries.byte_len()
        &&& self.stream_file_indices.count == sh.stream_file_index_count
        &&& self.stream_offset_entries.base == self.stream_file_indices.byte_len()
        &&& self.stream_offset_entries.count == sh.stream_offset_entry_count
        &&& self.file_info_unks.base == unk_off + 8
        &&& self.file_info_unks.count == le32(index, unk_off + 4)
        &&& self.hash_index_groups.base == self.file_info_unks.byte_len()
        &&& self.hash_index_groups.count == le32(index, unk_off)
        &&& self.file_info_paths.base == self.hash_index_groups.byte_len()
        &&& self.file_info_paths.count == fs.file_info_path_count
        &&& self.file_info_indices.base == self.file_info_paths.byte_len()
        &&& self.file_info_indices.count == fs.file_info_index_count
        &&& self.dir_hash_to_index.base == self.file_info_indices.byte_len()
        &&& self.dir_hash_to_index.count == fs.folder_count
        &&& self.directories.base == self.dir_hash_to_index.byte_len()
        &&& self.directories.count == fs.folder_count
        &&& self.folder_offsets.base == self.directories.byte_len()
        &&& self.folder_offsets.count == fs.folder_offset_count_1 + fs.folder_offset_count_2
            + fs.extra_folder
        &&& self.folder_child_hashes.base == self.folder_offsets.byte_len()
        &&& self.folder_child_hashes.count == fs.hash_folder_count
        &&& self.file_infos_v2.base == self.folder_child_hashes.byte_len()
        &&& self.file_infos_v2.count == fs.file_info_count + fs.sub_file_count_2 + fs.extra_count
        &&& self.file_info_sub_index.base == self.file_infos_v2.byte_len()
        &&& self.file_info_sub_index.count == fs.file_info_sub_index_count + fs.sub_file_count_2
            + fs.extra_count_2
        &&& self.sub_files.base == self.file_info_sub_index.byte_len()
        &&& self.sub_files.count == fs.sub_file_count + fs.sub_file_count_2 + fs.extra_count
    }
}

/// A table window in spec form.
pub open spec fn spec_window<T: Record>(base: int, count: int) -> FileSlice<T> {
    FileSlice { base: base as usize, count: count as usize, marker: core::marker::PhantomData }
}

/// The table windows the index dictates: every base follows from the
/// previous table's end, every count from the decoded headers.
pub open spec fn spec_internal(index: Seq<u8>, arc_header: ArcHeader) -> ArcInternal {
    let fs = FileSystemHeader::decode_spec(index, 0);
    let sh = StreamHeader::decode_spec(index, 0x100);
    let b0: int = 0x110;
    let b1 = b0 + 12 * sh.quick_dir_count;
    let b2 = b1 + 8 * sh.stream_hash_count;
    let b3 = b2 + 12 * sh.stream_hash_count;
    let b4 = b3 + 4 * sh.stream_file_index_count;
    let b5 = b4 + 16 * sh.stream_offset_entry_count;
    let n0 = le32(index, b5);
    let n1 = le32(index, b5 + 4);
    let b6 = b5 + 8;
    let b7 = b6 + 8 * n1;
    let b8 = b7 + 8 * n0;
    let b9 = b8 + 32 * fs.file_info_path_count;
    let b10 = b9 + 8 * fs.file_info_index_count;
    let b11 = b10 + 8 * fs.folder_count;
    let b12 = b11 + 52 * fs.folder_count;
    let b13 = b12 + 28 * (fs.folder_offset_count_1 + fs.folder_offset_count_2 + fs.extra_folder);
    let b14 = b13 + 8 * fs.hash_folder_count;
    let b15 = b14 + 16 * (fs.file_info_count + fs.sub_file_count_2 + fs.extra_count);
    let b16 = b15 + 12 * (fs.file_info_sub_index_count + fs.sub_file_count_2 + fs.extra_count_2);
    ArcInternal {
        arc_header,
        fs_header: fs,
        stream_header: sh,
        quick_dirs: spec_window(b0, sh.quick_dir_count as int),
        stream_hashes: spec_window(b1, sh.stream_hash_count as int),
        stream_entries: spec_window(b2, sh.stream_hash_count as int),
        stream_file_indices: spec_window(b3, sh.stream_file_index_count as int),
        stream_offset_entries: spec_window(b4, sh.stream_offset_entry_count as int),
        file_info_unks: spec_window(b6, n1 as int),
        hash_index_groups: spec_window(b7, n0 as int),
        file_info_paths: spec_window(b8, fs.file_info_path_count as int),
        file_info_indices: spec_window(b9, fs.file_info_index_count as int),
        dir_hash_to_index: spec_window(b10, fs.folder_count as int),
        directories: spec_window(b11, fs.folder_count as int),
        folder_offsets: spec_window(
            b12,
            fs.folder_offset_count_1 + fs.folder_offset_count_2 + fs.extra_folder,
        ),
        folder_child_hashes: spec_window(b13, fs.hash_folder_count as int),
        file_infos_v2: spec_window(
            b14,
            fs.file_info_count + fs.sub_file_count_2 + fs.extra_count,
        ),
        file_info_sub_index: spec_window(
            b15,
            fs.file_info_sub_index_count + fs.sub_file_count_2 + fs.extra_count_2,
        ),
        sub_files: spec_window(b16, fs.sub_file_count + fs.sub_file_count_2 + fs.extra_count),
    }
}

/// Byte offset just past the last table of the index, as the header counts
/// dictate it.  The whole layout fits the index exactly when this offset is
/// at most the index length.
pub open spec fn table_end(index: Seq<u8>) -> int {
    let fs = FileSystemHeader::decode_spec(index, 0);
    let sh = StreamHeader::decode_spec(index, 0x100);
    let unk_off = 0x110 + 12 * sh.quick_dir_count + 8 * sh.stream_hash_count + 12
        * sh.stream_hash_count + 4 * sh.stream_file_index_count + 16 * sh.stream_offset_entry_count;
    let n0 = le32(index, unk_off);
    let n1 = le32(index, unk_off + 4);
    unk_off + 8 + 8 * n1 + 8 * n0 + 32 * fs.file_info_path_count + 8 * fs.file_info_index_count + 8
        * fs.folder_count + 52 * fs.folder_count + 28 * (fs.folder_offset_count_1
        + fs.folder_offset_count_2 + fs.extra_folder) + 8 * fs.hash_folder_count + 16
        * (fs.file_info_count + fs.sub_file_count_2 + fs.extra_count) + 12
        * (fs.file_info_sub_index_count + fs.sub_file_count_2 + fs.extra_count_2) + 16
        * (fs.sub_file_count + fs.sub_file_count_2 + fs.extra_count)
}

/// Carves every table of the decompressed index.  Succeeds exactly when the
/// layout the header counts dictate fits inside the buffer; any overflow is
/// fatal corruption carrying the offending offset.
#[verifier::rlimit(60)]
pub fn project_tables(index: &[u8], arc_header: ArcHeader) -> (r: Result<ArcInternal, LookupError>)
    ensures
        r is Ok <==> table_end(index@) <= index@.len(),
        r matches Ok(t) ==> t.wf(index@.len()) && t.layout_ok(index@) && t.arc_header == arc_header
            && t == spec_internal(index@, arc_header),
        r matches Err(e) ==> e matches LookupError::Corrupt(CorruptKind::TableOverflow { .. }),
{
    let len: usize = index.len();
    let len128 = len as u128;
    if len < 0x110 {
        // The fixed headers alone do not fit; the first table base is already
        // past the end.
        return Err(LookupError::Corrupt(CorruptKind::TableOverflow { offset: 0x110 }));
    }
    let fs_header = get_header::<FileSystemHeader>().read(index);
    let stream_header = FilePtr::<StreamHeader>::new(0x100).read(index);

    let qd_count = stream_header.quick_dir_count as u128;
    let sh_count = stream_header.stream_hash_count as u128;
    let sfi_count = stream_header.stream_file_index_count as u128;
    let soe_count = stream_header.stream_offset_entry_count as u128;

    let b0: u128 = 0x110;
    let b1 = b0 + 12 * qd_count;
    let b2 = b1 + 8 * sh_count;
    let b3 = b2 + 12 * sh_count;
    let b4 = b3 + 4 * sfi_count;
    let b5 = b4 + 16 * soe_count;
    let b6 = b5 + 8;
    if b6 > len128 {
        return Err(LookupError::Corrupt(CorruptKind::TableOverflow { offset: b6 as u64 }));
    }
    let n0 = read_u32(index, b5 as usize) as u128;
    let n1 = read_u32(index, (b5 as usize) + 4) as u128;

    let fip_count = fs_header.file_info_path_count as u128;
    let fii_count = fs_header.file_info_index_count as u128;
    let folder_count = fs_header.folder_count as u128;
    let fo_count = fs_header.folder_offset_count_1 as u128
        + fs_header.folder_offset_count_2 as u128 + fs_header.extra_folder as u128;
    let fch_count = fs_header.hash_folder_count as u128;
    let fi2_count = fs_header.file_info_count as u128 + fs_header.sub_file_count_2 as u128
        + fs_header.extra_count as u128;
    let fisi_count = fs_header.file_info_sub_index_count as u128
        + fs_header.sub_file_count_2 as u128 + fs_header.extra_count_2 as u128;
    let sf_count = fs_header.sub_file_count as u128 + fs_header.sub_file_count_2 as u128
        + fs_header.extra_count as u128;

    let b7 = b6 + 8 * n1;
    let b8 = b7 + 8 * n0;
    let b9 = b8 + 32 * fip_count;
    let b10 = b9 + 8 * fii_count;
    let b11 = b10 + 8 * folder_count;
    let b12 = b11 + 52 * folder_count;
    let b13 = b12 + 28 * fo_count;
    let b14 = b13 + 8 * fch_count;
    let b15 = b14 + 16 * fi2_count;
    let b16 = b15 + 12 * fisi_count;
    let end = b16 + 16 * sf_count;
    if end > len128 {
        return Err(LookupError::Corrupt(CorruptKind::TableOverflow { offset: end as u64 }));
    }

    Ok(
        ArcInternal {
            arc_header,
            fs_header,
            stream_header,
            quick_dirs: FileSlice::new(b0 as usize, qd_count as usize),
            stream_hashes: FileSlice::new(b1 as usize, sh_count as usize),
            stream_entries: FileSlice::new(b2 as usize, sh_count as usize),
            stream_file_indices: FileSlice::new(b3 as usize, sfi_count as usize),
            stream_offset_entries: FileSlice::new(b4 as usize, soe_count as usize),
            file_info_unks: FileSlice::new(b6 as usize, n1 as usize),
            hash_index_groups: FileSlice::new(b7 as usize, n0 as usize),
            file_info_paths: FileSlice::new(b8 as usize, fip_count as usize),
            file_info_indices: FileSlice::new(b9 as usize, fii_count as usize),
            dir_hash_to_index: FileSlice::new(b10 as usize, folder_count as usize),
            directories: FileSlice::new(b11 as usize, folder_count as usize),
            folder_offsets: FileSlice::new(b12 as usize, fo_count as usize),
            folder_child_hashes: FileSlice::new(b13 as usize, fch_count as usize),
            file_infos_v2: FileSlice::new(b14 as usize, fi2_count as usize),
            file_info_sub_index: FileSlice::new(b15 as usize, fisi_count as usize),
            sub_files: FileSlice::new(b16 as usize, sf_count as usize),
        },
    )
}

/// Locates the zstd-compressed index blob inside the archive: the
/// `CompTableHeader` sits at the offset the archive header gives, and the
/// blob's bytes follow it.  Succeeds exactly when header and blob fit inside
/// the archive.
pub fn compressed_table(archive: &[u8], arc_header: ArcHeader) -> (r: Result<
    FileSlice<u8>,
    LookupError,
>)
    ensures
        r is Ok <==> arc_header.file_system + CompTableHeader::size_spec() + CompTableHeader::decode_spec(
            archive@,
            arc_header.file_system as int,
        ).comp_size <= archive@.len(),
        r matches Ok(t) ==> {
            &&& t.base == arc_header.file_system + CompTableHeader::size_spec()
            &&& t.count == CompTableHeader::decode_spec(
                archive@,
                arc_header.file_system as int,
            ).comp_size
            &&& t.in_bounds(archive@.len())
        },
        r matches Err(e) ==> e matches LookupError::Corrupt(CorruptKind::TableOverflow { .. }),
{
    let len: usize = archive.len();
    let len128 = len as u128;
    let fs_off = arc_header.file_system as u128;
    if fs_off + 16 > len128 {
        return Err(
            LookupError::Corrupt(CorruptKind::TableOverflow { offset: arc_header.file_system }),
        );
    }
    let cth = FilePtr::<CompTableHeader>::new(arc_header.file_system as usize).read(archive);
    let data_off = fs_off + 16;
    let data_end = data_off + cth.comp_size as u128;
    if data_end > len128 {
        return Err(
            LookupError::Corrupt(CorruptKind::TableOverflow { offset: arc_header.file_system }),
        );
    }
    Ok(FileSlice::new(data_off as usize, cth.comp_size as usize))
}

/// The decompressed index blob of the archive: the bytes the blob between
/// the `CompTableHeader` and the announced compressed size decodes to, when
/// the blob fits inside the archive, forms a well-formed zstd frame, and
/// decodes to the size its header announces.
pub open spec fn index_blob_of(archive: Seq<u8>, h: ArcHeader) -> Option<Seq<u8>> {
    let cth = CompTableHeader::decode_spec(archive, h.file_system as int);
    let comp_start = h.file_system + CompTableHeader::size_spec();
    if comp_start + cth.comp_size <= archive.len() {
        match zstd_inflate(archive.subrange(comp_start as int, comp_start + cth.comp_size)) {
            Some(v) => if v.len() == cth.decomp_size {
                Some(v)
            } else {
                None
            },
            None => None,
        }
    } else {
        None
    }
}

/// The index an archive opens to, when its header, magic, blob and table
/// layout are all sound.
pub open spec fn spec_open_index(archive: Seq<u8>) -> Option<Seq<u8>> {
    if archive.len() < ArcHeader::size_spec() {
        None
    } else if ArcHeader::decode_spec(archive, 0).magic != MAGIC {
        None
    } else {
        match index_blob_of(archive, ArcHeader::decode_spec(archive, 0)) {
            Some(idx) => if table_end(idx) <= idx.len() {
                Some(idx)
            } else {
                None
            },
            None => None,
        }
    }
}

/// Whether an archive opens: header present, magic right, index blob sound,
/// and the whole table layout inside the decompressed index.
pub open spec fn open_ok(archive: Seq<u8>) -> bool {
    spec_open_index(archive) is Some
}

/// Extracts and decompresses the index blob.  Succeeds exactly when the blob
/// fits inside the archive, its bytes form a well-formed zstd frame, and the
/// frame decodes to the size its header announces.
pub fn decompress_table(archive: &[u8], arc_header: ArcHeader) -> (r: Result<Vec<u8>, LookupError>)
    ensures
        r is Ok <==> index_blob_of(archive@, arc_header) is Some,
        r matches Ok(v) ==> index_blob_of(archive@, arc_header) == Some(v@),
        r matches Err(e) ==> e matches LookupError::Corrupt(CorruptKind::TableOverflow { .. })
            || e == LookupError::Corrupt(CorruptKind::IndexDecode),
{
    let len: usize = archive.len();
    let window = compressed_table(archive, arc_header)?;
    let cth = CompTableHeader::decode(archive, arc_header.file_system as usize);
    let comp = vstd::slice::slice_subrange(
        archive,
        window.inner_ptr(),
        window.inner_ptr() + window.len(),
    );
    match zstd_decode(comp) {
        Some(v) => {
            if v.len() as u64 == cth.decomp_size as u64 {
                Ok(v)
            } else {
                Err(LookupError::Corrupt(CorruptKind::IndexDecode))
            }
        },
        None => Err(LookupError::Corrupt(CorruptKind::IndexDecode)),
    }
}

} // verus!

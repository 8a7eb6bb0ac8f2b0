//! End-to-end scenarios against a small synthetic archive.

use arc_reader::hash40::hash40;
use arc_reader::model::Arc;
use arc_reader::types::CorruptKind;
use arc_reader::types::FileKind;
use arc_reader::types::FileSliceOrVec;
use arc_reader::types::LookupError;

const MAGIC: u64 = 0xABCDEF9876543210;

fn push16(v: &mut Vec<u8>, x: u16) {
    v.extend_from_slice(&x.to_le_bytes());
}

fn push32(v: &mut Vec<u8>, x: u32) {
    v.extend_from_slice(&x.to_le_bytes());
}

fn push64(v: &mut Vec<u8>, x: u64) {
    v.extend_from_slice(&x.to_le_bytes());
}

/// A raw streamed file: path, absolute offset, size, flags.
struct StreamFile<'a> {
    path: &'a str,
    offset: u64,
    size: u64,
    flags: u32,
}

/// A compressed file: path, offset of its data relative to the file section,
/// stored (compressed) size and decompressed size.
struct CompFile<'a> {
    path: &'a str,
    rel_offset: u64,
    comp_size: u32,
    decomp_size: u32,
}

/// Builds the decompressed index for the given entries.
fn build_index(stream_files: &[StreamFile], comp_files: &[CompFile]) -> Vec<u8> {
    let s = stream_files.len() as u32;
    let n = comp_files.len() as u32;
    let mut idx = Vec::new();
    // FileSystemHeader (88 bytes): only the counts the reader consumes are
    // non-zero.
    push32(&mut idx, 0); // table_filesize
    push32(&mut idx, n); // file_info_path_count
    push32(&mut idx, 0); // file_info_index_count
    push32(&mut idx, 0); // folder_count
    push32(&mut idx, n); // folder_offset_count_1
    push32(&mut idx, 0); // hash_folder_count
    push32(&mut idx, n); // file_info_count
    push32(&mut idx, n); // file_info_sub_index_count
    push32(&mut idx, n); // sub_file_count
    push32(&mut idx, 0); // folder_offset_count_2
    push32(&mut idx, 0); // sub_file_count_2
    push32(&mut idx, 0); // padding
    push32(&mut idx, 0x10); // unk1_10
    push32(&mut idx, 0x10); // unk2_10
    idx.push(0); // regional_count_1
    idx.push(0); // regional_count_2
    push16(&mut idx, 0); // padding2
    push32(&mut idx, 0); // version
    push32(&mut idx, 0); // extra_folder
    push32(&mut idx, 0); // extra_count
    push32(&mut idx, 0); // unk_a
    push32(&mut idx, 0); // unk_b
    push32(&mut idx, 0); // extra_count_2
    push32(&mut idx, 0); // extra_sub_count
    assert_eq!(idx.len(), 88);
    idx.resize(0x100, 0);
    // StreamHeader.
    push32(&mut idx, 0); // quick_dir_count
    push32(&mut idx, s); // stream_hash_count
    push32(&mut idx, s); // stream_file_index_count
    push32(&mut idx, s); // stream_offset_entry_count
    // Stream hashes.
    for f in stream_files {
        push64(&mut idx, hash40(f.path));
    }
    // Stream entries.
    for (i, f) in stream_files.iter().enumerate() {
        let h = hash40(f.path);
        push32(&mut idx, (h & 0xFFFF_FFFF) as u32);
        idx.push((h >> 32) as u8);
        let ind = i as u32;
        idx.push((ind & 0xFF) as u8);
        idx.push(((ind >> 8) & 0xFF) as u8);
        idx.push(((ind >> 16) & 0xFF) as u8);
        push32(&mut idx, f.flags);
    }
    // Stream file indices.
    for i in 0..s {
        push32(&mut idx, i);
    }
    // Stream offset entries.
    for f in stream_files {
        push64(&mut idx, f.size);
        push64(&mut idx, f.offset);
    }
    // Sentinel counts of the compressed description.
    push32(&mut idx, 0);
    push32(&mut idx, 0);
    // File info paths.
    for f in comp_files {
        let h = hash40(f.path);
        push32(&mut idx, (h & 0xFFFF_FFFF) as u32); // path.hash
        push32(&mut idx, (h >> 32) as u32); // path.index (low byte extends)
        idx.extend_from_slice(&[0u8; 24]); // ext, parent, file_name
    }
    // Folder offsets.
    for f in comp_files {
        push64(&mut idx, f.rel_offset);
        push32(&mut idx, f.decomp_size);
        push32(&mut idx, f.comp_size);
        push32(&mut idx, 0);
        push32(&mut idx, 0);
        push32(&mut idx, 0);
    }
    // File infos.
    for i in 0..n {
        push32(&mut idx, i); // hash_index
        push32(&mut idx, 0); // hash_index_2
        push32(&mut idx, i); // sub_file_index
        push32(&mut idx, 0); // flags
    }
    // File info sub indices.
    for i in 0..n {
        push32(&mut idx, i); // folder_offset_index
        push32(&mut idx, i); // sub_file_index
        push32(&mut idx, 0); // file_info_index_and_flag
    }
    // Sub files; data sits at the folder base, so the word offset is zero.
    for f in comp_files {
        push32(&mut idx, 0);
        push32(&mut idx, f.comp_size);
        push32(&mut idx, f.decomp_size);
        push32(&mut idx, 0);
    }
    idx
}

/// Wraps an index and a payload into a whole archive.  The payload starts at
/// byte 48 and `file_section_offset` is 48, so payload offsets are both
/// archive-absolute and file-section-relative.
fn build_archive(index: &[u8], payload: &[u8], magic: u64) -> Vec<u8> {
    let comp = zstd::stream::encode_all(index, 0).unwrap();
    let fs_off = (48 + payload.len()) as u64;
    let mut arc = Vec::new();
    push64(&mut arc, magic);
    push64(&mut arc, 0); // music_section_offset
    push64(&mut arc, 48); // file_section_offset
    push64(&mut arc, 0); // shared_section_offset
    push64(&mut arc, fs_off); // file_system
    push64(&mut arc, 0); // unk_section_offset
    arc.extend_from_slice(payload);
    push32(&mut arc, 0x10);
    push32(&mut arc, index.len() as u32);
    push32(&mut arc, comp.len() as u32);
    push32(&mut arc, 0);
    arc.extend_from_slice(&comp);
    arc
}

/// A fixed archive used by most scenarios: one 500-byte raw file, two more
/// raw files under one directory, and one compressed file.
fn sample_archive() -> (Vec<u8>, Vec<u8>, &'static str) {
    let raw_model: Vec<u8> = (0..500u32).map(|i| (i % 251) as u8).collect();
    let raw_a = vec![0xAAu8; 64];
    let raw_b = vec![0xBBu8; 32];
    let big = vec![7u8; 400];
    let comp_big = zstd::stream::encode_all(&big[..], 0).unwrap();

    let mut payload = Vec::new();
    let model_off = 48 + payload.len() as u64;
    payload.extend_from_slice(&raw_model);
    let a_off = 48 + payload.len() as u64;
    payload.extend_from_slice(&raw_a);
    let b_off = 48 + payload.len() as u64;
    payload.extend_from_slice(&raw_b);
    let big_rel = payload.len() as u64;
    payload.extend_from_slice(&comp_big);

    let stream_files = [
        StreamFile { path: "fighter/mario/model.nutexb", offset: model_off, size: 500, flags: 1 },
        StreamFile { path: "fighter/mario/a.bin", offset: a_off, size: 64, flags: 0 },
        StreamFile { path: "fighter/mario/sub/b.bin", offset: b_off, size: 32, flags: 0 },
    ];
    let comp_files = [CompFile {
        path: "compressed/big.bin",
        rel_offset: big_rel,
        comp_size: comp_big.len() as u32,
        decomp_size: 400,
    }];
    let index = build_index(&stream_files, &comp_files);
    let archive = build_archive(&index, &payload, MAGIC);
    let labels = "fighter/mario/model.nutexb\nfighter/mario/a.bin\nfighter/mario/sub/b.bin\ncompressed/big.bin\n";
    (archive, raw_model, labels)
}

#[test]
fn bad_magic_fails_open() {
    let (archive, _, labels) = sample_archive();
    let mut broken = archive.clone();
    broken[0..8].copy_from_slice(&0xDEAD_0000_0000_0000u64.to_le_bytes());
    let r = Arc::open(broken, labels);
    assert!(matches!(r, Err(LookupError::Corrupt(CorruptKind::BadMagic))));
}

#[test]
fn truncated_archive_fails_open() {
    let r = Arc::open(vec![0u8; 20], "");
    assert!(matches!(r, Err(LookupError::Corrupt(CorruptKind::TableOverflow { .. }))));
}

#[test]
fn garbage_index_fails_open() {
    let (archive, _, labels) = sample_archive();
    let mut broken = archive.clone();
    // Flip bytes of the compressed blob (it sits at the end of the archive).
    let n = broken.len();
    for b in broken[n - 16..].iter_mut() {
        *b = !*b;
    }
    let r = Arc::open(broken, labels);
    assert!(matches!(r, Err(LookupError::Corrupt(CorruptKind::IndexDecode))));
}

#[test]
fn raw_contents_round_trip() {
    let (archive, raw_model, labels) = sample_archive();
    let mut arc = Arc::open(archive, labels).unwrap();
    let h = hash40("fighter/mario/model.nutexb");
    let data = arc.get_file_contents(h).unwrap();
    assert_eq!(data, raw_model);
}

#[test]
fn compressed_contents_and_idempotence() {
    let (archive, _, labels) = sample_archive();
    let mut arc = Arc::open(archive, labels).unwrap();
    let h = hash40("compressed/big.bin");
    let first = arc.get_file_contents(h).unwrap();
    assert_eq!(first.len(), 400);
    assert_eq!(first, vec![7u8; 400]);
    let second = arc.get_file_contents(h).unwrap();
    assert_eq!(first, second);
}

#[test]
fn dir_listing_children_and_stems() {
    let (archive, _, labels) = sample_archive();
    let arc = Arc::open(archive, labels).unwrap();
    let listing = arc.get_dir_listing(hash40("fighter/mario")).unwrap();
    let mut pairs: Vec<(u64, String, bool)> = listing
        .into_iter()
        .map(|e| (e.hash, e.stem, matches!(e.kind, FileKind::Directory)))
        .collect();
    pairs.sort();
    let mut expected = vec![
        (hash40("fighter/mario/model.nutexb"), "model.nutexb".to_owned(), false),
        (hash40("fighter/mario/a.bin"), "a.bin".to_owned(), false),
        (hash40("fighter/mario/sub"), "sub".to_owned(), true),
    ];
    expected.sort();
    assert_eq!(pairs, expected);
}

#[test]
fn listing_of_file_or_unknown_is_none() {
    let (archive, _, labels) = sample_archive();
    let arc = Arc::open(archive, labels).unwrap();
    assert!(arc.get_dir_listing(hash40("fighter/mario/a.bin")).is_none());
    assert!(arc.get_dir_listing(hash40("nope")).is_none());
}

#[test]
fn missing_hash_is_missing() {
    let (archive, _, labels) = sample_archive();
    let mut arc = Arc::open(archive, labels).unwrap();
    let r = arc.get_file_contents(hash40("nope"));
    assert!(matches!(r, Err(LookupError::Missing)));
}

#[test]
fn directory_is_not_a_file() {
    let (archive, _, labels) = sample_archive();
    let mut arc = Arc::open(archive, labels).unwrap();
    let r = arc.get_file_contents(hash40("fighter/mario"));
    assert!(matches!(r, Err(LookupError::NotAFile)));
}

#[test]
fn read_clamps_to_available_bytes() {
    let (archive, raw_model, labels) = sample_archive();
    let mut arc = Arc::open(archive, labels).unwrap();
    let h = hash40("fighter/mario/model.nutexb");
    let tail = arc.read(h, 10, 1_000_000).unwrap();
    assert_eq!(tail.len(), 490);
    assert_eq!(tail, raw_model[10..].to_vec());
    let empty = arc.read(h, 500, 4).unwrap();
    assert!(empty.is_empty());
    let beyond = arc.read(h, 5000, 4).unwrap();
    assert!(beyond.is_empty());
    let window = arc.read(h, 100, 10).unwrap();
    assert_eq!(window, raw_model[100..110].to_vec());
}

#[test]
fn metadata_reports_size_and_kind() {
    let (archive, _, labels) = sample_archive();
    let arc = Arc::open(archive, labels).unwrap();
    let m = arc.get_file_metadata(hash40("fighter/mario/model.nutexb")).unwrap();
    assert_eq!(m.decomp_size, 500);
    assert_eq!(m.kind, FileKind::File);
    let m = arc.get_file_metadata(hash40("compressed/big.bin")).unwrap();
    assert_eq!(m.decomp_size, 400);
    assert_eq!(m.kind, FileKind::File);
    let m = arc.get_file_metadata(hash40("fighter/mario")).unwrap();
    assert_eq!(m.decomp_size, 0);
    assert_eq!(m.kind, FileKind::Directory);
    assert!(matches!(arc.get_file_metadata(hash40("nope")), Err(LookupError::Missing)));
}

#[test]
fn get_name_resolves_paths_and_root() {
    let (archive, _, labels) = sample_archive();
    let arc = Arc::open(archive, labels).unwrap();
    assert_eq!(arc.get_name(hash40("fighter/mario/a.bin")), Some("fighter/mario/a.bin"));
    assert_eq!(arc.get_name(hash40("fighter/mario")), Some("fighter/mario"));
    assert_eq!(arc.get_name(0), Some(""));
    assert_eq!(arc.get_name(hash40("nope")), None);
}

#[test]
fn get_file_data_zero_copy_and_owned() {
    let (archive, raw_model, labels) = sample_archive();
    let mut arc = Arc::open(archive, labels).unwrap();
    match arc.get_file_data(hash40("fighter/mario/model.nutexb")).unwrap() {
        FileSliceOrVec::FileSlice(fs) => {
            assert_eq!(fs.len(), 500);
            let archive_bytes = arc.data.as_slice();
            let fsv = FileSliceOrVec::FileSlice(fs);
            let got = fsv.get_slice(archive_bytes);
            assert_eq!(got, &raw_model[..]);
        },
        FileSliceOrVec::Owned(_) => panic!("raw entry must be served zero-copy"),
    }
    match arc.get_file_data(hash40("compressed/big.bin")).unwrap() {
        FileSliceOrVec::Owned(v) => assert_eq!(v, vec![7u8; 400]),
        FileSliceOrVec::FileSlice(_) => panic!("compressed entry must be served decompressed"),
    }
    assert!(arc.get_file_data(hash40("fighter/mario")).is_none());
    assert!(arc.get_file_data(hash40("nope")).is_none());
}

#[test]
fn root_listing_contains_top_level_dirs() {
    let (archive, _, labels) = sample_archive();
    let arc = Arc::open(archive, labels).unwrap();
    let listing = arc.get_dir_listing(0).unwrap();
    let hashes: Vec<u64> = listing.iter().map(|e| e.hash).collect();
    assert!(hashes.contains(&hash40("fighter")));
    assert!(hashes.contains(&hash40("compressed")));
}

#[test]
fn table_overflow_in_index_fails_open() {
    // An index whose stream header demands more entries than the buffer has.
    let stream_files = [StreamFile { path: "x/y.bin", offset: 48, size: 1, flags: 0 }];
    let mut index = build_index(&stream_files, &[]);
    // Inflate the stream hash count far past the buffer's end.
    index[0x104..0x108].copy_from_slice(&0x0100_0000u32.to_le_bytes());
    let archive = build_archive(&index, &[0u8; 16], MAGIC);
    let r = Arc::open(archive, "x/y.bin\n");
    assert!(matches!(r, Err(LookupError::Corrupt(CorruptKind::TableOverflow { .. }))));
}

#[test]
fn hash40_known_values() {
    // The IEEE CRC-32 of "123456789" is 0xCBF43926 (the algorithm's check
    // value) and the path is nine bytes long.
    assert_eq!(hash40("123456789"), 0x9_CBF4_3926);
    assert_eq!(hash40(""), 0);
}

#[test]
fn tsv_and_malformed_labels() {
    let index = build_index(&[], &[]);
    let archive = build_archive(&index, &[], MAGIC);
    let labels = "0000000005\tfoo/bar.bin\nbaz/qux.bin\nbad\tline\textra\n\nzz!!\tother.bin\n";
    let arc = Arc::open(archive, labels).unwrap();
    // A tab-separated line files the path after the tab.
    assert_eq!(arc.get_name(hash40("foo/bar.bin")), Some("foo/bar.bin"));
    // A bare line is a path of its own.
    assert_eq!(arc.get_name(hash40("baz/qux.bin")), Some("baz/qux.bin"));
    // A line with two tabs is skipped.
    assert_eq!(arc.get_name(hash40("line")), None);
    // A line whose hash field is not hexadecimal is skipped.
    assert_eq!(arc.get_name(hash40("other.bin")), None);
}

/// Builds an index holding two compressed entries where the first carries the
/// redirect flag and resolves through the second's data chain.
fn build_redirect_index(path_a: &str, path_b: &str, rel_offset: u64, comp_size: u32, decomp_size: u32) -> Vec<u8> {
    let mut idx = Vec::new();
    push32(&mut idx, 0); // table_filesize
    push32(&mut idx, 2); // file_info_path_count
    push32(&mut idx, 1); // file_info_index_count
    push32(&mut idx, 0); // folder_count
    push32(&mut idx, 1); // folder_offset_count_1
    push32(&mut idx, 0); // hash_folder_count
    push32(&mut idx, 2); // file_info_count
    push32(&mut idx, 2); // file_info_sub_index_count
    push32(&mut idx, 2); // sub_file_count
    for _ in 0..13 {
        push32(&mut idx, 0);
    }
    assert_eq!(idx.len(), 88);
    idx.resize(0x100, 0);
    // StreamHeader: no streamed entries.
    push32(&mut idx, 0);
    push32(&mut idx, 0);
    push32(&mut idx, 0);
    push32(&mut idx, 0);
    // Sentinel counts.
    push32(&mut idx, 0);
    push32(&mut idx, 0);
    // File info paths.
    for p in [path_a, path_b] {
        let h = hash40(p);
        push32(&mut idx, (h & 0xFFFF_FFFF) as u32);
        push32(&mut idx, (h >> 32) as u32);
        idx.extend_from_slice(&[0u8; 24]);
    }
    // File info indices: the redirect target is entry 1.
    push32(&mut idx, 0);
    push32(&mut idx, 1);
    // Folder offsets.
    push64(&mut idx, rel_offset);
    push32(&mut idx, decomp_size);
    push32(&mut idx, comp_size);
    push32(&mut idx, 0);
    push32(&mut idx, 0);
    push32(&mut idx, 0);
    // File infos: entry 0 redirects through index record 0; entry 1 is plain.
    push32(&mut idx, 0); // hash_index
    push32(&mut idx, 0); // hash_index_2
    push32(&mut idx, 0); // sub_file_index (ignored under redirect)
    push32(&mut idx, 0x10); // flags: redirect
    push32(&mut idx, 1);
    push32(&mut idx, 0);
    push32(&mut idx, 1);
    push32(&mut idx, 0);
    // File info sub indices (only record 1 is reached).
    for _ in 0..2 {
        push32(&mut idx, 0); // folder_offset_index
        push32(&mut idx, 0); // sub_file_index
        push32(&mut idx, 0);
    }
    // Sub files (only record 0 is reached).
    for _ in 0..2 {
        push32(&mut idx, 0);
        push32(&mut idx, comp_size);
        push32(&mut idx, decomp_size);
        push32(&mut idx, 0);
    }
    idx
}

#[test]
fn redirected_entry_serves_target_bytes() {
    let plain = vec![42u8; 256];
    let comp = zstd::stream::encode_all(&plain[..], 0).unwrap();
    let index = build_redirect_index(
        "redirect/alias.bin",
        "redirect/real.bin",
        0,
        comp.len() as u32,
        256,
    );
    let archive = build_archive(&index, &comp, MAGIC);
    let labels = "redirect/alias.bin\nredirect/real.bin\n";
    let mut arc = Arc::open(archive, labels).unwrap();
    let via_alias = arc.get_file_contents(hash40("redirect/alias.bin")).unwrap();
    let via_real = arc.get_file_contents(hash40("redirect/real.bin")).unwrap();
    assert_eq!(via_alias, plain);
    assert_eq!(via_real, plain);
}

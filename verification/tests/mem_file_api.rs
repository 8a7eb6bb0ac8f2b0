//! Unit tests of the byte readers and the typed pointer/window arithmetic.

use arc_reader::mem_file::FilePtr;
use arc_reader::mem_file::FileSlice;
use arc_reader::mem_file::Record;
use arc_reader::mem_file::get_footer;
use arc_reader::mem_file::get_header;
use arc_reader::mem_file::read_u16;
use arc_reader::mem_file::read_u24;
use arc_reader::mem_file::read_u32;
use arc_reader::mem_file::read_u64;
use arc_reader::structs::HashIndexGroup;
use arc_reader::structs::StreamEntry;
use arc_reader::structs::StreamOffsetEntry;

#[test]
fn little_endian_readers() {
    let buf: Vec<u8> = vec![0x10, 0x32, 0x54, 0x76, 0x98, 0xBA, 0xDC, 0xFE, 0x01];
    assert_eq!(read_u16(&buf, 0), 0x3210);
    assert_eq!(read_u16(&buf, 1), 0x5432);
    assert_eq!(read_u24(&buf, 0), 0x543210);
    assert_eq!(read_u32(&buf, 0), 0x76543210);
    assert_eq!(read_u32(&buf, 4), 0xFEDCBA98);
    assert_eq!(read_u64(&buf, 0), 0xFEDCBA9876543210);
    assert_eq!(read_u64(&buf, 1), 0x01FEDCBA98765432);
}

#[test]
fn pointer_and_window_arithmetic() {
    let p: FilePtr<u32> = FilePtr::new(4);
    assert_eq!(p.inner(), 4);
    assert_eq!(p.offset(12).inner(), 16);
    let q: FilePtr<u64> = p.next();
    assert_eq!(q.inner(), 8);
    let w: FileSlice<u32> = p.slice(3);
    assert_eq!(w.inner_ptr(), 4);
    assert_eq!(w.len(), 3);
    let after: FilePtr<u16> = w.next();
    assert_eq!(after.inner(), 16);
    let w2: FileSlice<StreamOffsetEntry> = w.next_slice(2);
    assert_eq!(w2.inner_ptr(), 16);
    assert_eq!(w2.len(), 2);
    let tail: FilePtr<StreamEntry> = w2.next();
    assert_eq!(tail.inner(), 48);
    assert_eq!(w.as_file_ptr().inner(), 4);
    let header: FilePtr<StreamEntry> = get_header();
    assert_eq!(header.inner(), 0);
    let footer: FilePtr<HashIndexGroup> = get_footer(100);
    assert_eq!(footer.inner(), 92);
}

#[test]
fn records_decode_from_windows() {
    // Two stream-offset records: (size, offset) pairs stored little-endian.
    let mut buf: Vec<u8> = vec![0xEE; 4];
    buf.extend_from_slice(&500u64.to_le_bytes());
    buf.extend_from_slice(&0x1234u64.to_le_bytes());
    buf.extend_from_slice(&32u64.to_le_bytes());
    buf.extend_from_slice(&0x5678u64.to_le_bytes());
    let w: FileSlice<StreamOffsetEntry> = FileSlice::new(4, 2);
    let first = w.get(&buf, 0);
    assert_eq!(first.size, 500);
    assert_eq!(first.offset, 0x1234);
    let second = w.get(&buf, 1);
    assert_eq!(second.size, 32);
    assert_eq!(second.offset, 0x5678);
    let ptr: FilePtr<StreamOffsetEntry> = FilePtr::new(20);
    let again = ptr.read(&buf);
    assert_eq!(again.size, 32);
    assert_eq!(again.offset, 0x5678);
}

#[test]
fn packed_stream_entry_decodes() {
    // hash, then the length byte, a 24-bit index, and 32-bit flags.
    let mut buf: Vec<u8> = Vec::new();
    buf.extend_from_slice(&0xAABBCCDDu32.to_le_bytes());
    buf.push(26);
    buf.extend_from_slice(&[0x21, 0x43, 0x65]);
    buf.extend_from_slice(&7u32.to_le_bytes());
    let e = StreamEntry::decode(&buf, 0);
    assert_eq!(e.hash, 0xAABBCCDD);
    assert_eq!(e.name_length, 26);
    assert_eq!(e.index, 0x654321);
    assert_eq!(e.flags, 7);
}

#[test]
fn hash_index_group_extends_hash() {
    let g = HashIndexGroup { hash: 0xDEADBEEF, index: 0xFFFF_FF2A };
    // Only the low byte of the index extends the hash.
    assert_eq!(g.hash40(), 0x2A_DEAD_BEEF);
}

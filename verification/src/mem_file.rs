//! Bounded random access over a byte buffer.
//!
//! The archive and its decompressed index are plain byte buffers.  This module
//! offers the two primitive capabilities every other component builds on:
//! reading little-endian machine words at an offset, and projecting typed
//! record windows (`FilePtr`, `FileSlice`) whose bounds are checked against
//! the buffer before any read.

use vstd::prelude::*;

verus! {

/// Little-endian `u16` assembled from two bytes of `b` starting at `off`.
pub open spec fn le16(b: Seq<u8>, off: int) -> u16 {
    (b[off] as u16) | ((b[off + 1] as u16) << 8)
}

/// Little-endian `u32` assembled from four bytes of `b` starting at `off`.
pub open spec fn le32(b: Seq<u8>, off: int) -> u32 {
    (b[off] as u32) | ((b[off + 1] as u32) << 8) | ((b[off + 2] as u32) << 16) | ((b[off
        + 3] as u32) << 24)
}

/// Little-endian 24-bit value assembled from three bytes of `b` starting at `off`,
/// widened to `u32`.
pub open spec fn le24(b: Seq<u8>, off: int) -> u32 {
    (b[off] as u32) | ((b[off + 1] as u32) << 8) | ((b[off + 2] as u32) << 16)
}

/// Little-endian `u64` assembled from eight bytes of `b` starting at `off`.
pub open spec fn le64(b: Seq<u8>, off: int) -> u64 {
    (b[off] as u64) | ((b[off + 1] as u64) << 8) | ((b[off + 2] as u64) << 16) | ((b[off
        + 3] as u64) << 24) | ((b[off + 4] as u64) << 32) | ((b[off + 5] as u64) << 40) | ((b[off
        + 6] as u64) << 48) | ((b[off + 7] as u64) << 56)
}

/// Reads a little-endian `u16` at `off`.
pub fn read_u16(buf: &[u8], off: usize) -> (r: u16)
    requires
        off + 2 <= buf@.len(),
    ensures
        r == le16(buf@, off as int),
{
    let b0 = buf[off] as u16;
    let b1 = buf[off + 1] as u16;
    b0 | (b1 << 8)
}

/// Reads a little-endian `u32` at `off`.
pub fn read_u32(buf: &[u8], off: usize) -> (r: u32)
    requires
        off + 4 <= buf@.len(),
    ensures
        r == le32(buf@, off as int),
{
    let b0 = buf[off] as u32;
    let b1 = buf[off + 1] as u32;
    let b2 = buf[off + 2] as u32;
    let b3 = buf[off + 3] as u32;
    b0 | (b1 << 8) | (b2 << 16) | (b3 << 24)
}

/// Reads a little-endian 24-bit value at `off`, widened to `u32`.
pub fn read_u24(buf: &[u8], off: usize) -> (r: u32)
    requires
        off + 3 <= buf@.len(),
    ensures
        r == le24(buf@, off as int),
{
    let b0 = buf[off] as u32;
    let b1 = buf[off + 1] as u32;
    let b2 = buf[off + 2] as u32;
    b0 | (b1 << 8) | (b2 << 16)
}

/// Reads a little-endian `u64` at `off`.
pub fn read_u64(buf: &[u8], off: usize) -> (r: u64)
    requires
        off + 8 <= buf@.len(),
    ensures
        r == le64(buf@, off as int),
{
    let b0 = buf[off] as u64;
    let b1 = buf[off + 1] as u64;
    let b2 = buf[off + 2] as u64;
    let b3 = buf[off + 3] as u64;
    let b4 = buf[off + 4] as u64;
    let b5 = buf[off + 5] as u64;
    let b6 = buf[off + 6] as u64;
    let b7 = buf[off + 7] as u64;
    b0 | (b1 << 8) | (b2 << 16) | (b3 << 24) | (b4 << 32) | (b5 << 40) | (b6 << 48) | (b7 << 56)
}

/// A fixed-size on-disk record: how many bytes it occupies and how its fields
/// are decoded from a buffer.  All archive records are little-endian and
/// packed exactly as stored in the file.
pub trait Record: Sized {
    /// Byte size of one stored record.
    spec fn size_spec() -> nat;

    /// The record decoded from `b` at byte offset `off`.
    spec fn decode_spec(b: Seq<u8>, off: int) -> Self;

    /// The size of every record is a small positive number of bytes.
    proof fn size_pos()
        ensures
            1 <= Self::size_spec() <= 256,
    ;

    /// Executable byte size of one stored record.
    fn record_size() -> (n: usize)
        ensures
            n == Self::size_spec(),
    ;

    /// Decodes one record from `buf` at `off`.
    fn decode(buf: &[u8], off: usize) -> (r: Self)
        requires
            off + Self::size_spec() <= buf@.len(),
        ensures
            r == Self::decode_spec(buf@, off as int),
    ;
}

impl Record for u8 {
    open spec fn size_spec() -> nat {
        1
    }

    proof fn size_pos() {
    }

    open spec fn decode_spec(b: Seq<u8>, off: int) -> u8 {
        b[off]
    }

    fn record_size() -> usize {
        1
    }

    fn decode(buf: &[u8], off: usize) -> u8 {
        buf[off]
    }
}

impl Record for u16 {
    open spec fn size_spec() -> nat {
        2
    }

    proof fn size_pos() {
    }

    open spec fn decode_spec(b: Seq<u8>, off: int) -> u16 {
        le16(b, off)
    }

    fn record_size() -> usize {
        2
    }

    fn decode(buf: &[u8], off: usize) -> u16 {
        read_u16(buf, off)
    }
}

impl Record for u32 {
    open spec fn size_spec() -> nat {
        4
    }

    proof fn size_pos() {
    }

    open spec fn decode_spec(b: Seq<u8>, off: int) -> u32 {
        le32(b, off)
    }

    fn record_size() -> usize {
        4
    }

    fn decode(buf: &[u8], off: usize) -> u32 {
        read_u32(buf, off)
    }
}

impl Record for u64 {
    open spec fn size_spec() -> nat {
        8
    }

    proof fn size_pos() {
    }

    open spec fn decode_spec(b: Seq<u8>, off: int) -> u64 {
        le64(b, off)
    }

    fn record_size() -> usize {
        8
    }

    fn decode(buf: &[u8], off: usize) -> u64 {
        read_u64(buf, off)
    }
}

/// Byte offset of a single `T` record inside a buffer.
pub struct FilePtr<T: Record> {
    pub addr: usize,
    pub marker: core::marker::PhantomData<T>,
}

/// A window of `count` consecutive `T` records starting at byte offset `base`.
pub struct FileSlice<T: Record> {
    pub base: usize,
    pub count: usize,
    pub marker: core::marker::PhantomData<T>,
}

impl<T: Record> Clone for FilePtr<T> {
    fn clone(&self) -> (r: Self)
        ensures
            r == *self,
    {
        FilePtr { addr: self.addr, marker: core::marker::PhantomData }
    }
}

impl<T: Record> Copy for FilePtr<T> {

}

impl<T: Record> Clone for FileSlice<T> {
    fn clone(&self) -> (r: Self)
        ensures
            r == *self,
    {
        FileSlice { base: self.base, count: self.count, marker: core::marker::PhantomData }
    }
}

impl<T: Record> Copy for FileSlice<T> {

}

impl<T: Record> FilePtr<T> {
    /// The record's byte offset.
    pub fn inner(&self) -> (r: usize)
        ensures
            r == self.addr,
    {
        self.addr
    }

    /// The pointer moved forward by `amt` bytes.
    pub fn offset(&self, amt: usize) -> (r: FilePtr<T>)
        requires
            self.addr + amt <= usize::MAX,
        ensures
            r.addr == self.addr + amt,
    {
        FilePtr { addr: self.addr + amt, marker: core::marker::PhantomData }
    }

    /// A window of `size` records starting at this pointer.
    pub fn slice(&self, size: usize) -> (r: FileSlice<T>)
        ensures
            r.base == self.addr,
            r.count == size,
    {
        FileSlice { base: self.addr, count: size, marker: core::marker::PhantomData }
    }

    /// A pointer to the `U` record that immediately follows this record.
    pub fn next<U: Record>(&self) -> (r: FilePtr<U>)
        requires
            self.addr + T::size_spec() <= usize::MAX,
        ensures
            r.addr == self.addr + T::size_spec(),
    {
        FilePtr { addr: self.addr + T::record_size(), marker: core::marker::PhantomData }
    }

    /// A window of `size` records of `U` immediately following this record.
    pub fn next_slice<U: Record>(&self, size: usize) -> (r: FileSlice<U>)
        requires
            self.addr + T::size_spec() <= usize::MAX,
        ensures
            r.base == self.addr + T::size_spec(),
            r.count == size,
    {
        FileSlice {
            base: self.addr + T::record_size(),
            count: size,
            marker: core::marker::PhantomData,
        }
    }

    /// A pointer at byte offset `ptr`.
    pub fn new(ptr: usize) -> (r: Self)
        ensures
            r.addr == ptr,
    {
        FilePtr { addr: ptr, marker: core::marker::PhantomData }
    }

    /// Whether the record pointed at lies entirely inside a buffer of `len` bytes.
    pub open spec fn in_bounds(&self, len: nat) -> bool {
        self.addr + T::size_spec() <= len
    }

    /// Reads the record pointed at out of `buf`.
    pub fn read(&self, buf: &[u8]) -> (r: T)
        requires
            self.in_bounds(buf@.len()),
        ensures
            r == T::decode_spec(buf@, self.addr as int),
    {
        T::decode(buf, self.addr)
    }
}

impl<T: Record> FileSlice<T> {
    /// Byte offset of the window's first record.
    pub fn inner_ptr(&self) -> (r: usize)
        ensures
            r == self.base,
    {
        self.base
    }

    /// Number of records in the window.
    pub fn len(&self) -> (r: usize)
        ensures
            r == self.count,
    {
        self.count
    }

    /// A pointer to the window's first record.
    pub fn as_file_ptr(&self) -> (r: FilePtr<T>)
        ensures
            r.addr == self.base,
    {
        FilePtr { addr: self.base, marker: core::marker::PhantomData }
    }

    /// The total byte size of the window, as a mathematical integer.
    pub open spec fn byte_len(&self) -> int {
        self.base + self.count * T::size_spec()
    }

    /// A pointer to the `U` record that immediately follows the window.
    pub fn next<U: Record>(&self) -> (r: FilePtr<U>)
        requires
            self.byte_len() <= usize::MAX,
        ensures
            r.addr == self.base + self.count * T::size_spec(),
    {
        proof {
            T::size_pos();
        }
        FilePtr { addr: self.base + self.count * T::record_size(), marker: core::marker::PhantomData }
    }

    /// A window of `size` records of `U` immediately following this window.
    pub fn next_slice<U: Record>(&self, size: usize) -> (r: FileSlice<U>)
        requires
            self.byte_len() <= usize::MAX,
        ensures
            r.base == self.base + self.count * T::size_spec(),
            r.count == size,
    {
        proof {
            T::size_pos();
        }
        FileSlice {
            base: self.base + self.count * T::record_size(),
            count: size,
            marker: core::marker::PhantomData,
        }
    }

    /// A window of `size` records starting at byte offset `ptr`.
    pub fn new(ptr: usize, size: usize) -> (r: Self)
        ensures
            r.base == ptr,
            r.count == size,
    {
        FileSlice { base: ptr, count: size, marker: core::marker::PhantomData }
    }

    /// Whether the whole window lies inside a buffer of `len` bytes.
    pub open spec fn in_bounds(&self, len: nat) -> bool {
        self.base + self.count * T::size_spec() <= len
    }

    /// Byte offset of the `i`-th record of the window.
    pub open spec fn entry_off(&self, i: int) -> int {
        self.base + i * T::size_spec()
    }

    /// Reads the `i`-th record of the window out of `buf`.
    pub fn get(&self, buf: &[u8], i: usize) -> (r: T)
        requires
            i < self.count,
            self.in_bounds(buf@.len()),
        ensures
            r == T::decode_spec(buf@, self.entry_off(i as int)),
    {
        let buf_len = buf.len();
        proof {
            T::size_pos();
            let sz = T::size_spec() as int;
            assert((i + 1) * sz <= self.count * sz) by (nonlinear_arith)
                requires
                    i + 1 <= self.count,
                    sz >= 1,
            ;
            assert(i * sz + sz == (i + 1) * sz) by (nonlinear_arith);
            assert(i * sz >= 0) by (nonlinear_arith)
                requires
                    i >= 0,
                    sz >= 1,
            ;
        }
        let off = self.base + i * T::record_size();
        T::decode(buf, off)
    }
}

/// A pointer to a `T` record at the start of a buffer.
pub fn get_header<T: Record>() -> (r: FilePtr<T>)
    ensures
        r.addr == 0,
{
    FilePtr::new(0)
}

/// A pointer to a `T` record flush against the end of a buffer of
/// `file_len` bytes.
pub fn get_footer<T: Record>(file_len: usize) -> (r: FilePtr<T>)
    requires
        T::size_spec() <= file_len,
    ensures
        r.addr == file_len - T::size_spec(),
        r.in_bounds(file_len as nat),
{
    FilePtr::new(file_len - T::record_size())
}

} // verus!

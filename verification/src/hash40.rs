//! The 40-bit content identifier that labels every path in the archive.
//!
//! A hash-40 is the IEEE CRC-32 of the path's UTF-8 bytes in its low 32 bits,
//! extended by the low byte of the path's byte length in bits 32..40.

use vstd::prelude::*;

use vstd::string::StringSliceAdditionalSpecFns;

verus! {

/// The IEEE CRC-32 (the CRC-32/ISO-HDLC algorithm) of a byte sequence.
/// The checksum is a pure function of the bytes; its definition lives in the
/// `crc` crate and is not restated here.
pub uninterp spec fn crc32_of(b: Seq<u8>) -> u32;

/// Relies on `crc::Crc::<u32>::checksum` with the CRC-32/ISO-HDLC algorithm
/// (the IEEE polynomial): the result is a function of the input bytes alone,
/// and on no bytes the initial value and the final xor (both `0xFFFFFFFF`)
/// cancel, so the checksum of an empty input is zero.
#[verifier::external_body]
fn crc32_ieee(bytes: &[u8]) -> (r: u32)
    ensures
        r == crc32_of(bytes@),
        bytes@.len() == 0 ==> r == 0,
{
    crc::Crc::<u32>::new(&crc::CRC_32_ISO_HDLC).checksum(bytes)
}

/// The hash-40 of a path: its CRC-32 in the low 32 bits, the low byte of its
/// UTF-8 byte length in bits 32..40.
pub open spec fn hash40_spec(s: Seq<char>) -> u64 {
    (crc32_of(vstd::utf8::encode_utf8(s)) as u64 + (((vstd::utf8::encode_utf8(s).len() % 256)
        as u64) << 32)) as u64
}

/// Computes the hash-40 of a path string.
pub fn hash40(string: &str) -> (r: u64)
    ensures
        r == hash40_spec(string@),
        string@.len() == 0 ==> r == 0,
{
    let bytes = string.as_bytes();
    let len: usize = bytes.len();
    let crc = crc32_ieee(bytes) as u64;
    let ext: u64 = (len as u64) & 0xFF;
    proof {
        let l = len as u64;
        assert((l & 0xFF) == l % 256) by (bit_vector);
        assert((l & 0xFF) <= 0xFF) by (bit_vector);
        assert(((l & 0xFF) << 32) <= 0xFF00000000u64) by (bit_vector);
        if string@.len() == 0 {
            assert(vstd::utf8::encode_utf8(string@) =~= Seq::<u8>::empty());
            assert((0u64 & 0xFF) << 32 == 0) by (bit_vector);
        }
    }
    crc + (ext << 32)
}

} // verus!

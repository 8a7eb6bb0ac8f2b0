//! Trusted boundary to the zstd decoder.

use vstd::prelude::*;

verus! {

/// What a zstd frame decodes to: `Some` of the decompressed bytes when the
/// input is a well-formed frame, `None` otherwise.  Decoding is a pure
/// function of the compressed bytes; its definition lives in the zstd format
/// and is not restated here.
pub uninterp spec fn zstd_inflate(b: Seq<u8>) -> Option<Seq<u8>>;

/// Relies on `zstd::stream::decode_all`: the decoded bytes are a function of
/// the input bytes alone, and malformed input is reported as an error rather
/// than a panic.
#[verifier::external_body]
pub fn zstd_decode(data: &[u8]) -> (r: Option<Vec<u8>>)
    ensures
        match r {
            Some(v) => zstd_inflate(data@) == Some(v@),
            None => zstd_inflate(data@) is None,
        },
{
    match zstd::stream::decode_all(data) {
        Ok(v) => Some(v),
        Err(_) => None,
    }
}

} // verus!

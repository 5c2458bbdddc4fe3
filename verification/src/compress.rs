//! The payload codec: gzip compression with a size threshold.
//!
//! Senders deflate a serialized event only when it reaches
//! [`COMPRESS_THRESHOLD`] bytes, and mark the frame with the compressed flag;
//! receivers inflate before decoding.  The deflate and inflate routines
//! themselves come from an outside compression library and are relied upon,
//! not proved: their behaviour is named by [`inflate_of`].

use vstd::prelude::*;

verus! {

/// Payloads shorter than this cross the wire uncompressed.
pub const COMPRESS_THRESHOLD: usize = 1024;

/// What the inflate routine returns on a byte string: the original bytes for
/// every string that some deflation produced, nothing for a string that does
/// not inflate.  The result depends on the bytes alone.
pub uninterp spec fn inflate_of(b: Seq<u8>) -> Option<Seq<u8>>;

/// Relies on `libafl_bolts::compress::GzipCompressor::compress`: deflates the
/// buffer exactly when it is at least `threshold` bytes long, and the
/// deflated bytes inflate back to the buffer.
#[verifier::external_body]
pub(crate) fn gzip_compress(threshold: usize, buf: &Vec<u8>) -> (r: Option<Vec<u8>>)
    ensures
        r is Some <==> buf@.len() >= threshold,
        r matches Some(c) ==> inflate_of(c@) == Some(buf@),
{
    let compressor = libafl_bolts::compress::GzipCompressor::new(threshold);
    match compressor.compress(buf.as_slice()) {
        Ok(c) => c,
        Err(_) => None,
    }
}

/// Relies on `libafl_bolts::compress::GzipCompressor::decompress`: inflates a
/// deflated buffer, and fails exactly on the byte strings that do not
/// inflate.
#[verifier::external_body]
pub(crate) fn gzip_decompress(buf: &Vec<u8>) -> (r: Option<Vec<u8>>)
    ensures
        r matches Some(d) ==> inflate_of(buf@) == Some(d@),
        r is None ==> inflate_of(buf@) is None,
{
    let compressor = libafl_bolts::compress::GzipCompressor::new(0);
    match compressor.decompress(buf.as_slice()) {
        Ok(d) => Some(d),
        Err(_) => None,
    }
}

} // verus!

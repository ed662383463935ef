//! LZ4 decompression.
//!
//! The compressed data is expected in the **size-prepended block format**:
//! a little-endian `u32` giving the decompressed byte count, immediately
//! followed by the raw LZ4 block data.

use vstd::prelude::*;
use crate::error::Error;
use crate::utils::le_u32_at;

verus! {

/// `lz4_flex::block::DecompressError`, known to the verifier as an opaque
/// value that is carried through and never looked into.
#[verifier::external_type_specification]
#[verifier::external_body]
pub struct ExDecompressError(lz4_flex::block::DecompressError);

/// What decoding `data` as a size-prepended LZ4 block yields: the
/// decompressed bytes, or `None` where the decoder rejects the data.
pub uninterp spec fn lz4_block(data: Seq<u8>) -> Option<Seq<u8>>;

/// Decode a size-prepended LZ4 block with
/// `lz4_flex::decompress_size_prepended`.
///
/// Trusted: the outcome is the decoder's outcome for these bytes; the
/// decoder accepts no input shorter than the four-byte size prefix, and it
/// never delivers more bytes than the prefix announces.
#[verifier::external_body]
fn lz4_decompress(data: &[u8]) -> (res: Result<Vec<u8>, lz4_flex::block::DecompressError>)
    ensures
        match res {
            Ok(v) => lz4_block(data@) == Some(v@),
            Err(_) => lz4_block(data@) is None,
        },
        res is Ok ==> data@.len() >= 4 && res->Ok_0@.len() <= le_u32_at(data@, 0),
{
    lz4_flex::decompress_size_prepended(data)
}

/// Turn the decoder's outcome into the library's: the bytes as they are,
/// any failure as [`Error::Lz4`].
pub fn lz4_outcome(res: Result<Vec<u8>, lz4_flex::block::DecompressError>) -> (r: Result<
    Vec<u8>,
    Error,
>)
    ensures
        match res {
            Ok(v) => r == Ok::<Vec<u8>, Error>(v),
            Err(_) => r == Err::<Vec<u8>, Error>(Error::Lz4),
        },
{
    match res {
        Ok(v) => Ok(v),
        Err(_) => Err(Error::Lz4),
    }
}

/// Decompress an LZ4-compressed buffer.
///
/// `data` must begin with a little-endian `u32` decompressed-size prefix
/// followed by the raw LZ4 block. Returns [`Error::Lz4`] on any
/// decompression failure.
pub fn decompress_lz4(data: &[u8]) -> (r: Result<Vec<u8>, Error>)
    ensures
        match r {
            Ok(v) => lz4_block(data@) == Some(v@) && data@.len() >= 4 && v@.len() <= le_u32_at(
                data@,
                0,
            ),
            Err(e) => lz4_block(data@) is None && e == Error::Lz4,
        },
{
    lz4_outcome(lz4_decompress(data))
}

} // verus!

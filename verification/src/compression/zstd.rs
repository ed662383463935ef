//! Zstandard decompression.
//!
//! Zstd appears in two places:
//!
//! * **SARC archives** - a `.zs` file is a complete SARC compressed as a
//!   single Zstd stream. Decompress it with [`decompress_zstd`], then parse
//!   the result.
//! * **NCZ blocks** - each compressed block inside a `.ncz` file is an
//!   independent Zstd stream whose decompressed size is recorded in the
//!   section descriptor. [`decompress_zstd_with_size`] uses that size to
//!   avoid reallocations.

use vstd::prelude::*;
use crate::error::Error;

verus! {

/// What `zstd::decode_all` yields for the bytes `data`: the decompressed
/// bytes, or `None` where decoding fails.
pub uninterp spec fn zstd_decoded(data: Seq<u8>) -> Option<Seq<u8>>;

/// What `zstd::stream::copy_decode` writes for the bytes `data`: the
/// decompressed bytes, or `None` where decoding fails.
pub uninterp spec fn zstd_streamed(data: Seq<u8>) -> Option<Seq<u8>>;

/// Decode a complete Zstandard buffer with `zstd::decode_all`.
///
/// Trusted: the outcome is the decoder's outcome for these bytes.
#[verifier::external_body]
fn zstd_decode_all(data: &[u8]) -> (res: Result<Vec<u8>, std::io::Error>)
    ensures
        match res {
            Ok(v) => zstd_decoded(data@) == Some(v@),
            Err(_) => zstd_decoded(data@) is None,
        },
{
    zstd::decode_all(data)
}

/// Decode a complete Zstandard buffer with `zstd::stream::copy_decode` into
/// a buffer allocated for `capacity` bytes.
///
/// Trusted: the outcome is the decoder's outcome for these bytes, whatever
/// the capacity. A buffer cannot be allocated for more than `isize::MAX`
/// bytes.
#[verifier::external_body]
fn zstd_copy_decode(data: &[u8], capacity: usize) -> (res: Result<Vec<u8>, std::io::Error>)
    requires
        capacity <= isize::MAX,
    ensures
        match res {
            Ok(v) => zstd_streamed(data@) == Some(v@),
            Err(_) => zstd_streamed(data@) is None,
        },
{
    let mut out = Vec::with_capacity(capacity);
    zstd::stream::copy_decode(data, &mut out)?;
    Ok(out)
}

/// Turn the outcome of decoding a whole buffer into the library's: the
/// bytes as they are, any failure as [`Error::Zstd`].
pub fn zstd_outcome(res: Result<Vec<u8>, std::io::Error>) -> (r: Result<Vec<u8>, Error>)
    ensures
        match res {
            Ok(v) => r == Ok::<Vec<u8>, Error>(v),
            Err(_) => r == Err::<Vec<u8>, Error>(Error::Zstd),
        },
{
    match res {
        Ok(v) => Ok(v),
        Err(_) => Err(Error::Zstd),
    }
}

/// Turn the outcome of a streamed decoding into the library's: the bytes
/// as they are, a failure as [`Error::Io`] around its cause.
pub fn zstd_stream_outcome(res: Result<Vec<u8>, std::io::Error>) -> (r: Result<Vec<u8>, Error>)
    ensures
        match res {
            Ok(v) => r == Ok::<Vec<u8>, Error>(v),
            Err(e) => r == Err::<Vec<u8>, Error>(Error::Io(e)),
        },
{
    match res {
        Ok(v) => Ok(v),
        Err(e) => Err(Error::from(e)),
    }
}

/// Decompress a complete Zstandard-compressed buffer.
///
/// Returns [`Error::Zstd`] on any decompression failure.
pub fn decompress_zstd(data: &[u8]) -> (r: Result<Vec<u8>, Error>)
    ensures
        match r {
            Ok(v) => zstd_decoded(data@) == Some(v@),
            Err(e) => zstd_decoded(data@) is None && e == Error::Zstd,
        },
{
    zstd_outcome(zstd_decode_all(data))
}

/// Decompress a Zstandard-compressed buffer when the decompressed size is
/// known ahead of time.
///
/// The output buffer is allocated for `decompressed_size` bytes up front,
/// which avoids reallocations on large payloads; the size is a hint and
/// does not limit the output. A failure of the decoder is returned as
/// [`Error::Io`].
pub fn decompress_zstd_with_size(data: &[u8], decompressed_size: usize) -> (r: Result<
    Vec<u8>,
    Error,
>)
    requires
        decompressed_size <= isize::MAX,
    ensures
        match r {
            Ok(v) => zstd_streamed(data@) == Some(v@),
            Err(e) => zstd_streamed(data@) is None && e is Io,
        },
{
    zstd_stream_outcome(zstd_copy_decode(data, decompressed_size))
}

} // verus!

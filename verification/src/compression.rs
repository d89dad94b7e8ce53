//! The compression backend: zstd at its highest level, with long-distance
//! matching and without a content checksum.

use crate::error::Error;
use vstd::prelude::*;

verus! {

/// The compression level of every payload this library writes.
pub const COMPRESSION_LEVEL: i32 = 22;

/// Whether the compressor searches for matches across a long window.
pub const LONG_DISTANCE_MATCHING: bool = true;

/// Whether a frame ends with a checksum of its content. The container's
/// geometry already fixes the length of the pixel bytes.
pub const CONTENT_CHECKSUM: bool = false;

/// What `zstd::decode_all` yields for `stream` when it succeeds; `None`
/// where `stream` is no sequence of complete zstd frames.
pub uninterp spec fn zstd_decoded(stream: Seq<u8>) -> Option<Seq<u8>>;

/// `zstd::bulk::Compressor`: `new` with `level`, then
/// `long_distance_matching`, `include_checksum` and `compress`.
///
/// Taken as given: zstd is lossless, so the frame that `compress` returns is
/// one that `decode_all` decodes to `data`. Nothing is claimed of a failure,
/// which zstd reports when it runs out of resources.
#[verifier::external_body]
fn zstd_compress(data: &[u8], level: i32, long_distance: bool, checksum: bool) -> (r: Result<
    Vec<u8>,
    std::io::Error,
>)
    ensures
        r matches Ok(frame) ==> zstd_decoded(frame@) == Some(data@),
{
    let mut compressor = zstd::bulk::Compressor::new(level)?;
    compressor.long_distance_matching(long_distance)?;
    compressor.include_checksum(checksum)?;
    compressor.compress(data)
}

/// `zstd::decode_all` on a byte slice.
///
/// Taken as given: what it returns on success depends on the bytes of
/// `stream` alone. Nothing is claimed of a failure, which may come from a
/// corrupt or truncated stream or from a lack of memory.
#[verifier::external_body]
fn zstd_decode_all(stream: &[u8]) -> (r: Result<Vec<u8>, std::io::Error>)
    ensures
        r matches Ok(data) ==> zstd_decoded(stream@) == Some(data@),
{
    zstd::decode_all(stream)
}

/// Whether `r` is an outcome that compressing `data` may have.
pub open spec fn compress_outcome(data: Seq<u8>, r: Result<Vec<u8>, Error>) -> bool {
    match r {
        Ok(frame) => zstd_decoded(frame@) == Some(data),
        Err(e) => e is Io,
    }
}

/// Whether `r` is an outcome that decompressing `stream` may have.
pub open spec fn decompress_outcome(stream: Seq<u8>, r: Result<Vec<u8>, Error>) -> bool {
    match r {
        Ok(data) => zstd_decoded(stream) == Some(data@),
        Err(e) => e is Io,
    }
}

/// Compresses `data` into one zstd frame. The only failure is one that the
/// backend reports, handed on as `Error::Io`.
pub fn compress(data: &[u8]) -> (r: Result<Vec<u8>, Error>)
    ensures
        compress_outcome(data@, r),
{
    match zstd_compress(data, COMPRESSION_LEVEL, LONG_DISTANCE_MATCHING, CONTENT_CHECKSUM) {
        Ok(frame) => Ok(frame),
        Err(e) => Err(Error::from(e)),
    }
}

/// Decompresses a zstd stream. A corrupt or truncated stream, or any other
/// failure of the backend, comes back as `Error::Io`.
pub fn decompress(stream: &[u8]) -> (r: Result<Vec<u8>, Error>)
    ensures
        decompress_outcome(stream@, r),
{
    match zstd_decode_all(stream) {
        Ok(data) => Ok(data),
        Err(e) => Err(Error::from(e)),
    }
}

/// Whatever comes out of `compress` decompresses to what went in, unless the
/// backend fails.
pub proof fn lemma_compression_round_trip(
    data: Seq<u8>,
    compressed: Result<Vec<u8>, Error>,
    restored: Result<Vec<u8>, Error>,
)
    requires
        compress_outcome(data, compressed),
        compressed is Ok,
        decompress_outcome(compressed->Ok_0@, restored),
    ensures
        restored matches Ok(bytes) ==> bytes@ == data,
        restored matches Err(e) ==> e is Io,
{
}

} // verus!

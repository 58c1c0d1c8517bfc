//! Reversible compression of the serialized records, applied before
//! encryption.

use crate::error::{ArchiveError, FormatError};
use flate2::read::ZlibDecoder;
use flate2::write::ZlibEncoder;
use flate2::Compression;
use std::io::{Read, Write};
use vstd::prelude::*;

verus! {

/// The zlib stream that `flate2` writes for `data` at its default level.
pub uninterp spec fn zlib_deflate(data: Seq<u8>) -> Seq<u8>;

/// What `flate2` reads out of the zlib stream `data`, or `None` where the
/// stream is corrupt or incomplete.
pub uninterp spec fn zlib_inflate(data: Seq<u8>) -> Option<Seq<u8>>;

/// `std::io::Error`, in which the decoder reports a stream that it cannot
/// read. It is carried through and never looked into.
#[verifier::external_type_specification]
#[verifier::external_body]
pub struct ExIoError(std::io::Error);

/// Runs `flate2::write::ZlibEncoder` over `data` at `Compression::default()`
/// and returns what `finish` hands back.
///
/// Trusted: the result is a function of `data` alone, and it is a stream
/// that the zlib decoder turns back into `data`. Writing into a `Vec` cannot
/// fail, so neither `write_all` nor `finish` returns an error here.
#[verifier::external_body]
fn zlib_encode(data: &[u8]) -> (out: Vec<u8>)
    ensures
        out@ == zlib_deflate(data@),
        zlib_inflate(out@) == Some(data@),
{
    let mut encoder = ZlibEncoder::new(Vec::new(), Compression::default());
    encoder.write_all(data).unwrap();
    encoder.finish().unwrap()
}

/// Reads `flate2::read::ZlibDecoder` over `data` to its end.
///
/// Trusted: whether this succeeds, and with which bytes, is a function of
/// `data` alone. The decoder reports a corrupt or incomplete stream as an
/// error.
#[verifier::external_body]
fn zlib_decode(data: &[u8]) -> (r: Result<Vec<u8>, std::io::Error>)
    ensures
        match r {
            Ok(out) => zlib_inflate(data@) == Some(out@),
            Err(_) => zlib_inflate(data@) is None,
        },
{
    let mut decoder = ZlibDecoder::new(data);
    let mut out = Vec::new();
    match decoder.read_to_end(&mut out) {
        Ok(_) => Ok(out),
        Err(e) => Err(e),
    }
}

/// What [`decompress_data`] returns for `data`.
pub open spec fn decompressed(data: Seq<u8>) -> Result<Seq<u8>, ArchiveError> {
    match zlib_inflate(data) {
        Some(out) => Ok(out),
        None => Err(ArchiveError::Format(FormatError::InvalidCompressedData)),
    }
}

/// Compresses `data`. Decompressing the result gives `data` back, for every
/// `data`, the empty sequence included.
pub fn compress_data(data: &[u8]) -> (out: Vec<u8>)
    ensures
        out@ == zlib_deflate(data@),
        decompressed(out@) == Ok::<Seq<u8>, ArchiveError>(data@),
{
    zlib_encode(data)
}

/// Decompresses `data`, or reports that it is not validly compressed.
pub fn decompress_data(data: &[u8]) -> (r: Result<Vec<u8>, ArchiveError>)
    ensures
        match r {
            Ok(out) => decompressed(data@) == Ok::<Seq<u8>, ArchiveError>(out@),
            Err(e) => decompressed(data@) == Err::<Seq<u8>, ArchiveError>(e),
        },
{
    match zlib_decode(data) {
        Ok(out) => Ok(out),
        Err(_) => Err(ArchiveError::Format(FormatError::InvalidCompressedData)),
    }
}

} // verus!

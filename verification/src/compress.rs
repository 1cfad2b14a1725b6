//! Decompression of kernel images and compression of saved state, through
//! the zstd and gzip codecs.

use vstd::prelude::*;

verus! {

/// The standard I/O error the codecs report.
#[verifier::external_type_specification]
#[verifier::external_body]
pub struct ExIoError(std::io::Error);

/// The bytes a zstd stream decodes to, when it is a valid stream.
pub uninterp spec fn zstd_decoded(data: Seq<u8>) -> Option<Seq<u8>>;

/// The zstd stream `data` compresses to at `level`, when compression succeeds.
pub uninterp spec fn zstd_encoded(data: Seq<u8>, level: i32) -> Option<Seq<u8>>;

/// The bytes the first member of a gzip stream decodes to, when it is valid.
pub uninterp spec fn gzip_decoded(data: Seq<u8>) -> Option<Seq<u8>>;

/// `zstd::stream::decode_all` on an in-memory buffer: the result depends on
/// the input bytes alone; it fails exactly when they are no valid zstd data.
#[verifier::external_body]
fn zstd_decode_all(data: &[u8]) -> (r: Result<Vec<u8>, std::io::Error>)
    ensures
        r is Ok <==> zstd_decoded(data@) is Some,
        r matches Ok(v) ==> zstd_decoded(data@) == Some(v@),
{
    zstd::stream::decode_all(data)
}

/// `zstd::stream::encode_all` on an in-memory buffer: the result depends on
/// the input bytes and the level alone, and, zstd being lossless, decodes
/// back to the input.
#[verifier::external_body]
fn zstd_encode_all(data: &[u8], level: i32) -> (r: Result<Vec<u8>, std::io::Error>)
    ensures
        r is Ok <==> zstd_encoded(data@, level) is Some,
        r matches Ok(v) ==> zstd_encoded(data@, level) == Some(v@) && zstd_decoded(v@) == Some(data@),
{
    zstd::stream::encode_all(data, level)
}

/// `flate2::read::GzDecoder` read to the end: the result depends on the
/// input bytes alone; it fails exactly when they are no valid gzip data.
#[verifier::external_body]
fn gzip_decode_all(data: &[u8]) -> (r: Result<Vec<u8>, std::io::Error>)
    ensures
        r is Ok <==> gzip_decoded(data@) is Some,
        r matches Ok(v) ==> gzip_decoded(data@) == Some(v@),
{
    let mut result = Vec::new();
    std::io::Read::read_to_end(&mut flate2::read::GzDecoder::new(data), &mut result).map(|_| result)
}

/// The text of an I/O error after `prefix`. Its wording is std's and is left unstated.
#[verifier::external_body]
fn describe_io_error(prefix: &str, e: &std::io::Error) -> String {
    format!("{}: {}", prefix, e)
}

/// Decompress zstd-compressed data (a compressed kernel image, for instance).
pub fn decompress_zstd(data: &[u8]) -> (r: Result<Vec<u8>, String>)
    ensures
        r is Ok <==> zstd_decoded(data@) is Some,
        r matches Ok(v) ==> zstd_decoded(data@) == Some(v@),
{
    match zstd_decode_all(data) {
        Ok(v) => Ok(v),
        Err(e) => Err(describe_io_error("Zstd decompression error", &e)),
    }
}

/// Decompress gzip-compressed data (the first member of the stream).
pub fn decompress_gzip(data: &[u8]) -> (r: Result<Vec<u8>, String>)
    ensures
        r is Ok <==> gzip_decoded(data@) is Some,
        r matches Ok(v) ==> gzip_decoded(data@) == Some(v@),
{
    match gzip_decode_all(data) {
        Ok(v) => Ok(v),
        Err(e) => Err(describe_io_error("Gzip decompression error", &e)),
    }
}

/// Compress serialized state with zstd at `level` (0 is zstd's default).
/// What comes back decompresses to the input.
pub fn compress_state(serialized: &[u8], level: i32) -> (r: Result<Vec<u8>, String>)
    ensures
        r is Ok <==> zstd_encoded(serialized@, level) is Some,
        r matches Ok(v) ==> zstd_encoded(serialized@, level) == Some(v@) && zstd_decoded(v@) == Some(serialized@),
{
    match zstd_encode_all(serialized, level) {
        Ok(v) => Ok(v),
        Err(e) => Err(describe_io_error("Compression error", &e)),
    }
}

/// Decompress saved state compressed with zstd.
pub fn decompress_state(data: &[u8]) -> (r: Result<Vec<u8>, String>)
    ensures
        r is Ok <==> zstd_decoded(data@) is Some,
        r matches Ok(v) ==> zstd_decoded(data@) == Some(v@),
{
    match zstd_decode_all(data) {
        Ok(v) => Ok(v),
        Err(e) => Err(describe_io_error("Decompression error", &e)),
    }
}

} // verus!

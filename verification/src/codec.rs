//! Digests and compression, through the `md5`, `sha2`, `flate2`,
//! `liblzma` and `zstd` crates. Each function here is a function of its
//! arguments alone, so each result is named; the wrappers also state the
//! short facts that the formats fix (digest lengths, stream magic).
use vstd::prelude::*;

use sha2::Digest;
use std::io::Read;

verus! {

/// The MD5 digest of a byte sequence.
pub uninterp spec fn md5_digest(data: Seq<u8>) -> Seq<u8>;

/// The SHA-256 digest of a byte sequence.
pub uninterp spec fn sha256_digest(data: Seq<u8>) -> Seq<u8>;

/// The gzip stream that `flate2` produces for `data` at `level`.
pub uninterp spec fn gzip_stream(data: Seq<u8>, level: u32) -> Seq<u8>;

/// The xz stream that `liblzma` produces for `data` at preset `level`.
pub uninterp spec fn xz_stream(data: Seq<u8>, level: u32) -> Seq<u8>;

/// The zstd frame that `zstd` produces for `data` at `level`.
pub uninterp spec fn zstd_stream(data: Seq<u8>, level: i32) -> Seq<u8>;

/// The magic number that starts a zstd frame.
pub open spec fn zstd_magic() -> Seq<u8> {
    seq![0x28u8, 0xB5u8, 0x2Fu8, 0xFDu8]
}

/// The magic bytes that start an xz stream.
pub open spec fn xz_magic() -> Seq<u8> {
    seq![0xFDu8, 0x37u8, 0x7Au8, 0x58u8, 0x5Au8, 0x00u8]
}

/// The first bytes of a gzip stream: ID1, ID2 and the deflate method.
pub open spec fn gzip_magic() -> Seq<u8> {
    seq![0x1Fu8, 0x8Bu8, 0x08u8]
}

/// `md5::compute`: the 16-byte digest.
#[verifier::external_body]
pub(crate) fn md5_compute(data: &[u8]) -> (res: Vec<u8>)
    ensures
        res@ == md5_digest(data@),
        res@.len() == 16,
{
    md5::compute(data).0.to_vec()
}

/// `sha2::Sha256::digest`: the 32-byte digest.
#[verifier::external_body]
pub(crate) fn sha256_compute(data: &[u8]) -> (res: Vec<u8>)
    ensures
        res@ == sha256_digest(data@),
        res@.len() == 32,
{
    sha2::Sha256::digest(data).to_vec()
}

/// `flate2::read::GzEncoder` at `level`, read to the end. The input is an
/// in-memory slice, so reading cannot fail; the compressor itself fails
/// only where the allocator does (which aborts the process). A level above
/// 9 trips an assertion in the zlib-rs backend, so it is ruled out.
#[verifier::external_body]
pub(crate) fn gzip_compress(data: &[u8], level: u32) -> (res: Result<Vec<u8>, std::io::Error>)
    requires
        level <= 9,
    ensures
        res is Ok,
        res matches Ok(out) ==> out@ == gzip_stream(data@, level) && gzip_magic().is_prefix_of(out@),
{
    let mut out = Vec::new();
    flate2::read::GzEncoder::new(data, flate2::Compression::new(level)).read_to_end(&mut out)?;
    Ok(out)
}

/// `liblzma::encode_all` at preset `level`. It reads an in-memory slice
/// and writes into memory; liblzma reports an error for a valid preset
/// only when it cannot allocate, so success is stated.
#[verifier::external_body]
pub(crate) fn xz_compress(data: &[u8], level: u32) -> (res: Result<Vec<u8>, std::io::Error>)
    requires
        level <= 9,
    ensures
        res is Ok,
        res matches Ok(out) ==> out@ == xz_stream(data@, level) && xz_magic().is_prefix_of(out@),
{
    liblzma::encode_all(data, level)
}

/// `zstd::encode_all` at `level` (zstd clamps the level to its range). It
/// reads an in-memory slice and writes into memory; the library reports an
/// error only when it cannot allocate, so success is stated.
#[verifier::external_body]
pub(crate) fn zstd_compress(data: &[u8], level: i32) -> (res: Result<Vec<u8>, std::io::Error>)
    ensures
        res is Ok,
        res matches Ok(out) ==> out@ == zstd_stream(data@, level) && zstd_magic().is_prefix_of(out@),
{
    zstd::encode_all(data, level)
}

} // verus!

//! The compression envelope: five algorithms to wrap an archive in, and to
//! take it out again.
//!
//! The algorithms themselves are the work of the crates `flate2`, `xz2`,
//! `zstd`, `brotli` and `bzip2`. Nothing is proved of them here. What each
//! decoder makes of a byte stream depends on the stream alone and is given
//! a name. An encoder is trusted to write something that its decoder reads
//! back as the input; which bytes it writes is left open, and they may
//! differ from one build or machine to the next.

use crate::sniff::Compression;
use crate::types::Error;
use std::io::Read;
use std::io::Write;
use vstd::prelude::*;

verus! {

/// What decoding `data` as one gzip member gives, if it can be decoded.
pub uninterp spec fn gzip_decoding(data: Seq<u8>) -> Option<Seq<u8>>;

/// What decoding `data` as one xz stream gives, if it can be decoded.
pub uninterp spec fn lzma_decoding(data: Seq<u8>) -> Option<Seq<u8>>;

/// What decoding `data` as zstd frames gives, if it can be decoded.
pub uninterp spec fn zstd_decoding(data: Seq<u8>) -> Option<Seq<u8>>;

/// What decoding `data` as a brotli stream gives, if it can be decoded.
pub uninterp spec fn brotli_decoding(data: Seq<u8>) -> Option<Seq<u8>>;

/// What decoding `data` as one bzip2 stream gives, if it can be decoded.
pub uninterp spec fn bzip2_decoding(data: Seq<u8>) -> Option<Seq<u8>>;

/// The bytes that the outcome of a codec holds, if it holds any.
pub open spec fn bytes_of(outcome: Option<Vec<u8>>) -> Option<Seq<u8>> {
    match outcome {
        Some(bytes) => Some(bytes@),
        None => None,
    }
}

/// What taking `data` out of the envelope of `kind` gives. Brotli has no
/// signature to know it by, so bytes that are no brotli stream are taken
/// to be uncompressed and come out as they are.
pub open spec fn decoding(kind: Compression, data: Seq<u8>) -> Option<Seq<u8>> {
    match kind {
        Compression::Gzip => gzip_decoding(data),
        Compression::Lzma => lzma_decoding(data),
        Compression::Zstd => zstd_decoding(data),
        Compression::Brotli => Some(brotli_or_raw(data)),
        Compression::Bzip2 => bzip2_decoding(data),
    }
}

/// The brotli decoding of `data`, or `data` itself where there is none.
pub open spec fn brotli_or_raw(data: Seq<u8>) -> Seq<u8> {
    match brotli_decoding(data) {
        Some(raw) => raw,
        None => data,
    }
}

/// `flate2::write::GzEncoder`, at the default level, fed `data` and
/// finished. Trusted: where the encoder reports no error, what it wrote is
/// a gzip member that decodes to `data`.
#[verifier::external_body]
fn gzip_encode(data: &Vec<u8>) -> (out: Option<Vec<u8>>)
    ensures
        out matches Some(packed) ==> gzip_decoding(packed@) == Some(data@),
{
    let mut encoder = flate2::write::GzEncoder::new(Vec::new(), flate2::Compression::default());
    if encoder.write_all(data).is_err() {
        return None;
    }
    encoder.finish().ok()
}

/// `xz2::write::XzEncoder`, at level 6, fed `data` and finished. Trusted:
/// where the encoder reports no error, what it wrote is an xz stream that
/// decodes to `data`.
#[verifier::external_body]
fn lzma_encode(data: &Vec<u8>) -> (out: Option<Vec<u8>>)
    ensures
        out matches Some(packed) ==> lzma_decoding(packed@) == Some(data@),
{
    let mut encoder = xz2::write::XzEncoder::new(Vec::new(), 6);
    if encoder.write_all(data).is_err() {
        return None;
    }
    encoder.finish().ok()
}

/// `zstd::stream::encode_all`, at level 3. Trusted: where it reports no
/// error, its result is a zstd frame that decodes to `data`.
#[verifier::external_body]
fn zstd_encode(data: &Vec<u8>) -> (out: Option<Vec<u8>>)
    ensures
        out matches Some(packed) ==> zstd_decoding(packed@) == Some(data@),
{
    zstd::stream::encode_all(data.as_slice(), 3).ok()
}

/// `brotli::CompressorWriter`, with a 4096-byte buffer, quality 11 and a
/// window of 22 bits, fed `data`, flushed and closed. Trusted: where the
/// writer reports no error, what it wrote is a brotli stream that decodes
/// to `data`.
#[verifier::external_body]
fn brotli_encode(data: &Vec<u8>) -> (out: Option<Vec<u8>>)
    ensures
        out matches Some(packed) ==> brotli_decoding(packed@) == Some(data@),
{
    let mut encoder = brotli::CompressorWriter::new(Vec::new(), 4096, 11, 22);
    if encoder.write_all(data).is_err() {
        return None;
    }
    if encoder.flush().is_err() {
        return None;
    }
    Some(encoder.into_inner())
}

/// `bzip2::write::BzEncoder`, at level 9, fed `data` and finished.
/// Trusted: where the encoder reports no error, what it wrote is a bzip2
/// stream that decodes to `data`.
#[verifier::external_body]
fn bzip2_encode(data: &Vec<u8>) -> (out: Option<Vec<u8>>)
    ensures
        out matches Some(packed) ==> bzip2_decoding(packed@) == Some(data@),
{
    let mut encoder = bzip2::write::BzEncoder::new(Vec::new(), bzip2::Compression::new(9));
    if encoder.write_all(data).is_err() {
        return None;
    }
    encoder.finish().ok()
}

/// `flate2::read::GzDecoder` over `data`, read to its end. Trusted: what is
/// read, or that the read fails, depends on `data` alone.
#[verifier::external_body]
fn gzip_decode(data: &Vec<u8>) -> (out: Option<Vec<u8>>)
    ensures
        bytes_of(out) == gzip_decoding(data@),
{
    let mut raw = Vec::new();
    match flate2::read::GzDecoder::new(data.as_slice()).read_to_end(&mut raw) {
        Ok(_) => Some(raw),
        Err(_) => None,
    }
}

/// `xz2::read::XzDecoder` over `data`, read to its end. Trusted: what is
/// read, or that the read fails, depends on `data` alone.
#[verifier::external_body]
fn lzma_decode(data: &Vec<u8>) -> (out: Option<Vec<u8>>)
    ensures
        bytes_of(out) == lzma_decoding(data@),
{
    let mut raw = Vec::new();
    match xz2::read::XzDecoder::new(data.as_slice()).read_to_end(&mut raw) {
        Ok(_) => Some(raw),
        Err(_) => None,
    }
}

/// `zstd::stream::decode_all`. Trusted: its result, or that it fails,
/// depends on `data` alone.
#[verifier::external_body]
fn zstd_decode(data: &Vec<u8>) -> (out: Option<Vec<u8>>)
    ensures
        bytes_of(out) == zstd_decoding(data@),
{
    zstd::stream::decode_all(data.as_slice()).ok()
}

/// `brotli::Decompressor` over `data`, with a 4096-byte buffer, read to its
/// end. Trusted: what is read, or that the read fails, depends on `data`
/// alone.
#[verifier::external_body]
fn brotli_decode(data: &Vec<u8>) -> (out: Option<Vec<u8>>)
    ensures
        bytes_of(out) == brotli_decoding(data@),
{
    let mut raw = Vec::new();
    match brotli::Decompressor::new(data.as_slice(), 4096).read_to_end(&mut raw) {
        Ok(_) => Some(raw),
        Err(_) => None,
    }
}

/// `bzip2::read::BzDecoder` over `data`, read to its end. Trusted: what is
/// read, or that the read fails, depends on `data` alone.
#[verifier::external_body]
fn bzip2_decode(data: &Vec<u8>) -> (out: Option<Vec<u8>>)
    ensures
        bytes_of(out) == bzip2_decoding(data@),
{
    let mut raw = Vec::new();
    match bzip2::read::BzDecoder::new(data.as_slice()).read_to_end(&mut raw) {
        Ok(_) => Some(raw),
        Err(_) => None,
    }
}

/// What the caller gets for the outcome of a codec: the bytes, or the
/// error that names the codec.
pub fn or_codec_error(outcome: Option<Vec<u8>>, kind: Compression) -> (r: Result<Vec<u8>, Error>)
    ensures
        match outcome {
            Some(bytes) => r == Ok::<_, Error>(bytes),
            None => r == Err::<Vec<u8>, _>(Error::CodecError(kind)),
        },
{
    match outcome {
        Some(bytes) => Ok(bytes),
        None => Err(Error::CodecError(kind)),
    }
}

/// The fallback for brotli: where the decoder gave nothing, the data is
/// taken to have been uncompressed and is handed on as it is.
pub fn or_unchanged(outcome: Option<Vec<u8>>, data: &Vec<u8>) -> (out: Vec<u8>)
    ensures
        out@ == match outcome {
            Some(raw) => raw@,
            None => data@,
        },
{
    match outcome {
        Some(raw) => raw,
        None => data.clone(),
    }
}

/// Wrapping bytes in a compression envelope.
pub trait Compress {
    fn gzip(&self) -> Result<Vec<u8>, Error>;

    fn lzma(&self) -> Result<Vec<u8>, Error>;

    fn zstd(&self) -> Result<Vec<u8>, Error>;

    fn brotli(&self) -> Result<Vec<u8>, Error>;

    fn bzip2(&self) -> Result<Vec<u8>, Error>;
}

/// Taking bytes out of a compression envelope.
pub trait Decompress {
    fn gunzip(&self) -> Result<Vec<u8>, Error>;

    fn unlzma(&self) -> Result<Vec<u8>, Error>;

    fn unzstd(&self) -> Result<Vec<u8>, Error>;

    fn unbrotli(&self) -> Vec<u8>;

    fn unbzip2(&self) -> Result<Vec<u8>, Error>;
}

/// `r` is what compressing `data` with `kind` may return: bytes that
/// decode to `data`, or the error that names the codec.
pub open spec fn compressed(data: Seq<u8>, kind: Compression, r: Result<Vec<u8>, Error>) -> bool {
    match r {
        Ok(packed) => decoding(kind, packed@) == Some(data),
        Err(e) => e == Error::CodecError(kind),
    }
}

/// `r` is what decompressing `data` with `kind` returns: the decoding of
/// `data`, or the error that names the codec where there is none.
pub open spec fn decompressed(data: Seq<u8>, kind: Compression, r: Result<Vec<u8>, Error>) -> bool {
    match r {
        Ok(raw) => decoding(kind, data) == Some(raw@),
        Err(e) => e == Error::CodecError(kind) && decoding(kind, data) is None,
    }
}

impl Compress for Vec<u8> {
    fn gzip(&self) -> (r: Result<Vec<u8>, Error>)
        ensures
            compressed(self@, Compression::Gzip, r),
    {
        or_codec_error(gzip_encode(self), Compression::Gzip)
    }

    fn lzma(&self) -> (r: Result<Vec<u8>, Error>)
        ensures
            compressed(self@, Compression::Lzma, r),
    {
        or_codec_error(lzma_encode(self), Compression::Lzma)
    }

    fn zstd(&self) -> (r: Result<Vec<u8>, Error>)
        ensures
            compressed(self@, Compression::Zstd, r),
    {
        or_codec_error(zstd_encode(self), Compression::Zstd)
    }

    fn brotli(&self) -> (r: Result<Vec<u8>, Error>)
        ensures
            compressed(self@, Compression::Brotli, r),
    {
        or_codec_error(brotli_encode(self), Compression::Brotli)
    }

    fn bzip2(&self) -> (r: Result<Vec<u8>, Error>)
        ensures
            compressed(self@, Compression::Bzip2, r),
    {
        or_codec_error(bzip2_encode(self), Compression::Bzip2)
    }
}

impl Decompress for Vec<u8> {
    fn gunzip(&self) -> (r: Result<Vec<u8>, Error>)
        ensures
            decompressed(self@, Compression::Gzip, r),
    {
        or_codec_error(gzip_decode(self), Compression::Gzip)
    }

    fn unlzma(&self) -> (r: Result<Vec<u8>, Error>)
        ensures
            decompressed(self@, Compression::Lzma, r),
    {
        or_codec_error(lzma_decode(self), Compression::Lzma)
    }

    fn unzstd(&self) -> (r: Result<Vec<u8>, Error>)
        ensures
            decompressed(self@, Compression::Zstd, r),
    {
        or_codec_error(zstd_decode(self), Compression::Zstd)
    }

    /// Never fails: bytes that are no brotli stream are returned unchanged.
    fn unbrotli(&self) -> (out: Vec<u8>)
        ensures
            out@ == brotli_or_raw(self@),
            brotli_decoding(self@) is None ==> out@ == self@,
    {
        or_unchanged(brotli_decode(self), self)
    }

    fn unbzip2(&self) -> (r: Result<Vec<u8>, Error>)
        ensures
            decompressed(self@, Compression::Bzip2, r),
    {
        or_codec_error(bzip2_decode(self), Compression::Bzip2)
    }
}

/// Wraps `data` in the envelope of `kind`.
pub fn compress(data: &Vec<u8>, kind: Compression) -> (r: Result<Vec<u8>, Error>)
    ensures
        compressed(data@, kind, r),
{
    match kind {
        Compression::Gzip => data.gzip(),
        Compression::Lzma => data.lzma(),
        Compression::Zstd => data.zstd(),
        Compression::Brotli => data.brotli(),
        Compression::Bzip2 => data.bzip2(),
    }
}

/// Takes `data` out of the envelope of `kind`.
pub fn decompress(data: &Vec<u8>, kind: Compression) -> (r: Result<Vec<u8>, Error>)
    ensures
        decompressed(data@, kind, r),
{
    match kind {
        Compression::Gzip => data.gunzip(),
        Compression::Lzma => data.unlzma(),
        Compression::Zstd => data.unzstd(),
        Compression::Brotli => Ok(data.unbrotli()),
        Compression::Bzip2 => data.unbzip2(),
    }
}

} // verus!

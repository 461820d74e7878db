//! Guessing the compression envelope of an archive from its leading bytes.
//!
//! An archive does not record how it was compressed. Four of the five
//! algorithms begin their output with a signature of their own; brotli has
//! none, and is what remains when no signature is found.

use vstd::prelude::*;

verus! {

/// The compression algorithms an archive may be wrapped in.
#[derive(Clone, Copy, Debug, PartialEq, Eq, Structural)]
pub enum Compression {
    Gzip,
    Lzma,
    Zstd,
    Brotli,
    Bzip2,
}

/// The signature of a gzip member.
pub open spec fn gzip_magic() -> Seq<u8> {
    seq![0x1fu8, 0x8bu8]
}

/// The signature of an xz stream.
pub open spec fn lzma_magic() -> Seq<u8> {
    seq![0xfdu8, 0x37u8, 0x7au8, 0x58u8, 0x5au8, 0x00u8]
}

/// The signature of a zstd frame.
pub open spec fn zstd_magic() -> Seq<u8> {
    seq![0x28u8, 0xb5u8, 0x2fu8, 0xfdu8]
}

/// The signature of a bzip2 stream.
pub open spec fn bzip2_magic() -> Seq<u8> {
    seq![0x42u8, 0x5au8, 0x68u8]
}

/// `bytes` begins with `magic`.
pub open spec fn has_prefix(bytes: Seq<u8>, magic: Seq<u8>) -> bool {
    magic.len() <= bytes.len() && bytes.subrange(0, magic.len() as int) == magic
}

/// The algorithm that the leading bytes point to: the signatures are tried
/// in a fixed order, and brotli is assumed when none is there.
pub open spec fn sniff(bytes: Seq<u8>) -> Compression {
    if has_prefix(bytes, gzip_magic()) {
        Compression::Gzip
    } else if has_prefix(bytes, lzma_magic()) {
        Compression::Lzma
    } else if has_prefix(bytes, zstd_magic()) {
        Compression::Zstd
    } else if has_prefix(bytes, bzip2_magic()) {
        Compression::Bzip2
    } else {
        Compression::Brotli
    }
}

/// Whether `data` begins with `magic`.
pub fn starts_with(data: &[u8], magic: &[u8]) -> (found: bool)
    ensures
        found == has_prefix(data@, magic@),
{
    if magic.len() > data.len() {
        return false;
    }
    let mut i: usize = 0;
    while i < magic.len()
        invariant
            i <= magic.len() <= data.len(),
            data@.subrange(0, i as int) == magic@.subrange(0, i as int),
        decreases magic.len() - i,
    {
        if data[i] != magic[i] {
            return false;
        }
        i += 1;
    }
    assert(magic@.subrange(0, i as int) == magic@);
    true
}

/// Picks the algorithm to undo before an archive of unknown compression is
/// unpacked. Each signature selects its own algorithm and no other; a
/// buffer with none of them selects brotli.
pub fn probable_compression(contents: &[u8]) -> (kind: Compression)
    ensures
        kind == sniff(contents@),
        kind == Compression::Gzip <==> has_prefix(contents@, gzip_magic()),
        kind == Compression::Lzma <==> has_prefix(contents@, lzma_magic()),
        kind == Compression::Zstd <==> has_prefix(contents@, zstd_magic()),
        kind == Compression::Bzip2 <==> has_prefix(contents@, bzip2_magic()),
        kind == Compression::Brotli <==> {
            &&& !has_prefix(contents@, gzip_magic())
            &&& !has_prefix(contents@, lzma_magic())
            &&& !has_prefix(contents@, zstd_magic())
            &&& !has_prefix(contents@, bzip2_magic())
        },
{
    let gzip: [u8; 2] = [0x1f, 0x8b];
    let lzma: [u8; 6] = [0xfd, 0x37, 0x7a, 0x58, 0x5a, 0x00];
    let zstd: [u8; 4] = [0x28, 0xb5, 0x2f, 0xfd];
    let bzip2: [u8; 3] = [0x42, 0x5a, 0x68];
    if starts_with(contents, gzip.as_slice()) {
        Compression::Gzip
    } else if starts_with(contents, lzma.as_slice()) {
        Compression::Lzma
    } else if starts_with(contents, zstd.as_slice()) {
        Compression::Zstd
    } else if starts_with(contents, bzip2.as_slice()) {
        Compression::Bzip2
    } else {
        Compression::Brotli
    }
}

} // verus!

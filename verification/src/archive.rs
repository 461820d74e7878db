//! From a tree to the bytes that are stored, and back: packing with an
//! optional compression envelope, and unpacking an archive whose envelope
//! has to be guessed.

use crate::compression::{compress, compressed, decoding, decompress};
use crate::format::entry_bytes;
use crate::packer::Serialize;
use crate::sniff::{probable_compression, sniff, Compression};
use crate::types::{Entry, Error};
use crate::unpacker::{deserialized, Deserialize};
use vstd::prelude::*;

verus! {

/// The algorithm that goes by `name`, if there is one.
pub open spec fn named(name: Seq<char>) -> Option<Compression> {
    if name == "gzip"@ {
        Some(Compression::Gzip)
    } else if name == "lzma"@ {
        Some(Compression::Lzma)
    } else if name == "zstd"@ {
        Some(Compression::Zstd)
    } else if name == "brotli"@ {
        Some(Compression::Brotli)
    } else if name == "bzip2"@ {
        Some(Compression::Bzip2)
    } else {
        None
    }
}

/// Looks up a compression algorithm by the name it is asked for with.
pub fn compression_named(name: &str) -> (kind: Option<Compression>)
    ensures
        kind == named(name@),
{
    let name = name.to_owned();
    if name == "gzip".to_owned() {
        Some(Compression::Gzip)
    } else if name == "lzma".to_owned() {
        Some(Compression::Lzma)
    } else if name == "zstd".to_owned() {
        Some(Compression::Zstd)
    } else if name == "brotli".to_owned() {
        Some(Compression::Brotli)
    } else if name == "bzip2".to_owned() {
        Some(Compression::Bzip2)
    } else {
        None
    }
}

/// `r` is what packing `entry` may return: without compression the bytes
/// of the archive, with it bytes that decode to them or the error of the
/// codec.
pub open spec fn packed(entry: Entry, kind: Option<Compression>, r: Result<Vec<u8>, Error>) -> bool {
    match kind {
        None => r matches Ok(bytes) && bytes@ == entry_bytes(entry@),
        Some(kind) => compressed(entry_bytes(entry@), kind, r),
    }
}

/// Packs a tree into the bytes to store: the archive, wrapped in the
/// envelope of `kind` where one is asked for.
pub fn pack(entry: &Entry, kind: Option<Compression>) -> (r: Result<Vec<u8>, Error>)
    ensures
        packed(*entry, kind, r),
{
    let bytes = entry.serialize();
    match kind {
        None => Ok(bytes),
        Some(kind) => compress(&bytes, kind),
    }
}

/// `r` is what unpacking the stored bytes `data` returns: the envelope is
/// guessed from the leading bytes and undone, and what was in it is read
/// as an archive.
pub open spec fn unpacked(data: Seq<u8>, r: Result<Vec<Entry>, Error>) -> bool {
    match decoding(sniff(data), data) {
        Some(raw) => deserialized(raw, r),
        None => r matches Err(e) && e == Error::CodecError(sniff(data)),
    }
}

/// Unpacks stored bytes whose compression is not known.
pub fn unpack(data: &Vec<u8>) -> (r: Result<Vec<Entry>, Error>)
    ensures
        unpacked(data@, r),
{
    let kind = probable_compression(data.as_slice());
    match decompress(data, kind) {
        Ok(raw) => <Vec<Entry>>::deserialize(raw.as_slice()),
        Err(e) => Err(e),
    }
}

} // verus!

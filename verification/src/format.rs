//! The archive format, as a mathematical description of what is written
//! and of how a byte stream is read back.
//!
//! One file is laid out as
//!
//! ```text
//! name | 0x00 | updated_at (u64 LE) | created_at (u64 LE) | size (u64 LE) | contents
//! ```
//!
//! and an archive is one file after another. A directory leaves no bytes of
//! its own: it stands for the files below it, in traversal order.

use crate::types::{DecodeFault, EntryView, FileView};
use vstd::bytes::{spec_u64_from_le_bytes, spec_u64_to_le_bytes};
use vstd::prelude::*;
use vstd::utf8::{decode_utf8, encode_utf8, valid_utf8};

verus! {

/// The fixed-width fields after a name take this many bytes.
pub const FIELDS_LEN: usize = 24;

/// What stands before the contents of a file: its name, the null byte that
/// ends it, the two timestamps and the size.
pub open spec fn header_bytes(name: Seq<char>, updated_at: u64, created_at: u64, size: u64) -> Seq<
    u8,
> {
    encode_utf8(name) + seq![0u8] + spec_u64_to_le_bytes(updated_at) + spec_u64_to_le_bytes(
        created_at,
    ) + spec_u64_to_le_bytes(size)
}

/// The bytes of one file. The size that is written is the length of the
/// contents, whatever the `size` field holds.
pub open spec fn file_bytes(file: FileView) -> Seq<u8> {
    header_bytes(file.name, file.updated_at, file.created_at, file.contents.len() as u64)
        + file.contents
}

/// The bytes of a list of files, one after another.
pub open spec fn files_bytes(files: Seq<FileView>) -> Seq<u8>
    decreases files.len(),
{
    if files.len() == 0 {
        Seq::empty()
    } else {
        files_bytes(files.drop_last()) + file_bytes(files.last())
    }
}

/// The files of a tree in pre-order: a file is itself, a directory is the
/// files of its children.
pub open spec fn files_of(entry: EntryView) -> Seq<FileView>
    decreases entry,
{
    match entry {
        EntryView::File(file) => seq![file],
        EntryView::Directory(dir) => files_in(dir.contents),
    }
}

/// The files of a list of trees, in pre-order.
pub open spec fn files_in(entries: Seq<EntryView>) -> Seq<FileView>
    decreases entries,
{
    if entries.len() == 0 {
        Seq::empty()
    } else {
        files_in(entries.drop_last()) + files_of(entries.last())
    }
}

/// The bytes of an archive of one tree: a file gives its own bytes, a
/// directory those of its children and nothing besides.
pub open spec fn entry_bytes(entry: EntryView) -> Seq<u8>
    decreases entry,
{
    match entry {
        EntryView::File(file) => file_bytes(file),
        EntryView::Directory(dir) => entries_bytes(dir.contents),
    }
}

/// The bytes of a list of trees, one after another.
pub open spec fn entries_bytes(entries: Seq<EntryView>) -> Seq<u8>
    decreases entries,
{
    if entries.len() == 0 {
        Seq::empty()
    } else {
        entries_bytes(entries.drop_last()) + entry_bytes(entries.last())
    }
}

/// One file read from the front of `bytes`, with the number of bytes it
/// took. The name runs up to the first null byte and must be UTF-8; the
/// three fields follow it; the size field says how many content bytes come
/// next, and they must all be there.
pub open spec fn parse_file(bytes: Seq<u8>) -> Result<(FileView, int), DecodeFault> {
    match bytes.index_of_first(0u8) {
        None => Err(DecodeFault::UnterminatedName),
        Some(end) => {
            let name = bytes.subrange(0, end);
            let fields = bytes.skip(end + 1);
            if !valid_utf8(name) {
                Err(DecodeFault::InvalidName)
            } else if fields.len() < FIELDS_LEN {
                Err(DecodeFault::TruncatedField)
            } else {
                let size = spec_u64_from_le_bytes(fields.subrange(16, 24));
                if size > fields.len() - FIELDS_LEN {
                    Err(DecodeFault::ContentOverrun)
                } else {
                    Ok(
                        (
                            FileView {
                                name: decode_utf8(name),
                                size,
                                created_at: spec_u64_from_le_bytes(fields.subrange(8, 16)),
                                updated_at: spec_u64_from_le_bytes(fields.subrange(0, 8)),
                                contents: fields.subrange(24, 24 + size),
                            },
                            end + 1 + FIELDS_LEN + size,
                        ),
                    )
                }
            }
        },
    }
}

/// `files` in front of what the rest of a stream gave.
pub open spec fn files_then(files: Seq<FileView>, rest: Result<Seq<FileView>, DecodeFault>) -> Result<
    Seq<FileView>,
    DecodeFault,
> {
    match rest {
        Ok(more) => Ok(files + more),
        Err(fault) => Err(fault),
    }
}

/// A whole stream read as an archive: file after file until no byte is
/// left, or the fault of the first file that cannot be read.
pub open spec fn parse_files(bytes: Seq<u8>) -> Result<Seq<FileView>, DecodeFault>
    decreases bytes.len(),
    via parse_files_decreases
{
    if bytes.len() == 0 {
        Ok(Seq::empty())
    } else {
        match parse_file(bytes) {
            Err(fault) => Err(fault),
            Ok((file, used)) => files_then(seq![file], parse_files(bytes.skip(used))),
        }
    }
}

#[via_fn]
proof fn parse_files_decreases(bytes: Seq<u8>) {
    bytes.index_of_first_ensures(0u8);
}

} // verus!

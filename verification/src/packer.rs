//! Packing: an entry becomes the bytes of an archive.

use crate::format::{entries_bytes, entry_bytes, file_bytes};
use crate::types::{Entry, File};
use vstd::bytes::u64_to_le_bytes;
use vstd::prelude::*;

verus! {

/// Something that can be written as the bytes of an archive.
pub trait Serialize {
    fn serialize(&self) -> Vec<u8>;
}

/// Appends the bytes of one file to `out`.
fn write_file(file: &File, out: &mut Vec<u8>)
    ensures
        final(out)@ == old(out)@ + file_bytes(file@),
{
    out.extend_from_slice(file.name.as_str().as_bytes());
    out.push(0);
    let updated_at = u64_to_le_bytes(file.updated_at);
    out.extend_from_slice(updated_at.as_slice());
    let created_at = u64_to_le_bytes(file.created_at);
    out.extend_from_slice(created_at.as_slice());
    let size = u64_to_le_bytes(file.contents.len() as u64);
    out.extend_from_slice(size.as_slice());
    out.extend_from_slice(file.contents.as_slice());
}

/// Appends the bytes of a tree to `out`, children in order.
fn write_entry(entry: &Entry, out: &mut Vec<u8>)
    ensures
        final(out)@ == old(out)@ + entry_bytes(entry@),
    decreases entry,
{
    match entry {
        Entry::File(file) => {
            write_file(file, out);
        },
        Entry::Directory(dir) => {
            let mut i: usize = 0;
            while i < dir.contents.len()
                invariant
                    i <= dir.contents.len(),
                    *entry == Entry::Directory(*dir),
                    out@ == old(out)@ + entries_bytes(dir@.contents.take(i as int)),
                decreases dir.contents.len() - i,
            {
                assert(dir@.contents.take(i + 1).drop_last() == dir@.contents.take(i as int));
                assert(entry->Directory_0 == *dir);
                write_entry(&dir.contents[i], out);
                i += 1;
            }
            assert(dir@.contents.take(i as int) == dir@.contents);
        },
    }
}

impl Serialize for Entry {
    fn serialize(&self) -> (out: Vec<u8>)
        ensures
            out@ == entry_bytes(self@),
    {
        let mut out = Vec::new();
        write_entry(self, &mut out);
        out
    }
}

} // verus!

//! Unpacking: the bytes of an archive become the files they hold.

use crate::format::{files_then, parse_file, parse_files, FIELDS_LEN};
use crate::types::{DecodeFault, Entry, EntryView, Error, File, FileView};
use vstd::bytes::u64_from_le_bytes;
use vstd::prelude::*;
use vstd::slice::{slice_subrange, slice_to_vec};
use vstd::utf8::{decode_utf8, valid_utf8};

verus! {

/// Something that can be read from the bytes of an archive.
pub trait Deserialize where Self: Sized {
    fn deserialize(data: &[u8]) -> Result<Self, Error>;
}

/// The views of a list of entries.
pub open spec fn views(entries: Seq<Entry>) -> Seq<EntryView> {
    Seq::new(entries.len(), |i: int| entries[i]@)
}

/// A list of files as the entries of an unpacked archive.
pub open spec fn file_entries(files: Seq<FileView>) -> Seq<EntryView> {
    Seq::new(files.len(), |i: int| EntryView::File(files[i]))
}

/// `String::from_utf8` of the standard library. Its documentation says that
/// the call succeeds exactly on well-formed UTF-8 and that the string then
/// holds the text that the bytes encode; the contract says the same.
#[verifier::external_body]
fn string_from_utf8(bytes: Vec<u8>) -> (text: Option<String>)
    ensures
        text is Some <==> valid_utf8(bytes@),
        text matches Some(s) ==> s@ == decode_utf8(bytes@),
{
    match String::from_utf8(bytes) {
        Ok(s) => Some(s),
        Err(_) => None,
    }
}

/// Reads the file that starts at `start` and says where the next one starts.
fn read_file(data: &[u8], start: usize) -> (r: Result<(File, usize), DecodeFault>)
    requires
        start <= data.len(),
    ensures
        match r {
            Ok((file, next)) => {
                &&& start < next <= data.len()
                &&& parse_file(data@.skip(start as int)) == Ok::<_, DecodeFault>(
                    (file@, next - start),
                )
            },
            Err(fault) => parse_file(data@.skip(start as int)) == Err::<(FileView, int), _>(fault),
        },
{
    let ghost rest = data@.skip(start as int);
    let mut end: usize = start;
    while end < data.len() && data[end] != 0
        invariant
            start <= end <= data.len(),
            forall|k: int| start <= k < end ==> data@[k] != 0,
        decreases data.len() - end,
    {
        end += 1;
    }
    proof {
        rest.index_of_first_ensures(0u8);
        if end < data.len() {
            assert(rest[end - start] == 0);
        }
    }
    if end == data.len() {
        return Err(DecodeFault::UnterminatedName);
    }
    let name_bytes = slice_to_vec(slice_subrange(data, start, end));
    assert(name_bytes@ == rest.subrange(0, end - start));
    let name = match string_from_utf8(name_bytes) {
        Some(name) => name,
        None => {
            return Err(DecodeFault::InvalidName);
        },
    };
    let fields = end + 1;
    let ghost tail = rest.skip(end + 1 - start);
    if data.len() - fields < FIELDS_LEN {
        return Err(DecodeFault::TruncatedField);
    }
    let updated_at = u64_from_le_bytes(slice_subrange(data, fields, fields + 8));
    let created_at = u64_from_le_bytes(slice_subrange(data, fields + 8, fields + 16));
    let size = u64_from_le_bytes(slice_subrange(data, fields + 16, fields + 24));
    assert(data@.subrange(fields as int, fields + 8) == tail.subrange(0, 8));
    assert(data@.subrange(fields + 8, fields + 16) == tail.subrange(8, 16));
    assert(data@.subrange(fields + 16, fields + 24) == tail.subrange(16, 24));
    let body = fields + FIELDS_LEN;
    if size > (data.len() - body) as u64 {
        return Err(DecodeFault::ContentOverrun);
    }
    let next = body + size as usize;
    let contents = slice_to_vec(slice_subrange(data, body, next));
    assert(contents@ == tail.subrange(24, 24 + size));
    Ok((File { name, size, created_at, updated_at, contents }, next))
}

/// `r` is what unpacking `bytes` returns: the files that the stream is
/// read as, each one a file entry, or the fault that stops the reading.
pub open spec fn deserialized(bytes: Seq<u8>, r: Result<Vec<Entry>, Error>) -> bool {
    match r {
        Ok(entries) => parse_files(bytes) matches Ok(files) && views(entries@) == file_entries(
            files,
        ),
        Err(e) => e matches Error::DecodeError(fault) && parse_files(bytes) == Err::<
            Seq<FileView>,
            _,
        >(fault),
    }
}

impl Deserialize for Vec<Entry> {
    /// Reads an archive. Every entry that comes out is a file: the format
    /// keeps no trace of the directories that were packed.
    fn deserialize(data: &[u8]) -> (r: Result<Vec<Entry>, Error>)
        ensures
            deserialized(data@, r),
    {
        let mut entries: Vec<Entry> = Vec::new();
        let ghost mut done: Seq<FileView> = Seq::empty();
        let mut i: usize = 0;
        assert(data@.skip(0) == data@);
        while i < data.len()
            invariant
                i <= data.len(),
                views(entries@) == file_entries(done),
                parse_files(data@) == files_then(done, parse_files(data@.skip(i as int))),
            decreases data.len() - i,
        {
            let ghost rest = data@.skip(i as int);
            match read_file(data, i) {
                Err(fault) => {
                    return Err(Error::DecodeError(fault));
                },
                Ok((file, next)) => {
                    proof {
                        assert(rest.skip(next - i) == data@.skip(next as int));
                        let more = parse_files(data@.skip(next as int));
                        if let Ok(tail) = more {
                            assert(done + (seq![file@] + tail) == done.push(file@) + tail);
                        }
                        assert(entries@.len() == views(entries@).len() == done.len());
                        let grown = views(entries@.push(Entry::File(file)));
                        assert forall|j: int| 0 <= j < grown.len() implies grown[j]
                            == file_entries(done.push(file@))[j] by {
                            if j < entries@.len() {
                                assert(views(entries@)[j] == file_entries(done)[j]);
                            }
                        }
                        done = done.push(file@);
                    }
                    entries.push(Entry::File(file));
                    i = next;
                },
            }
        }
        Ok(entries)
    }
}

} // verus!

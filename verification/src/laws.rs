//! What holds between packing and unpacking, proved of the format itself.

use crate::format::{
    entries_bytes, entry_bytes, file_bytes, files_bytes, files_in, files_of, files_then,
    header_bytes, parse_file, parse_files, FIELDS_LEN,
};
use crate::types::{DecodeFault, EntryView, FileView};
use vstd::bytes::{
    lemma_auto_spec_u64_to_from_le_bytes, spec_u64_from_le_bytes, spec_u64_to_le_bytes,
};
use vstd::prelude::*;
use vstd::utf8::{
    char_is_scalar, char_u32_cast, decode_utf8, decode_utf8_encode_utf8, encode_scalar, encode_utf8,
    encode_utf8_decode_utf8, encode_utf8_valid_utf8, valid_utf8,
};

verus! {

/// Every file of the list can be packed and read back: its name holds no
/// null byte and its size field is the length of its contents.
pub open spec fn all_packable(files: Seq<FileView>) -> bool {
    forall|i: int| 0 <= i < files.len() ==> (#[trigger] files[i]).packable()
}

/// The bytes of two lists of files, one after the other, are the bytes of
/// the joined list.
pub proof fn lemma_files_bytes_concat(front: Seq<FileView>, back: Seq<FileView>)
    ensures
        files_bytes(front + back) == files_bytes(front) + files_bytes(back),
    decreases back.len(),
{
    if back.len() > 0 {
        lemma_files_bytes_concat(front, back.drop_last());
        assert((front + back).drop_last() == front + back.drop_last());
    }
}

/// The bytes of a list of one file are the bytes of that file.
pub proof fn lemma_single_file_bytes(file: FileView)
    ensures
        files_bytes(seq![file]) == file_bytes(file),
{
    assert(files_bytes(seq![file].drop_last()) == Seq::<u8>::empty());
}

/// The header of a file, read from the front of a stream: the name ends at
/// the first null byte, and the fields give back what was written.
pub proof fn lemma_parse_header(
    name: Seq<char>,
    updated_at: u64,
    created_at: u64,
    size: u64,
    rest: Seq<u8>,
)
    requires
        !encode_utf8(name).contains(0u8),
    ensures
        ({
            let bytes = header_bytes(name, updated_at, created_at, size) + rest;
            let end = encode_utf8(name).len() as int;
            let fields = bytes.skip(end + 1);
            &&& bytes.index_of_first(0u8) == Some(end)
            &&& bytes.subrange(0, end) == encode_utf8(name)
            &&& valid_utf8(bytes.subrange(0, end))
            &&& decode_utf8(bytes.subrange(0, end)) == name
            &&& fields.len() == FIELDS_LEN + rest.len()
            &&& spec_u64_from_le_bytes(fields.subrange(0, 8)) == updated_at
            &&& spec_u64_from_le_bytes(fields.subrange(8, 16)) == created_at
            &&& spec_u64_from_le_bytes(fields.subrange(16, 24)) == size
            &&& fields.skip(24) == rest
        }),
{
    let text = encode_utf8(name);
    let bytes = header_bytes(name, updated_at, created_at, size) + rest;
    let end = text.len() as int;
    let fields = bytes.skip(end + 1);
    lemma_auto_spec_u64_to_from_le_bytes();
    encode_utf8_valid_utf8(name);
    encode_utf8_decode_utf8(name);
    assert(bytes.subrange(0, end) == text);
    assert(bytes[end] == 0u8);
    bytes.index_of_first_ensures(0u8);
    assert(fields.subrange(0, 8) == spec_u64_to_le_bytes(updated_at));
    assert(fields.subrange(8, 16) == spec_u64_to_le_bytes(created_at));
    assert(fields.subrange(16, 24) == spec_u64_to_le_bytes(size));
}

/// A packed file at the front of a stream is read back as it was, and takes
/// exactly its own bytes.
pub proof fn lemma_parse_packed_file(file: FileView, rest: Seq<u8>)
    requires
        file.packable(),
    ensures
        parse_file(file_bytes(file) + rest) == Ok::<_, DecodeFault>(
            (file, file_bytes(file).len() as int),
        ),
        file_bytes(file).len() == encode_utf8(file.name).len() + 1 + FIELDS_LEN
            + file.contents.len(),
{
    let size = file.contents.len() as u64;
    let header = header_bytes(file.name, file.updated_at, file.created_at, size);
    lemma_auto_spec_u64_to_from_le_bytes();
    lemma_parse_header(file.name, file.updated_at, file.created_at, size, file.contents + rest);
    assert(file_bytes(file) + rest == header + (file.contents + rest));
    let fields = (file_bytes(file) + rest).skip(encode_utf8(file.name).len() as int + 1);
    assert(fields.subrange(24, 24 + size) == file.contents);
}

/// Packed files in front of a stream are read back one by one, and the
/// reading goes on with what follows them.
pub proof fn lemma_parse_packed_files(files: Seq<FileView>, rest: Seq<u8>)
    requires
        all_packable(files),
    ensures
        parse_files(files_bytes(files) + rest) == files_then(files, parse_files(rest)),
    decreases files.len(),
{
    if files.len() > 0 {
        let last = files.last();
        let init = files.drop_last();
        let tail = file_bytes(last) + rest;
        assert(files_bytes(files) + rest == files_bytes(init) + tail);
        lemma_parse_packed_files(init, tail);
        lemma_parse_packed_file(last, rest);
        assert(tail.skip(file_bytes(last).len() as int) == rest);
        if let Ok(more) = parse_files(rest) {
            assert(init + (seq![last] + more) == files + more);
        }
    }
}

/// Packing then unpacking a list of files gives the list back.
pub proof fn lemma_files_round_trip(files: Seq<FileView>)
    requires
        all_packable(files),
    ensures
        parse_files(files_bytes(files)) == Ok::<_, DecodeFault>(files),
{
    lemma_parse_packed_files(files, Seq::empty());
}

/// Round trip of a single file: unpacking what was packed from one file
/// whose name holds no null byte yields that one file, with the same name,
/// size, timestamps and contents.
pub proof fn lemma_file_round_trip(file: FileView)
    requires
        file.packable(),
    ensures
        parse_files(entry_bytes(EntryView::File(file))) == Ok::<_, DecodeFault>(seq![file]),
{
    lemma_single_file_bytes(file);
    lemma_files_round_trip(seq![file]);
}

/// Flattening, on the side of the packer: the bytes of a tree are the bytes
/// of its files in pre-order. A directory adds nothing of its own.
pub proof fn lemma_entry_bytes_flat(entry: EntryView)
    ensures
        entry_bytes(entry) == files_bytes(files_of(entry)),
    decreases entry,
{
    match entry {
        EntryView::File(file) => {
            lemma_single_file_bytes(file);
        },
        EntryView::Directory(dir) => {
            lemma_entries_bytes_flat(dir.contents);
        },
    }
}

/// Flattening of a list of trees.
pub proof fn lemma_entries_bytes_flat(entries: Seq<EntryView>)
    ensures
        entries_bytes(entries) == files_bytes(files_in(entries)),
    decreases entries,
{
    if entries.len() > 0 {
        lemma_entries_bytes_flat(entries.drop_last());
        lemma_entry_bytes_flat(entries.last());
        lemma_files_bytes_concat(files_in(entries.drop_last()), files_of(entries.last()));
    }
}

/// Flattening: unpacking what was packed from a tree yields the files of
/// the tree in pre-order, at whatever depth they stood, and no directory.
pub proof fn lemma_tree_round_trip(entry: EntryView)
    requires
        all_packable(files_of(entry)),
    ensures
        parse_files(entry_bytes(entry)) == Ok::<_, DecodeFault>(files_of(entry)),
{
    lemma_entry_bytes_flat(entry);
    lemma_files_round_trip(files_of(entry));
}

/// A packed file that was cut short cannot be read: whatever is left of it
/// lacks the end of its name, one of its fields, or part of its contents.
pub proof fn lemma_cut_file_is_rejected(file: FileView, cut: int)
    requires
        file.packable(),
        0 < cut < file_bytes(file).len(),
    ensures
        parse_file(file_bytes(file).take(cut)) is Err,
{
    let text = encode_utf8(file.name);
    let size = file.contents.len() as u64;
    let whole = file_bytes(file);
    let part = whole.take(cut);
    let end = text.len() as int;
    lemma_parse_packed_file(file, Seq::empty());
    lemma_parse_header(file.name, file.updated_at, file.created_at, size, file.contents);
    part.index_of_first_ensures(0u8);
    if cut > end {
        assert(part[end] == 0u8);
        let fields = part.skip(end + 1);
        if fields.len() >= FIELDS_LEN {
            assert(fields.subrange(16, 24) == whole.skip(end + 1).subrange(16, 24));
        }
    }
}

/// Truncation safety: an archive that was cut anywhere but at the end of
/// one of its files is rejected when it is unpacked.
pub proof fn lemma_truncated_archive_is_rejected(files: Seq<FileView>, cut: int)
    requires
        all_packable(files),
        0 <= cut < files_bytes(files).len(),
        forall|k: int| 0 <= k <= files.len() ==> cut != files_bytes(#[trigger] files.take(k)).len(),
    ensures
        parse_files(files_bytes(files).take(cut)) is Err,
    decreases files.len(),
{
    if files.len() > 0 {
        let init = files.drop_last();
        let last = files.last();
        let before = files_bytes(init);
        if cut < before.len() {
            assert(files_bytes(files).take(cut) == before.take(cut));
            assert forall|k: int| 0 <= k <= init.len() implies cut != files_bytes(
                #[trigger] init.take(k),
            ).len() by {
                assert(init.take(k) == files.take(k));
            }
            lemma_truncated_archive_is_rejected(init, cut);
        } else {
            let part = file_bytes(last).take(cut - before.len());
            assert(files_bytes(files).take(cut) == before + part);
            lemma_cut_file_is_rejected(last, cut - before.len());
            lemma_parse_packed_files(init, part);
        }
    }
}

/// Size-field integrity: a stream in which some file claims more content
/// bytes than are left after its header is rejected when it is unpacked,
/// whatever well-formed files stand before it.
pub proof fn lemma_overrun_is_rejected(
    files: Seq<FileView>,
    name: Seq<char>,
    updated_at: u64,
    created_at: u64,
    size: u64,
    rest: Seq<u8>,
)
    requires
        all_packable(files),
        !encode_utf8(name).contains(0u8),
        size > rest.len(),
    ensures
        parse_files(files_bytes(files) + header_bytes(name, updated_at, created_at, size) + rest)
            == Err::<Seq<FileView>, _>(DecodeFault::ContentOverrun),
{
    let crafted = header_bytes(name, updated_at, created_at, size) + rest;
    lemma_parse_header(name, updated_at, created_at, size, rest);
    assert(files_bytes(files) + header_bytes(name, updated_at, created_at, size) + rest
        == files_bytes(files) + crafted);
    lemma_parse_packed_files(files, crafted);
}

/// A file that was read from the front of a stream packs back to the bytes
/// it was read from.
pub proof fn lemma_parsed_file_packs_back(bytes: Seq<u8>)
    ensures
        parse_file(bytes) matches Ok((file, used)) ==> {
            &&& file.packable()
            &&& 0 < used <= bytes.len()
            &&& file_bytes(file) == bytes.take(used)
        },
{
    if let Ok((file, used)) = parse_file(bytes) {
        bytes.index_of_first_ensures(0u8);
        lemma_auto_spec_u64_to_from_le_bytes();
        let end = bytes.index_of_first(0u8).unwrap();
        let text = bytes.subrange(0, end);
        let fields = bytes.skip(end + 1);
        decode_utf8_encode_utf8(text);
    }
}

/// Unpacking undoes packing and nothing else: the files that a stream is
/// read as pack back to that very stream.
pub proof fn lemma_parsed_files_pack_back(bytes: Seq<u8>)
    ensures
        parse_files(bytes) matches Ok(files) ==> all_packable(files) && files_bytes(files)
            == bytes,
    decreases bytes.len(),
{
    if bytes.len() > 0 {
        if let Ok(files) = parse_files(bytes) {
            let (file, used) = parse_file(bytes).unwrap();
            let more = parse_files(bytes.skip(used)).unwrap();
            lemma_parsed_file_packs_back(bytes);
            lemma_parsed_files_pack_back(bytes.skip(used));
            lemma_single_file_bytes(file);
            lemma_files_bytes_concat(seq![file], more);
        }
    }
}

/// The files of a well-formed tree can all be packed and read back.
pub proof fn lemma_wf_tree_is_packable(entry: EntryView)
    requires
        entry.wf(),
    ensures
        all_packable(files_of(entry)),
    decreases entry,
{
    match entry {
        EntryView::File(file) => {},
        EntryView::Directory(dir) => {
            lemma_wf_trees_are_packable(dir.contents);
        },
    }
}

/// The files of a list of well-formed trees can all be packed and read
/// back.
pub proof fn lemma_wf_trees_are_packable(entries: Seq<EntryView>)
    requires
        forall|i: int| 0 <= i < entries.len() ==> (#[trigger] entries[i]).wf(),
    ensures
        all_packable(files_in(entries)),
    decreases entries,
{
    if entries.len() > 0 {
        lemma_wf_trees_are_packable(entries.drop_last());
        lemma_wf_tree_is_packable(entries.last());
    }
}

/// Of the bytes that encode one character, one is null only where the
/// character itself is the null character.
proof fn lemma_scalar_bytes(scalar: u32)
    by (bit_vector)
    requires
        scalar <= 0x10ffff,
    ensures
        scalar <= 0x7f ==> (scalar & 0x7f) as u8 == scalar,
        0xc0u8 | ((scalar >> 6) & 0x1f) as u8 != 0,
        0xe0u8 | ((scalar >> 12) & 0x0f) as u8 != 0,
        0xf0u8 | ((scalar >> 18) & 0x7) as u8 != 0,
        0x80u8 | (scalar & 0x3f) as u8 != 0,
        0x80u8 | ((scalar >> 6) & 0x3f) as u8 != 0,
        0x80u8 | ((scalar >> 12) & 0x3f) as u8 != 0,
{
}

/// A name holds a null byte when it is encoded exactly if it holds the
/// null character.
pub proof fn lemma_null_byte_is_null_char(name: Seq<char>)
    ensures
        encode_utf8(name).contains(0u8) <==> name.contains('\0'),
    decreases name.len(),
{
    if name.len() > 0 {
        let first = name[0] as u32;
        let head = encode_scalar(first);
        let rest = name.drop_first();
        let tail = encode_utf8(rest);
        char_is_scalar(name[0]);
        char_u32_cast(name[0], first);
        char_u32_cast('\0', 0u32);
        lemma_scalar_bytes(first);
        lemma_null_byte_is_null_char(rest);
        assert(head.contains(0u8) <==> first == 0) by {
            if first == 0 {
                assert(head[0] == 0u8);
            }
        }
        if encode_utf8(name).contains(0u8) {
            let k = choose|k: int| 0 <= k < (head + tail).len() && (head + tail)[k] == 0u8;
            if k >= head.len() {
                let j = choose|j: int| 0 <= j < rest.len() && rest[j] == '\0';
                assert(name[j + 1] == '\0');
            }
        }
        if name.contains('\0') {
            let j = choose|j: int| 0 <= j < name.len() && name[j] == '\0';
            if j == 0 {
                assert((head + tail)[0] == 0u8);
            } else {
                assert(rest[j - 1] == '\0');
                let k = choose|k: int| 0 <= k < tail.len() && tail[k] == 0u8;
                assert((head + tail)[head.len() + k] == 0u8);
            }
        }
    }
}

} // verus!

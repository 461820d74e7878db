use cram::archive::{compression_named, pack, unpack};
use cram::compression::Compress;
use cram::packer::Serialize;
use cram::sniff::Compression;
use cram::types::{DecodeFault, Directory, Entry, Error, File};

fn file(name: &str, contents: &[u8]) -> Entry {
    Entry::File(File::new(name.to_string(), 900, 1000, contents.to_vec()))
}

fn tree() -> Entry {
    Entry::Directory(Directory {
        name: "root".to_string(),
        created_at: 1,
        updated_at: 2,
        contents: vec![
            file("root/a.txt", b"hi"),
            Entry::Directory(Directory {
                name: "root/sub".to_string(),
                created_at: 3,
                updated_at: 4,
                contents: vec![file("root/sub/b.bin", &[0u8; 500])],
            }),
            file("root/c", b""),
        ],
    })
}

fn names(entries: &[Entry]) -> Vec<String> {
    entries
        .iter()
        .map(|e| match e {
            Entry::File(f) => f.name.clone(),
            Entry::Directory(d) => format!("directory {}", d.name),
        })
        .collect()
}

#[test]
fn names_select_their_algorithm() {
    assert_eq!(compression_named("gzip"), Some(Compression::Gzip));
    assert_eq!(compression_named("lzma"), Some(Compression::Lzma));
    assert_eq!(compression_named("zstd"), Some(Compression::Zstd));
    assert_eq!(compression_named("brotli"), Some(Compression::Brotli));
    assert_eq!(compression_named("bzip2"), Some(Compression::Bzip2));
}

#[test]
fn other_names_select_nothing() {
    assert_eq!(compression_named(""), None);
    assert_eq!(compression_named("Gzip"), None);
    assert_eq!(compression_named("gzip "), None);
    assert_eq!(compression_named("xz"), None);
    assert_eq!(compression_named("bzip"), None);
}

#[test]
fn packing_without_compression_is_the_archive_itself() {
    let entry = tree();
    assert_eq!(pack(&entry, None).unwrap(), entry.serialize());
}

#[test]
fn packing_with_compression_wraps_the_archive() {
    let entry = tree();
    let plain = entry.serialize();
    let packed = pack(&entry, Some(Compression::Zstd)).unwrap();
    assert_ne!(packed, plain);
    assert!(packed.len() < plain.len());
}

#[test]
fn what_was_packed_is_unpacked_whatever_the_compression() {
    let kinds = vec![
        None,
        Some(Compression::Gzip),
        Some(Compression::Lzma),
        Some(Compression::Zstd),
        Some(Compression::Brotli),
        Some(Compression::Bzip2),
    ];
    for kind in kinds {
        let stored = pack(&tree(), kind).unwrap();
        let entries = unpack(&stored).unwrap();
        assert_eq!(names(&entries), vec!["root/a.txt", "root/sub/b.bin", "root/c"], "{:?}", kind);
        match &entries[1] {
            Entry::File(f) => {
                assert_eq!(f.size, 500);
                assert_eq!(f.contents, vec![0u8; 500]);
                assert_eq!(f.created_at, 900);
                assert_eq!(f.updated_at, 1000);
            }
            Entry::Directory(_) => panic!("a directory came out of an archive"),
        }
    }
}

#[test]
fn a_damaged_envelope_is_a_codec_error() {
    let mut stored = pack(&tree(), Some(Compression::Gzip)).unwrap();
    stored.truncate(stored.len() - 9);
    assert!(matches!(unpack(&stored), Err(Error::CodecError(Compression::Gzip))));
    let only_a_signature = vec![0x42, 0x5a, 0x68];
    assert!(matches!(unpack(&only_a_signature), Err(Error::CodecError(Compression::Bzip2))));
}

#[test]
fn a_damaged_archive_is_a_decode_error() {
    let mut plain = file("a.txt", b"hi").serialize();
    plain.pop();
    assert!(matches!(
        unpack(&plain),
        Err(Error::DecodeError(DecodeFault::ContentOverrun))
    ));
    let stored = plain.gzip().unwrap();
    assert!(matches!(
        unpack(&stored),
        Err(Error::DecodeError(DecodeFault::ContentOverrun))
    ));
}

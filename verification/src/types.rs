//! The entry model: files and directories as they are captured from a tree,
//! their mathematical views, and the errors of the archiver.

use crate::sniff::Compression;
use vstd::prelude::*;
use vstd::utf8::encode_utf8;

verus! {

/// A file with its timestamps and contents.
#[derive(Debug)]
pub struct File {
    /// File name; the archive format ends it with a null byte.
    pub name: String,
    /// Byte length of `contents`.
    pub size: u64,
    /// Creation time, in seconds since the epoch.
    pub created_at: u64,
    /// Time of the last update, in seconds since the epoch.
    pub updated_at: u64,
    /// The bytes of the file.
    pub contents: Vec<u8>,
}

/// A directory with its timestamps and children.
#[derive(Debug)]
pub struct Directory {
    /// Directory name.
    pub name: String,
    /// Creation time, in seconds since the epoch.
    pub created_at: u64,
    /// Time of the last update, in seconds since the epoch.
    pub updated_at: u64,
    /// The files and directories below this one, in traversal order.
    pub contents: Vec<Entry>,
}

/// A node of a captured tree.
#[derive(Debug)]
pub enum Entry {
    File(File),
    Directory(Directory),
}

/// The mathematical view of a `File`.
pub struct FileView {
    pub name: Seq<char>,
    pub size: u64,
    pub created_at: u64,
    pub updated_at: u64,
    pub contents: Seq<u8>,
}

/// The mathematical view of a `Directory`.
pub struct DirectoryView {
    pub name: Seq<char>,
    pub created_at: u64,
    pub updated_at: u64,
    pub contents: Seq<EntryView>,
}

/// The mathematical view of an `Entry`.
pub enum EntryView {
    File(FileView),
    Directory(DirectoryView),
}

impl FileView {
    /// No byte of the encoded name is null, so a null byte can end it.
    pub open spec fn name_is_terminable(self) -> bool {
        !encode_utf8(self.name).contains(0u8)
    }

    /// The `size` field is the length of the contents.
    pub open spec fn size_is_exact(self) -> bool {
        self.size == self.contents.len()
    }

    /// The file can be packed and read back as it is.
    pub open spec fn packable(self) -> bool {
        self.name_is_terminable() && self.size_is_exact()
    }

    /// The invariant of a file of the entry model: it can be packed, and
    /// it has a name.
    pub open spec fn wf(self) -> bool {
        self.name.len() > 0 && self.packable()
    }
}

/// The invariant of a tree of the entry model: every file in it is well
/// formed, and every directory has a name that a null byte could end.
pub open spec fn tree_wf(entry: EntryView) -> bool
    decreases entry,
{
    match entry {
        EntryView::File(file) => file.wf(),
        EntryView::Directory(dir) => {
            &&& dir.name.len() > 0
            &&& !encode_utf8(dir.name).contains(0u8)
            &&& forall|i: int| 0 <= i < dir.contents.len() ==> tree_wf(#[trigger] dir.contents[i])
        },
    }
}

impl EntryView {
    /// The invariant of the entry model holds at every level of the tree.
    pub open spec fn wf(self) -> bool {
        tree_wf(self)
    }
}

impl File {
    /// A file of the given name, timestamps and contents. Its size is the
    /// length of the contents.
    pub fn new(name: String, created_at: u64, updated_at: u64, contents: Vec<u8>) -> (file: File)
        ensures
            file@.name == name@,
            file@.created_at == created_at,
            file@.updated_at == updated_at,
            file@.contents == contents@,
            file@.size_is_exact(),
    {
        let size = contents.len() as u64;
        File { name, size, created_at, updated_at, contents }
    }
}

impl View for File {
    type V = FileView;

    open spec fn view(&self) -> FileView {
        FileView {
            name: self.name@,
            size: self.size,
            created_at: self.created_at,
            updated_at: self.updated_at,
            contents: self.contents@,
        }
    }
}

/// The view of a directory: its children are viewed at every level below it.
pub open spec fn directory_view(dir: Directory) -> DirectoryView
    decreases dir,
{
    DirectoryView {
        name: dir.name@,
        created_at: dir.created_at,
        updated_at: dir.updated_at,
        contents: Seq::new(
            dir.contents@.len(),
            |i: int|
                if 0 <= i < dir.contents@.len() {
                    entry_view(dir.contents@[i])
                } else {
                    arbitrary()
                },
        ),
    }
}

/// The view of an entry, taken through every level of the tree.
pub open spec fn entry_view(entry: Entry) -> EntryView
    decreases entry,
{
    match entry {
        Entry::File(file) => EntryView::File(file@),
        Entry::Directory(dir) => EntryView::Directory(directory_view(dir)),
    }
}

impl View for Directory {
    type V = DirectoryView;

    open spec fn view(&self) -> DirectoryView {
        directory_view(*self)
    }
}

impl View for Entry {
    type V = EntryView;

    open spec fn view(&self) -> EntryView {
        entry_view(*self)
    }
}

/// Why a byte stream is not an archive.
#[derive(Clone, Copy, Debug, PartialEq, Eq, Structural)]
pub enum DecodeFault {
    /// A name runs to the end of the stream with no null byte to end it.
    UnterminatedName,
    /// The bytes of a name are not UTF-8.
    InvalidName,
    /// Fewer than the three 8-byte fields follow a name.
    TruncatedField,
    /// A size field asks for more content bytes than the stream still holds.
    ContentOverrun,
}

/// `std::io::Error`, carried through as it came: nothing is known of what
/// it holds.
#[verifier::external_type_specification]
#[verifier::external_body]
pub struct ExIoError(std::io::Error);

/// `std::time::SystemTimeError`, carried through as it came: nothing is
/// known of what it holds.
#[verifier::external_type_specification]
#[verifier::external_body]
pub struct ExSystemTimeError(std::time::SystemTimeError);

/// The errors of the archiver.
#[derive(Debug)]
pub enum Error {
    /// The file system refused an access while a tree was captured or written.
    IoError(std::io::Error),
    /// A timestamp could not be retrieved.
    TimeError(std::time::SystemTimeError),
    /// The byte stream is not an archive.
    DecodeError(DecodeFault),
    /// The named compression primitive failed on its input.
    CodecError(Compression),
}

impl From<std::io::Error> for Error {
    fn from(error: std::io::Error) -> (e: Error)
        ensures
            e == Error::IoError(error),
    {
        Error::IoError(error)
    }
}

impl vstd::std_specs::convert::FromSpecImpl<std::io::Error> for Error {
    open spec fn obeys_from_spec() -> bool {
        true
    }

    open spec fn from_spec(error: std::io::Error) -> Error {
        Error::IoError(error)
    }
}

impl From<std::time::SystemTimeError> for Error {
    fn from(error: std::time::SystemTimeError) -> (e: Error)
        ensures
            e == Error::TimeError(error),
    {
        Error::TimeError(error)
    }
}

impl vstd::std_specs::convert::FromSpecImpl<std::time::SystemTimeError> for Error {
    open spec fn obeys_from_spec() -> bool {
        true
    }

    open spec fn from_spec(error: std::time::SystemTimeError) -> Error {
        Error::TimeError(error)
    }
}

} // verus!

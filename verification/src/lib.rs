//! A directory-tree archiver.
//!
//! A tree of files and directories is flattened into one byte stream, the
//! archive, which may be wrapped in a compression envelope before it is
//! stored. Reading goes the other way: the envelope is guessed from the
//! leading bytes and undone, and the archive is read back as its files.
//!
//! - `types`: the entry model, its views and the errors;
//! - `format`: the archive format as mathematics;
//! - `packer`, `unpacker`: the code that writes and reads the format;
//! - `laws`: what is proved of the two together;
//! - `compression`: the five algorithms of the envelope;
//! - `sniff`: guessing the algorithm of a stored archive;
//! - `archive`: packing and unpacking from end to end.

pub mod archive;
pub mod compression;
pub mod format;
pub mod laws;
pub mod packer;
pub mod sniff;
pub mod types;
pub mod unpacker;

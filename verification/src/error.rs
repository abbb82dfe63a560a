//! The error taxonomy of the storage engine.

use vstd::prelude::*;

use crate::encoding::Base;

verus! {

/// Failures specific to the storage engine itself.
#[derive(Clone, Debug)]
pub enum FsStorageError {
    /// the chosen base encoding has no known symbol alphabet
    UnsupportedBaseEncoding(Base),
    /// the path exists but is not the directory the engine expected
    NotDir(String),
    /// the identifier renders to an empty string, so no shard character exists
    InvalidId(String),
    /// the identifier does not refer to any stored data
    NoSuchData(String),
}

/// Errors produced by this library.
#[derive(Clone, Debug)]
pub enum Error {
    /// a storage engine failure
    FsStorage(FsStorageError),
    /// an input/output failure at the named path (a record file that is
    /// missing from an existing shard directory)
    Io(String),
    /// an error raised by a caller-supplied callback
    Custom(String),
}

} // verus!

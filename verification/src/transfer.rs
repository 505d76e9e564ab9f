//! What uploads and downloads have in common.

use vstd::prelude::*;
use vstd::slice::slice_to_vec;

use crate::path::{file_name, join};
use crate::text::from_utf8;

verus! {

/// Something that goes wrong by the rules of a copy, and not because of the outside world.
#[derive(Debug, Clone, Copy, PartialEq, Eq, Structural)]
pub enum TransferError {
    /// Both the source and the target are on a remote host.
    BetweenRemoteHosts,
    /// A directory has to be created where a file already exists.
    NotADirectory,
    /// A path does not end with the name of a file.
    InvalidFileName,
}

impl TransferError {
    /// The text that describes an error to the user.
    pub open spec fn text(self) -> Seq<char> {
        match self {
            TransferError::BetweenRemoteHosts => "Cannot transfer files between two remote hosts"@,
            TransferError::NotADirectory => "file exists and is not a directory"@,
            TransferError::InvalidFileName => "invalid file name"@,
        }
    }

    /// Returns a description of the error.
    pub fn message(self) -> (message: &'static str)
        ensures
            message@ == self.text(),
    {
        match self {
            TransferError::BetweenRemoteHosts => "Cannot transfer files between two remote hosts",
            TransferError::NotADirectory => "file exists and is not a directory",
            TransferError::InvalidFileName => "invalid file name",
        }
    }
}

/// What is found at a path.
#[derive(Debug, Clone, Copy, PartialEq, Eq, Structural)]
pub enum FileStatus {
    /// Nothing, or nothing that can be examined.
    Missing,
    /// Something other than a directory.
    File,
    /// A directory.
    Directory,
}

/// Where something called `name` goes if it is sent to `path`: into the directory that is there, or
/// else to the path itself.
pub open spec fn placed(path: Seq<u8>, status: FileStatus, name: Seq<u8>) -> Seq<u8> {
    if status is Directory {
        crate::path::joined(path, name)
    } else {
        path
    }
}

/// Returns where something called `name` goes if it is sent to `path`.
///
/// If the path exists and is a directory, it goes into that directory under the same name. If not,
/// the path is used as is.
pub fn place(path: &[u8], status: FileStatus, name: &[u8]) -> (place: Vec<u8>)
    ensures
        place@ == placed(path@, status, name@),
{
    match status {
        FileStatus::Directory => join(path, name),
        _ => slice_to_vec(path),
    }
}

/// Returns the name under which the file at `path` is transferred.
pub fn transfer_name(path: &[u8]) -> (name: Result<Vec<u8>, TransferError>)
    ensures
        match name {
            Ok(name) => crate::path::path_file_name(path@) == Some(name@),
            Err(error) => {
                &&& crate::path::path_file_name(path@) is None
                &&& error == TransferError::InvalidFileName
            },
        },
{
    match file_name(path) {
        Some(name) => Ok(name),
        None => Err(TransferError::InvalidFileName),
    }
}

/// Returns the text under which the transfer of a file called `name` is shown, if the name is text.
pub fn shown_name(name: &[u8]) -> (shown: Option<&str>)
    ensures
        match shown {
            Some(shown) => {
                &&& vstd::utf8::valid_utf8(name@)
                &&& shown@ == vstd::utf8::decode_utf8(name@)
            },
            None => !vstd::utf8::valid_utf8(name@),
        },
{
    from_utf8(name)
}

/// The permissions of a directory that is created on a remote host.
pub const DIRECTORY_MODE: u32 = 0o775;

/// What is sent to a directory arrives in that directory, under its own name and nowhere else; what is
/// sent to any other path arrives at that path, byte for byte.
pub proof fn law_placed(path: Seq<u8>, name: Seq<u8>)
    ensures
        placed(path, FileStatus::File, name) == path,
        placed(path, FileStatus::Missing, name) == path,
        placed(path, FileStatus::Directory, name) == crate::path::joined(path, name),
        crate::path::is_file_name(name) ==> {
            let inside = placed(path, FileStatus::Directory, name);
            &&& crate::path::path_components(inside) == crate::path::path_components(path).push(name)
            &&& crate::path::path_file_name(inside) == Some(name)
            &&& path.is_prefix_of(inside)
        },
{
    if crate::path::is_file_name(name) {
        crate::path::law_joined_components(path, name);
        crate::path::law_entry_names(name);
    }
}

} // verus!

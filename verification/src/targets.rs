//! What a file operation requires of its target, how a removal proceeds, and what its
//! failures become.
use vstd::prelude::*;

use crate::errors::ApiError;

verus! {

/// An operation that works on a directory.
#[derive(Debug, Clone, Copy, PartialEq, Eq, Structural)]
pub enum DirectoryOperation {
    Ls,
    Tree,
}

/// An operation that works on a regular file.
#[derive(Debug, Clone, Copy, PartialEq, Eq, Structural)]
pub enum FileOperation {
    Read,
    Copy,
}

/// Why a directory operation refuses a target that is not a directory.
pub open spec fn directory_required_message(op: DirectoryOperation) -> Seq<char> {
    match op {
        DirectoryOperation::Ls => "ls requires a directory"@,
        DirectoryOperation::Tree => "tree requires a directory"@,
    }
}

/// Why a file operation refuses a target that is not a regular file.
pub open spec fn file_required_message(op: FileOperation) -> Seq<char> {
    match op {
        FileOperation::Read => "read requires a file"@,
        FileOperation::Copy => "cp requires a file source"@,
    }
}

/// Checks that the target of `op` is a directory; otherwise the path is invalid for it.
pub fn require_directory(op: DirectoryOperation, is_dir: bool) -> (r: Result<(), ApiError>)
    ensures
        is_dir ==> r is Ok,
        !is_dir ==> (r matches Err(ApiError::InvalidPath(m)) && m@ == directory_required_message(op)),
{
    if is_dir {
        return Ok(());
    }
    let message = match op {
        DirectoryOperation::Ls => "ls requires a directory",
        DirectoryOperation::Tree => "tree requires a directory",
    };
    Err(ApiError::InvalidPath(message.to_owned()))
}

/// Checks that the target of `op` is a regular file; otherwise the path is invalid for it.
pub fn require_file(op: FileOperation, is_file: bool) -> (r: Result<(), ApiError>)
    ensures
        is_file ==> r is Ok,
        !is_file ==> (r matches Err(ApiError::InvalidPath(m)) && m@ == file_required_message(op)),
{
    if is_file {
        return Ok(());
    }
    let message = match op {
        FileOperation::Read => "read requires a file",
        FileOperation::Copy => "cp requires a file source",
    };
    Err(ApiError::InvalidPath(message.to_owned()))
}

/// How a path is removed: a file, an empty directory, or a directory with all it holds.
#[derive(Debug, Clone, Copy, PartialEq, Eq, Structural)]
pub enum Removal {
    File,
    EmptyDirectory,
    DirectoryTree,
}

/// How a path is removed: a directory with all it holds only when asked to be recursive.
pub fn removal_for(is_dir: bool, recursive: bool) -> (r: Removal)
    ensures
        r == (if !is_dir {
            Removal::File
        } else if recursive {
            Removal::DirectoryTree
        } else {
            Removal::EmptyDirectory
        }),
{
    if !is_dir {
        Removal::File
    } else if recursive {
        Removal::DirectoryTree
    } else {
        Removal::EmptyDirectory
    }
}

/// The error a failed removal becomes: a directory that is not empty, removed without
/// `recursive`, is a conflict; any other failure is internal, with its message.
pub fn removal_failure(removal: Removal, directory_not_empty: bool, message: String) -> (e: ApiError)
    ensures
        removal == Removal::EmptyDirectory && directory_not_empty ==> (e matches ApiError::Conflict(m)
            && m@ == "directory not empty; use recursive=true"@),
        !(removal == Removal::EmptyDirectory && directory_not_empty) ==> (e matches ApiError::Internal(m)
            && m@ == message@),
{
    match removal {
        Removal::EmptyDirectory => if directory_not_empty {
            ApiError::Conflict("directory not empty; use recursive=true".to_owned())
        } else {
            ApiError::Internal(message)
        },
        _ => ApiError::Internal(message),
    }
}

} // verus!

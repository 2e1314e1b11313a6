//! The single-resource operations' decisions, between the filesystem calls
//! that carry them out: reads demand a UTF-8 file, a write never replaces a
//! directory, a delete removes a directory only when asked to and tolerates a
//! missing entry only when forced, and a read-only workspace reports nothing
//! as writable.

use vstd::prelude::*;
use vstd::utf8::{decode_utf8, valid_utf8};

use crate::metadata::{check_symlink_target, link_destination};
use crate::path::{normalized, path_starts_with};
use crate::resolve::PathError;
use crate::text::concat;
use crate::workspace::{Workspace, WorkspaceAccess};

verus! {

/// Why a single-resource operation failed.
#[derive(Debug, Clone, PartialEq, Eq)]
pub enum FileError {
    NotAFile(String),
    NotUtf8,
    InvalidRequest(String),
    BadRequest(String),
    AlreadyExists(String),
    Path(PathError),
    /// The filesystem failed; the text describes it.
    Io(String),
}

/// The message of each error that does not pass another's on.
pub open spec fn file_error_message(e: FileError) -> Option<Seq<char>> {
    match e {
        FileError::NotAFile(p) => Some("target is not a file: "@ + p@),
        FileError::NotUtf8 => Some("file content is not valid UTF-8; use `QUERY ?type=stream` for binary data"@),
        FileError::InvalidRequest(m) => Some("invalid request: "@ + m@),
        FileError::BadRequest(m) => Some("bad request: "@ + m@),
        FileError::AlreadyExists(p) => Some("resource already exists: "@ + p@),
        FileError::Path(_) => None,
        FileError::Io(m) => Some("failed to access the file: "@ + m@),
    }
}

impl FileError {
    /// The message, or `None` for a path error, which is reported as itself.
    pub fn message(&self) -> (res: Option<String>)
        ensures
            match file_error_message(*self) {
                Some(m) => res matches Some(s) && s@ == m,
                None => res is None,
            },
    {
        match self {
            FileError::NotAFile(p) => Some(concat("target is not a file: ", p)),
            FileError::NotUtf8 => Some(
                String::from_str("file content is not valid UTF-8; use `QUERY ?type=stream` for binary data"),
            ),
            FileError::InvalidRequest(m) => Some(concat("invalid request: ", m)),
            FileError::BadRequest(m) => Some(concat("bad request: ", m)),
            FileError::AlreadyExists(p) => Some(concat("resource already exists: ", p)),
            FileError::Path(_) => None,
            FileError::Io(m) => Some(concat("failed to access the file: ", m)),
        }
    }
}

/// Calls `String::from_utf8`: the text `bytes` encode, or `None` when they
/// are not UTF-8.
#[verifier::external_body]
pub(crate) fn utf8_text(bytes: Vec<u8>) -> (res: Option<String>)
    ensures
        res is Some <==> valid_utf8(bytes@),
        res matches Some(s) ==> s@ == decode_utf8(bytes@),
{
    String::from_utf8(bytes).ok()
}

/// A file's content as text; bytes that are not UTF-8 are refused, so binary
/// data is read as a stream instead.
pub fn text_content(bytes: Vec<u8>) -> (res: Result<String, FileError>)
    ensures
        valid_utf8(bytes@) ==> (res matches Ok(s) && s@ == decode_utf8(bytes@)),
        !valid_utf8(bytes@) ==> res == Err::<String, FileError>(FileError::NotUtf8),
{
    match utf8_text(bytes) {
        Some(text) => Ok(text),
        None => Err(FileError::NotUtf8),
    }
}

/// Reads, streams and truncations act on regular files only.
pub fn require_file(path: &str, is_file: bool) -> (res: Result<(), FileError>)
    ensures
        is_file ==> res is Ok,
        !is_file ==> (res matches Err(FileError::NotAFile(p)) && p@ == path@),
{
    if !is_file {
        return Err(FileError::NotAFile(String::from_str(path)));
    }
    Ok(())
}

/// A symlink is only ever created where nothing exists yet.
pub fn require_absent(path: &str, exists: bool) -> (res: Result<(), FileError>)
    ensures
        !exists ==> res is Ok,
        exists ==> (res matches Err(FileError::AlreadyExists(p)) && p@ == path@),
{
    if exists {
        return Err(FileError::AlreadyExists(String::from_str(path)));
    }
    Ok(())
}

/// What the process may do with a resource.
#[derive(Debug, Clone, Copy, PartialEq, Eq)]
pub struct Access {
    pub readable: bool,
    pub writable: bool,
    pub executable: bool,
}

/// The access reported for a resource: the process's own, except that
/// nothing in a read-only workspace is writable.
pub fn effective_access(process: Access, workspace: Option<&Workspace>) -> (res: Access)
    ensures
        res.readable == process.readable,
        res.executable == process.executable,
        res.writable == (process.writable && match workspace {
            Some(w) => w@.properties.access == WorkspaceAccess::ReadWrite,
            None => true,
        }),
{
    match workspace {
        Some(w) => {
            if w.require_writable().is_err() {
                return Access { readable: process.readable, writable: false, executable: process.executable };
            }
            process
        },
        None => process,
    }
}

/// What is found at a resource's path, without following a final symlink.
#[derive(Debug, Clone, PartialEq, Eq)]
pub enum EntryLookup {
    /// Nothing is there; the text is the filesystem's.
    Missing(String),
    Directory,
    /// A file, a symlink or anything else but a directory.
    NotDirectory,
    /// Looking failed for another reason, described.
    Failed(String),
}

/// Whether a write creates its file (`true`) or replaces one; a directory is
/// never replaced.
pub fn write_target(path: &str, lookup: EntryLookup) -> (res: Result<bool, FileError>)
    ensures
        match lookup {
            EntryLookup::Missing(_) => res == Ok::<bool, FileError>(true),
            EntryLookup::NotDirectory => res == Ok::<bool, FileError>(false),
            EntryLookup::Directory => res matches Err(FileError::NotAFile(p)) && p@ == path@,
            EntryLookup::Failed(m) => res == Err::<bool, FileError>(FileError::Io(m)),
        },
{
    match lookup {
        EntryLookup::Missing(_) => Ok(true),
        EntryLookup::NotDirectory => Ok(false),
        EntryLookup::Directory => Err(FileError::NotAFile(String::from_str(path))),
        EntryLookup::Failed(m) => Err(FileError::Io(m)),
    }
}

/// The entry a delete acts on: a target that does not resolve is nothing to
/// delete when forced (`None`), and an error otherwise.
pub fn deletion_target(resolved: Result<String, PathError>, force: Option<bool>) -> (res: Result<
    Option<String>,
    FileError,
>)
    ensures
        match resolved {
            Ok(p) => res == Ok::<Option<String>, FileError>(Some(p)),
            Err(PathError::NotFound(m)) => if force == Some(true) {
                res == Ok::<Option<String>, FileError>(None)
            } else {
                res == Err::<Option<String>, FileError>(FileError::Path(PathError::NotFound(m)))
            },
            Err(e) => res == Err::<Option<String>, FileError>(FileError::Path(e)),
        },
{
    match resolved {
        Ok(p) => Ok(Some(p)),
        Err(PathError::NotFound(m)) => {
            if force == Some(true) {
                Ok(None)
            } else {
                Err(FileError::Path(PathError::NotFound(m)))
            }
        },
        Err(e) => Err(FileError::Path(e)),
    }
}

/// How a delete proceeds once its entry is looked at.
#[derive(Debug, Clone, Copy, PartialEq, Eq)]
pub enum DeleteStep {
    /// Forced, and nothing is there.
    Nothing,
    /// A directory and everything in it.
    RemoveTree,
    /// A file or a symlink itself, never its target.
    RemoveFile,
}

/// A directory is deleted only when `recursive` is set; a missing entry is
/// tolerated only when `force` is.
pub fn deletion_step(path: &str, lookup: EntryLookup, force: Option<bool>, recursive: Option<bool>) -> (res: Result<
    DeleteStep,
    FileError,
>)
    ensures
        match lookup {
            EntryLookup::Missing(m) => if force == Some(true) {
                res == Ok::<DeleteStep, FileError>(DeleteStep::Nothing)
            } else {
                res == Err::<DeleteStep, FileError>(FileError::Io(m))
            },
            EntryLookup::Failed(m) => res == Err::<DeleteStep, FileError>(FileError::Io(m)),
            EntryLookup::Directory => if recursive == Some(true) {
                res == Ok::<DeleteStep, FileError>(DeleteStep::RemoveTree)
            } else {
                res matches Err(FileError::NotAFile(p)) && p@ == path@
            },
            EntryLookup::NotDirectory => res == Ok::<DeleteStep, FileError>(DeleteStep::RemoveFile),
        },
{
    match lookup {
        EntryLookup::Missing(m) => {
            if force == Some(true) {
                Ok(DeleteStep::Nothing)
            } else {
                Err(FileError::Io(m))
            }
        },
        EntryLookup::Failed(m) => Err(FileError::Io(m)),
        EntryLookup::Directory => {
            if recursive == Some(true) {
                Ok(DeleteStep::RemoveTree)
            } else {
                Err(FileError::NotAFile(String::from_str(path)))
            }
        },
        EntryLookup::NotDirectory => Ok(DeleteStep::RemoveFile),
    }
}

/// The checks before a symlink is created at `entry`, the resolved form of
/// `path`: nothing may be there yet, and inside a workspace the target must
/// stay inside its root.
pub fn symlink_checks(path: &str, entry: &str, exists: bool, root: Option<&str>, target: &str) -> (res: Result<
    (),
    FileError,
>)
    ensures
        exists ==> (res matches Err(FileError::AlreadyExists(p)) && p@ == path@),
        !exists ==> match root {
            None => res is Ok,
            Some(r) => if path_starts_with(normalized(link_destination(entry@, r@, target@)), r@) {
                res is Ok
            } else {
                res matches Err(FileError::BadRequest(m)) && m@ == "symlink target escapes the workspace: "@ + target@
            },
        },
{
    match require_absent(path, exists) {
        Ok(()) => {},
        Err(e) => return Err(e),
    }
    match root {
        None => Ok(()),
        Some(r) => match check_symlink_target(entry, r, target) {
            Ok(()) => Ok(()),
            Err(m) => Err(FileError::BadRequest(m)),
        },
    }
}

} // verus!

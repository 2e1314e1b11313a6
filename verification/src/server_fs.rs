//! `fs/*` of the server: the checks and orderings of its WebDAV-like
//! operations (`stat`, `list`, `mkdir`, `write`, `remove`, `copy`, `move`),
//! ahead of the filesystem calls that carry them out.

use vstd::prelude::*;

use crate::metadata::{kind_of, name_of, ResourceKind};
use crate::path::{components, file_name_of, has_root, path_components, path_starts_with, starts_with, ComponentView};
use crate::text::{concat, is_blank, is_blank_text};

verus! {

/// Why a filesystem operation failed.
#[derive(Debug, Clone, PartialEq, Eq)]
pub enum FsError {
    EmptyPath,
    RelativePath(String),
    ZeroLimit,
    NotFound(String),
    AlreadyExists(String),
    NotAFile(String),
    NotADirectory(String),
    IsADirectory(String),
    DirectoryNotEmpty(String),
    SamePath(String),
    DestinationInsideSource(String),
    SourceInsideDestination(String),
    /// The filesystem failed in a way not classified further.
    Io(String),
    /// A blocking filesystem task failed.
    Task(String),
}

pub open spec fn fs_error_message(e: FsError) -> Seq<char> {
    match e {
        FsError::EmptyPath => "path must not be empty"@,
        FsError::RelativePath(p) => "path must be absolute: "@ + p@,
        FsError::ZeroLimit => "limit must be at least 1"@,
        FsError::NotFound(p) => "no such file or directory: "@ + p@,
        FsError::AlreadyExists(p) => "already exists: "@ + p@,
        FsError::NotAFile(p) => "not a regular file: "@ + p@,
        FsError::NotADirectory(p) => "not a directory: "@ + p@,
        FsError::IsADirectory(p) => "is a directory: "@ + p@,
        FsError::DirectoryNotEmpty(p) => "directory is not empty: "@ + p@,
        FsError::SamePath(p) => "source and destination must differ: "@ + p@,
        FsError::DestinationInsideSource(p) => "destination is inside the source: "@ + p@,
        FsError::SourceInsideDestination(p) => "overwriting would remove the source: "@ + p@,
        FsError::Io(m) => "filesystem operation failed: "@ + m@,
        FsError::Task(_) => "filesystem task failed"@,
    }
}

impl FsError {
    pub fn message(&self) -> (res: String)
        ensures
            res@ == fs_error_message(*self),
    {
        match self {
            FsError::EmptyPath => String::from_str("path must not be empty"),
            FsError::RelativePath(p) => concat("path must be absolute: ", p),
            FsError::ZeroLimit => String::from_str("limit must be at least 1"),
            FsError::NotFound(p) => concat("no such file or directory: ", p),
            FsError::AlreadyExists(p) => concat("already exists: ", p),
            FsError::NotAFile(p) => concat("not a regular file: ", p),
            FsError::NotADirectory(p) => concat("not a directory: ", p),
            FsError::IsADirectory(p) => concat("is a directory: ", p),
            FsError::DirectoryNotEmpty(p) => concat("directory is not empty: ", p),
            FsError::SamePath(p) => concat("source and destination must differ: ", p),
            FsError::DestinationInsideSource(p) => concat("destination is inside the source: ", p),
            FsError::SourceInsideDestination(p) => concat("overwriting would remove the source: ", p),
            FsError::Io(m) => concat("filesystem operation failed: ", m),
            FsError::Task(_) => String::from_str("filesystem task failed"),
        }
    }
}

/// A request path must be present and absolute.
pub fn absolute(path: &str) -> (res: Result<String, FsError>)
    ensures
        is_blank_text(path@) ==> res == Err::<String, FsError>(FsError::EmptyPath),
        !is_blank_text(path@) && !has_root(path@) ==> (res matches Err(FsError::RelativePath(p)) && p@ == path@),
        !is_blank_text(path@) && has_root(path@) ==> (res matches Ok(p) && p@ == path@),
{
    if is_blank(path) {
        return Err(FsError::EmptyPath);
    }
    if !crate::path::is_absolute(path) {
        return Err(FsError::RelativePath(String::from_str(path)));
    }
    Ok(String::from_str(path))
}

/// Milliseconds since the epoch, when the time is not before it and fits.
pub fn millis(since_epoch_ms: Option<u128>) -> (res: Option<i64>)
    ensures
        res == match since_epoch_ms {
            Some(ms) => if ms <= i64::MAX {
                Some(ms as i64)
            } else {
                None::<i64>
            },
            None => None::<i64>,
        },
{
    match since_epoch_ms {
        Some(ms) => if ms <= i64::MAX as u128 {
            Some(ms as i64)
        } else {
            None
        },
        None => None,
    }
}

/// Whether two component lists are the same.
fn same_components(a: &Vec<crate::path::Component>, b: &Vec<crate::path::Component>) -> (res: bool)
    ensures
        res == (a@.map_values(|c: crate::path::Component| c@) == b@.map_values(|c: crate::path::Component| c@)),
{
    let ghost av = a@.map_values(|c: crate::path::Component| c@);
    let ghost bv = b@.map_values(|c: crate::path::Component| c@);
    if a.len() != b.len() {
        assert(av.len() != bv.len());
        return false;
    }
    let mut i: usize = 0;
    while i < a.len()
        invariant
            0 <= i <= a.len(),
            a.len() == b.len(),
            av == a@.map_values(|c: crate::path::Component| c@),
            bv == b@.map_values(|c: crate::path::Component| c@),
            forall|k: int| 0 <= k < i ==> av[k] == bv[k],
        decreases a.len() - i,
    {
        let same = match (&a[i], &b[i]) {
            (crate::path::Component::RootDir, crate::path::Component::RootDir) => true,
            (crate::path::Component::CurDir, crate::path::Component::CurDir) => true,
            (crate::path::Component::ParentDir, crate::path::Component::ParentDir) => true,
            (crate::path::Component::Normal(x), crate::path::Component::Normal(y)) => crate::path::chars_eq(x, y),
            _ => false,
        };
        assert(av[i as int] == a@[i as int]@);
        assert(bv[i as int] == b@[i as int]@);
        if !same {
            assert(av[i as int] != bv[i as int]);
            return false;
        }
        i = i + 1;
    }
    assert(av =~= bv);
    true
}

/// Whether two paths are equal as paths: component by component.
pub open spec fn same_path(a: Seq<char>, b: Seq<char>) -> bool {
    components(a) == components(b)
}

/// Copying or moving an entry onto itself is refused.
pub fn ensure_distinct(source: &str, destination: &str) -> (res: Result<(), FsError>)
    ensures
        same_path(source@, destination@) ==> (res matches Err(FsError::SamePath(p)) && p@ == source@),
        !same_path(source@, destination@) ==> res is Ok,
{
    let a = path_components(&crate::text::chars_of(source));
    let b = path_components(&crate::text::chars_of(destination));
    let ghost av = a@.map_values(|c: crate::path::Component| c@);
    let ghost bv = b@.map_values(|c: crate::path::Component| c@);
    assert(av =~= components(source@));
    assert(bv =~= components(destination@));
    if same_components(&a, &b) {
        return Err(FsError::SamePath(String::from_str(source)));
    }
    Ok(())
}

/// The two ways to place an entry elsewhere.
#[derive(Debug, Clone, Copy, PartialEq, Eq, Structural)]
pub enum Transfer {
    Copy,
    Move,
}

/// Why a transfer is refused.
#[derive(Debug, Clone, Copy, PartialEq, Eq)]
pub enum TransferRefusal {
    DestinationInsideSource,
    AlreadyExists,
    SourceInsideDestination,
}

/// What stops a transfer of an existing source: a copy cannot land inside
/// its source; an existing destination is replaced only when asked, and
/// never when that would remove the source.
pub open spec fn transfer_refusal(
    transfer: Transfer,
    source: Seq<char>,
    destination: Seq<char>,
    destination_exists: bool,
    overwrite: bool,
) -> Option<TransferRefusal> {
    if transfer == Transfer::Copy && path_starts_with(destination, source) {
        Some(TransferRefusal::DestinationInsideSource)
    } else if destination_exists && !overwrite {
        Some(TransferRefusal::AlreadyExists)
    } else if destination_exists && path_starts_with(source, destination) {
        Some(TransferRefusal::SourceInsideDestination)
    } else {
        None
    }
}

/// Whether the existing destination is removed first (`true`), or the
/// refusal, naming the destination.
pub fn transfer_plan(
    transfer: Transfer,
    source: &str,
    destination: &str,
    destination_exists: bool,
    overwrite: Option<bool>,
) -> (res: Result<bool, FsError>)
    ensures
        match transfer_refusal(transfer, source@, destination@, destination_exists, overwrite == Some(true)) {
            None => res == Ok::<bool, FsError>(destination_exists),
            Some(TransferRefusal::DestinationInsideSource) => res matches Err(FsError::DestinationInsideSource(p))
                && p@ == destination@,
            Some(TransferRefusal::AlreadyExists) => res matches Err(FsError::AlreadyExists(p)) && p@ == destination@,
            Some(TransferRefusal::SourceInsideDestination) => res matches Err(FsError::SourceInsideDestination(p))
                && p@ == destination@,
        },
{
    let ow = overwrite == Some(true);
    if transfer == Transfer::Copy && starts_with(destination, source) {
        return Err(FsError::DestinationInsideSource(String::from_str(destination)));
    }
    if destination_exists {
        if !ow {
            return Err(FsError::AlreadyExists(String::from_str(destination)));
        }
        if starts_with(source, destination) {
            return Err(FsError::SourceInsideDestination(String::from_str(destination)));
        }
    }
    Ok(destination_exists)
}

/// How an entry is removed.
#[derive(Debug, Clone, Copy, PartialEq, Eq)]
pub enum RemoveStep {
    /// A directory with everything in it.
    RemoveTree,
    /// A directory that must be empty first.
    RemoveEmptyDirectory,
    /// A file or symbolic link, never what it points to.
    RemoveFile,
}

pub fn remove_step(is_dir: bool, recursive: Option<bool>) -> (res: RemoveStep)
    ensures
        res == if is_dir {
            if recursive == Some(true) {
                RemoveStep::RemoveTree
            } else {
                RemoveStep::RemoveEmptyDirectory
            }
        } else {
            RemoveStep::RemoveFile
        },
{
    if is_dir {
        if recursive == Some(true) {
            RemoveStep::RemoveTree
        } else {
            RemoveStep::RemoveEmptyDirectory
        }
    } else {
        RemoveStep::RemoveFile
    }
}

/// A directory removed without `recursive` must be empty.
pub fn check_empty(path: &str, empty: bool) -> (res: Result<(), FsError>)
    ensures
        empty ==> res is Ok,
        !empty ==> (res matches Err(FsError::DirectoryNotEmpty(p)) && p@ == path@),
{
    if !empty {
        return Err(FsError::DirectoryNotEmpty(String::from_str(path)));
    }
    Ok(())
}

/// A plain `mkdir` refuses an existing entry; a recursive one accepts it.
pub fn mkdir_check(path: &str, recursive: Option<bool>, exists: bool) -> (res: Result<bool, FsError>)
    ensures
        recursive == Some(true) ==> res == Ok::<bool, FsError>(true),
        recursive != Some(true) && exists ==> (res matches Err(FsError::AlreadyExists(p)) && p@ == path@),
        recursive != Some(true) && !exists ==> res == Ok::<bool, FsError>(false),
{
    if recursive == Some(true) {
        return Ok(true);
    }
    if exists {
        return Err(FsError::AlreadyExists(String::from_str(path)));
    }
    Ok(false)
}

/// A write never replaces a directory.
pub fn write_check(path: &str, is_dir: bool) -> (res: Result<(), FsError>)
    ensures
        is_dir ==> (res matches Err(FsError::IsADirectory(p)) && p@ == path@),
        !is_dir ==> res is Ok,
{
    if is_dir {
        return Err(FsError::IsADirectory(String::from_str(path)));
    }
    Ok(())
}

/// One entry as the server's operations report it.
#[derive(Debug, Clone, PartialEq, Eq)]
pub struct Resource {
    pub path: String,
    /// Empty for a path without a last component.
    pub name: String,
    pub kind: ResourceKind,
    pub size: u64,
    /// Milliseconds since the epoch.
    pub modified_at: Option<i64>,
    pub created_at: Option<i64>,
    pub read_only: bool,
    /// Where a symbolic link points.
    pub target: Option<String>,
}

/// What the filesystem tells about an entry, without following a final
/// symbolic link.
#[derive(Debug, Clone, PartialEq, Eq)]
pub struct ResourceFacts {
    pub is_symlink: bool,
    pub is_dir: bool,
    pub len: u64,
    pub modified_ms: Option<u128>,
    pub created_ms: Option<u128>,
    pub read_only: bool,
    pub link_target: Option<String>,
}

/// The report of the entry at `path`; only a symbolic link has a target.
pub fn resource_from(path: &str, facts: ResourceFacts) -> (res: Resource)
    ensures
        res.path@ == path@,
        res.name@ == match file_name_of(path@) {
            Some(n) => n,
            None => Seq::<char>::empty(),
        },
        res.kind == kind_of(facts.is_symlink, facts.is_dir),
        res.size == facts.len,
        res.read_only == facts.read_only,
        res.target == if facts.is_symlink {
            facts.link_target
        } else {
            None::<String>
        },
        res.modified_at == match facts.modified_ms {
            Some(ms) => if ms <= i64::MAX {
                Some(ms as i64)
            } else {
                None::<i64>
            },
            None => None::<i64>,
        },
        res.created_at == match facts.created_ms {
            Some(ms) => if ms <= i64::MAX {
                Some(ms as i64)
            } else {
                None::<i64>
            },
            None => None::<i64>,
        },
{
    let kind = crate::metadata::resource_kind(facts.is_symlink, facts.is_dir);
    Resource {
        path: String::from_str(path),
        name: name_of(path),
        kind,
        size: facts.len,
        modified_at: millis(facts.modified_ms),
        created_at: millis(facts.created_ms),
        read_only: facts.read_only,
        target: if facts.is_symlink {
            facts.link_target
        } else {
            None
        },
    }
}

/// What a look at a transfer's source found.
#[derive(Debug, Clone, PartialEq, Eq)]
pub enum SourceLookup {
    Found,
    Missing,
    /// Looking failed for another reason, described.
    Failed(String),
}

/// The checks of `copy` and `move` in their order: both paths present and
/// absolute, distinct, the source there, and then [`transfer_plan`]. The
/// result says whether the existing destination is removed first.
pub fn transfer_checks(
    transfer: Transfer,
    source: &str,
    destination: &str,
    source_found: SourceLookup,
    destination_exists: bool,
    overwrite: Option<bool>,
) -> (res: Result<bool, FsError>)
    ensures
        is_blank_text(source@) ==> res == Err::<bool, FsError>(FsError::EmptyPath),
        !is_blank_text(source@) && !has_root(source@) ==> (res matches Err(FsError::RelativePath(p)) && p@ == source@),
        !is_blank_text(source@) && has_root(source@) && is_blank_text(destination@) ==> res == Err::<bool, FsError>(
            FsError::EmptyPath,
        ),
        !is_blank_text(source@) && has_root(source@) && !is_blank_text(destination@) && !has_root(destination@) ==> (res matches Err(
            FsError::RelativePath(p),
        ) && p@ == destination@),
        !is_blank_text(source@) && has_root(source@) && !is_blank_text(destination@) && has_root(destination@) ==> if same_path(
            source@,
            destination@,
        ) {
            res matches Err(FsError::SamePath(p)) && p@ == source@
        } else {
            match source_found {
                SourceLookup::Missing => res matches Err(FsError::NotFound(p)) && p@ == source@,
                SourceLookup::Failed(m) => res == Err::<bool, FsError>(FsError::Io(m)),
                SourceLookup::Found => match transfer_refusal(
                    transfer,
                    source@,
                    destination@,
                    destination_exists,
                    overwrite == Some(true),
                ) {
                    None => res == Ok::<bool, FsError>(destination_exists),
                    Some(TransferRefusal::DestinationInsideSource) => res matches Err(FsError::DestinationInsideSource(p))
                        && p@ == destination@,
                    Some(TransferRefusal::AlreadyExists) => res matches Err(FsError::AlreadyExists(p)) && p@ == destination@,
                    Some(TransferRefusal::SourceInsideDestination) => res matches Err(FsError::SourceInsideDestination(p))
                        && p@ == destination@,
                },
            }
        },
{
    let source_path = match absolute(source) {
        Ok(p) => p,
        Err(e) => return Err(e),
    };
    let destination_path = match absolute(destination) {
        Ok(p) => p,
        Err(e) => return Err(e),
    };
    match ensure_distinct(source_path.as_str(), destination_path.as_str()) {
        Ok(()) => {},
        Err(e) => return Err(e),
    }
    match source_found {
        SourceLookup::Missing => Err(FsError::NotFound(source_path)),
        SourceLookup::Failed(m) => Err(FsError::Io(m)),
        SourceLookup::Found => transfer_plan(transfer, source, destination, destination_exists, overwrite),
    }
}

} // verus!

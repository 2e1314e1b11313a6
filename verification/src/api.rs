//! The HTTP surface's decisions: the error envelope's status and code, the
//! `type` dispatch of the filesystem endpoint, and the checks on request paths.

use vstd::prelude::*;

use crate::path::{components, ComponentView, path_components, Component};
use crate::text::{chars_of, concat, text_eq};
use crate::workspace::{Workspace, WorkspaceAccess, WorkspaceError};

verus! {

/// Every failure the API reports, each with a fixed status and code.
#[derive(Debug, Clone, PartialEq, Eq)]
pub enum AppError {
    NotImplemented(String),
    NotFound(String),
    BadRequest(String),
    Conflict(String),
    NotAFile(String),
    NotADirectory(String),
    /// Carries the method's name.
    MethodNotAllowed(String),
    PreconditionFailed(String),
    PreconditionRequired(String),
    /// Separate from `BadRequest` so the code tells a malformed body apart from
    /// a malformed path or query.
    InvalidRequest(String),
    UnsupportedType(String),
    InvalidMcp(String),
    UnsupportedTransport(String),
    WorkspaceInUse(String),
    ReadOnlyWorkspace(String),
    ManagedWorkspace(String),
    Internal(String),
}

/// The HTTP status of each error.
pub open spec fn status_of(e: AppError) -> u16 {
    match e {
        AppError::NotImplemented(_) => 501,
        AppError::NotFound(_) => 404,
        AppError::BadRequest(_) | AppError::NotAFile(_) | AppError::NotADirectory(_) => 400,
        AppError::Conflict(_) => 409,
        AppError::MethodNotAllowed(_) => 405,
        AppError::PreconditionFailed(_) => 412,
        AppError::PreconditionRequired(_) => 428,
        AppError::InvalidMcp(_)
        | AppError::UnsupportedTransport(_)
        | AppError::InvalidRequest(_)
        | AppError::UnsupportedType(_) => 422,
        AppError::WorkspaceInUse(_) => 409,
        AppError::ReadOnlyWorkspace(_) | AppError::ManagedWorkspace(_) => 403,
        AppError::Internal(_) => 500,
    }
}

/// The machine-readable code of each error.
pub open spec fn code_of(e: AppError) -> Seq<char> {
    match e {
        AppError::NotImplemented(_) => "not_implemented"@,
        AppError::NotFound(_) => "not_found"@,
        AppError::BadRequest(_) => "bad_request"@,
        AppError::NotAFile(_) => "not_a_file"@,
        AppError::NotADirectory(_) => "not_a_directory"@,
        AppError::Conflict(_) => "conflict"@,
        AppError::MethodNotAllowed(_) => "method_not_allowed"@,
        AppError::PreconditionFailed(_) => "precondition_failed"@,
        AppError::PreconditionRequired(_) => "precondition_required"@,
        AppError::InvalidMcp(_) => "invalid_mcp"@,
        AppError::UnsupportedTransport(_) => "unsupported_transport"@,
        AppError::InvalidRequest(_) => "invalid_request"@,
        AppError::UnsupportedType(_) => "unsupported_type"@,
        AppError::WorkspaceInUse(_) => "workspace_in_use"@,
        AppError::ReadOnlyWorkspace(_) => "read_only_workspace"@,
        AppError::ManagedWorkspace(_) => "managed_workspace"@,
        AppError::Internal(_) => "internal_error"@,
    }
}

/// The human-readable prefix of each error's message.
pub open spec fn message_prefix_of(e: AppError) -> Seq<char> {
    match e {
        AppError::NotImplemented(_) => "not implemented: "@,
        AppError::NotFound(_) => "not found: "@,
        AppError::BadRequest(_) => "bad request: "@,
        AppError::Conflict(_) => "conflict: "@,
        AppError::NotAFile(_) => "target is not a file: "@,
        AppError::NotADirectory(_) => "target is not a directory: "@,
        AppError::MethodNotAllowed(_) => "method not allowed: "@,
        AppError::PreconditionFailed(_) => "precondition failed: "@,
        AppError::PreconditionRequired(_) => "precondition required: "@,
        AppError::InvalidRequest(_) => "invalid request: "@,
        AppError::UnsupportedType(_) => "unsupported type: "@,
        AppError::InvalidMcp(_) => "invalid MCP configuration: "@,
        AppError::UnsupportedTransport(_) => "unsupported MCP transport: "@,
        AppError::WorkspaceInUse(_) => "workspace is in use: "@,
        AppError::ReadOnlyWorkspace(_) => "workspace is read-only: "@,
        AppError::ManagedWorkspace(_) => "workspace is managed: "@,
        AppError::Internal(_) => ""@,
    }
}

pub open spec fn detail_of(e: AppError) -> Seq<char> {
    match e {
        AppError::NotImplemented(s) => s@,
        AppError::NotFound(s) => s@,
        AppError::BadRequest(s) => s@,
        AppError::Conflict(s) => s@,
        AppError::NotAFile(s) => s@,
        AppError::NotADirectory(s) => s@,
        AppError::MethodNotAllowed(s) => s@,
        AppError::PreconditionFailed(s) => s@,
        AppError::PreconditionRequired(s) => s@,
        AppError::InvalidRequest(s) => s@,
        AppError::UnsupportedType(s) => s@,
        AppError::InvalidMcp(s) => s@,
        AppError::UnsupportedTransport(s) => s@,
        AppError::WorkspaceInUse(s) => s@,
        AppError::ReadOnlyWorkspace(s) => s@,
        AppError::ManagedWorkspace(s) => s@,
        AppError::Internal(s) => s@,
    }
}

impl AppError {
    pub fn status(&self) -> (res: u16)
        ensures
            res == status_of(*self),
    {
        match self {
            AppError::NotImplemented(_) => 501,
            AppError::NotFound(_) => 404,
            AppError::BadRequest(_) | AppError::NotAFile(_) | AppError::NotADirectory(_) => 400,
            AppError::Conflict(_) => 409,
            AppError::MethodNotAllowed(_) => 405,
            AppError::PreconditionFailed(_) => 412,
            AppError::PreconditionRequired(_) => 428,
            AppError::InvalidMcp(_)
            | AppError::UnsupportedTransport(_)
            | AppError::InvalidRequest(_)
            | AppError::UnsupportedType(_) => 422,
            AppError::WorkspaceInUse(_) => 409,
            AppError::ReadOnlyWorkspace(_) | AppError::ManagedWorkspace(_) => 403,
            AppError::Internal(_) => 500,
        }
    }

    pub fn code(&self) -> (res: &'static str)
        ensures
            res@ == code_of(*self),
    {
        match self {
            AppError::NotImplemented(_) => "not_implemented",
            AppError::NotFound(_) => "not_found",
            AppError::BadRequest(_) => "bad_request",
            AppError::NotAFile(_) => "not_a_file",
            AppError::NotADirectory(_) => "not_a_directory",
            AppError::Conflict(_) => "conflict",
            AppError::MethodNotAllowed(_) => "method_not_allowed",
            AppError::PreconditionFailed(_) => "precondition_failed",
            AppError::PreconditionRequired(_) => "precondition_required",
            AppError::InvalidMcp(_) => "invalid_mcp",
            AppError::UnsupportedTransport(_) => "unsupported_transport",
            AppError::InvalidRequest(_) => "invalid_request",
            AppError::UnsupportedType(_) => "unsupported_type",
            AppError::WorkspaceInUse(_) => "workspace_in_use",
            AppError::ReadOnlyWorkspace(_) => "read_only_workspace",
            AppError::ManagedWorkspace(_) => "managed_workspace",
            AppError::Internal(_) => "internal_error",
        }
    }

    /// The text of the error, for the envelope's `message`.
    pub fn message(&self) -> (res: String)
        ensures
            res@ == message_prefix_of(*self) + detail_of(*self),
    {
        let (prefix, detail): (&str, &String) = match self {
            AppError::NotImplemented(s) => ("not implemented: ", s),
            AppError::NotFound(s) => ("not found: ", s),
            AppError::BadRequest(s) => ("bad request: ", s),
            AppError::Conflict(s) => ("conflict: ", s),
            AppError::NotAFile(s) => ("target is not a file: ", s),
            AppError::NotADirectory(s) => ("target is not a directory: ", s),
            AppError::MethodNotAllowed(s) => ("method not allowed: ", s),
            AppError::PreconditionFailed(s) => ("precondition failed: ", s),
            AppError::PreconditionRequired(s) => ("precondition required: ", s),
            AppError::InvalidRequest(s) => ("invalid request: ", s),
            AppError::UnsupportedType(s) => ("unsupported type: ", s),
            AppError::InvalidMcp(s) => ("invalid MCP configuration: ", s),
            AppError::UnsupportedTransport(s) => ("unsupported MCP transport: ", s),
            AppError::WorkspaceInUse(s) => ("workspace is in use: ", s),
            AppError::ReadOnlyWorkspace(s) => ("workspace is read-only: ", s),
            AppError::ManagedWorkspace(s) => ("workspace is managed: ", s),
            AppError::Internal(s) => ("", s),
        };
        concat(prefix, detail.as_str())
    }

    /// The API's answer to a workspace failure.
    pub fn from_workspace_error(error: WorkspaceError) -> (res: AppError)
        ensures
            match error {
                WorkspaceError::InvalidId { id } => res matches AppError::BadRequest(m) && m@ == "invalid workspace id `"@ + id@ + "`"@,
                WorkspaceError::InvalidRoot { root, reason } => res matches AppError::BadRequest(m) && m@ == "invalid workspace root `"@ + root@ + "`: "@ + reason@,
                WorkspaceError::AlreadyExists { id } => res matches AppError::Conflict(m) && m@ == "workspace `"@ + id@ + "` already exists"@,
                WorkspaceError::NotFound { id } => res matches AppError::NotFound(m) && m@ == "workspace `"@ + id@ + "`"@,
                WorkspaceError::ReadOnly { id } => res matches AppError::ReadOnlyWorkspace(m) && m@ == id@,
            },
    {
        match error {
            WorkspaceError::InvalidId { id } => {
                let m = concat("invalid workspace id `", id.as_str());
                AppError::BadRequest(concat(m.as_str(), "`"))
            },
            WorkspaceError::InvalidRoot { root, reason } => {
                let m = concat("invalid workspace root `", root.as_str());
                let m = concat(m.as_str(), "`: ");
                AppError::BadRequest(concat(m.as_str(), reason.as_str()))
            },
            WorkspaceError::AlreadyExists { id } => {
                let m = concat("workspace `", id.as_str());
                AppError::Conflict(concat(m.as_str(), "` already exists"))
            },
            WorkspaceError::NotFound { id } => {
                let m = concat("workspace `", id.as_str());
                AppError::NotFound(concat(m.as_str(), "`"))
            },
            WorkspaceError::ReadOnly { id } => AppError::ReadOnlyWorkspace(id),
        }
    }
}

/// Whether `c` is NUL.
pub open spec fn has_nul(s: Seq<char>) -> bool {
    exists|i: int| 0 <= i < s.len() && s[i] == '\0'
}

/// Whether any component is `.`, `..` or the root.
pub open spec fn has_dot_or_root(comps: Seq<ComponentView>) -> bool {
    exists|i: int| 0 <= i < comps.len() && !(#[trigger] comps[i] is Normal)
}

/// A workspace file path must be relative and already normalized.
pub fn validate_path(value: &str) -> (res: Result<String, AppError>)
    ensures
        has_nul(value@) ==> (res matches Err(AppError::BadRequest(m)) && m@ == "path must not contain NUL"@),
        !has_nul(value@) && crate::path::has_root(value@) ==> (res matches Err(AppError::BadRequest(m)) && m@
            == "workspace path must be relative"@),
        !has_nul(value@) && !crate::path::has_root(value@) && has_dot_or_root(components(value@)) ==> (res matches Err(
            AppError::BadRequest(m),
        ) && m@ == "path must be normalized"@),
        !has_nul(value@) && !crate::path::has_root(value@) && !has_dot_or_root(components(value@)) ==> (res matches Ok(p)
            && p@ == value@),
{
    let chars = chars_of(value);
    let mut i: usize = 0;
    while i < chars.len()
        invariant
            0 <= i <= chars.len(),
            chars@ == value@,
            forall|k: int| 0 <= k < i ==> value@[k] != '\0',
        decreases chars.len() - i,
    {
        if chars[i] == '\0' {
            return Err(AppError::BadRequest(String::from_str("path must not contain NUL")));
        }
        i = i + 1;
    }
    assert(!has_nul(value@));
    if chars.len() > 0 && chars[0] == '/' {
        return Err(AppError::BadRequest(String::from_str("workspace path must be relative")));
    }
    let comps = path_components(&chars);
    let mut j: usize = 0;
    while j < comps.len()
        invariant
            0 <= j <= comps.len(),
            !has_nul(value@),
            !crate::path::has_root(value@),
            comps@.len() == components(value@).len(),
            forall|k: int| 0 <= k < comps@.len() ==> #[trigger] comps@[k]@ == components(value@)[k],
            forall|k: int| 0 <= k < j ==> (#[trigger] components(value@)[k]) is Normal,
        decreases comps.len() - j,
    {
        assert(comps@[j as int]@ == components(value@)[j as int]);
        match &comps[j] {
            Component::Normal(_) => {},
            _ => {
                assert(!(components(value@)[j as int] is Normal));
                return Err(AppError::BadRequest(String::from_str("path must be normalized")));
            },
        }
        j = j + 1;
    }
    Ok(String::from_str(value))
}

/// The methods of the filesystem endpoint that dispatch on `type`.
#[derive(Debug, Clone, Copy, PartialEq, Eq)]
pub enum FsMethod {
    Query,
    Put,
    Patch,
    Post,
}

/// Every operation the filesystem endpoint names, each scoped to its method.
#[derive(Debug, Clone, Copy, PartialEq, Eq)]
pub enum FsOperation {
    Content,
    Stream,
    QueryMetadata,
    List,
    Glob,
    Realpath,
    Access,
    Lines,
    Watch,
    File,
    Sink,
    Directory,
    Symlink,
    PatchMetadata,
    Patch,
    Truncate,
    Copy,
    Move,
}

pub open spec fn method_name(m: FsMethod) -> Seq<char> {
    match m {
        FsMethod::Query => "QUERY"@,
        FsMethod::Put => "PUT"@,
        FsMethod::Patch => "PATCH"@,
        FsMethod::Post => "POST"@,
    }
}

/// The operation `name` selects under `method`, if it names one there.
pub open spec fn operation_of(method: FsMethod, name: Seq<char>) -> Option<FsOperation> {
    match method {
        FsMethod::Query => if name == "content"@ {
            Some(FsOperation::Content)
        } else if name == "stream"@ {
            Some(FsOperation::Stream)
        } else if name == "metadata"@ {
            Some(FsOperation::QueryMetadata)
        } else if name == "list"@ {
            Some(FsOperation::List)
        } else if name == "glob"@ {
            Some(FsOperation::Glob)
        } else if name == "realpath"@ {
            Some(FsOperation::Realpath)
        } else if name == "access"@ {
            Some(FsOperation::Access)
        } else if name == "lines"@ {
            Some(FsOperation::Lines)
        } else if name == "watch"@ {
            Some(FsOperation::Watch)
        } else {
            None
        },
        FsMethod::Put => if name == "file"@ {
            Some(FsOperation::File)
        } else if name == "sink"@ {
            Some(FsOperation::Sink)
        } else if name == "directory"@ {
            Some(FsOperation::Directory)
        } else if name == "symlink"@ {
            Some(FsOperation::Symlink)
        } else {
            None
        },
        FsMethod::Patch => if name == "metadata"@ {
            Some(FsOperation::PatchMetadata)
        } else if name == "patch"@ {
            Some(FsOperation::Patch)
        } else if name == "truncate"@ {
            Some(FsOperation::Truncate)
        } else {
            None
        },
        FsMethod::Post => if name == "copy"@ {
            Some(FsOperation::Copy)
        } else if name == "move"@ {
            Some(FsOperation::Move)
        } else {
            None
        },
    }
}

/// Whether any method defines `name`.
pub open spec fn known_type(name: Seq<char>) -> bool {
    operation_of(FsMethod::Query, name) is Some || operation_of(FsMethod::Put, name) is Some
        || operation_of(FsMethod::Patch, name) is Some || operation_of(FsMethod::Post, name) is Some
}

/// The operation `name` selects under `method`.
pub fn operation(method: FsMethod, name: &str) -> (res: Option<FsOperation>)
    ensures
        res == operation_of(method, name@),
{
    match method {
        FsMethod::Query => {
            if text_eq(name, "content") {
                Some(FsOperation::Content)
            } else if text_eq(name, "stream") {
                Some(FsOperation::Stream)
            } else if text_eq(name, "metadata") {
                Some(FsOperation::QueryMetadata)
            } else if text_eq(name, "list") {
                Some(FsOperation::List)
            } else if text_eq(name, "glob") {
                Some(FsOperation::Glob)
            } else if text_eq(name, "realpath") {
                Some(FsOperation::Realpath)
            } else if text_eq(name, "access") {
                Some(FsOperation::Access)
            } else if text_eq(name, "lines") {
                Some(FsOperation::Lines)
            } else if text_eq(name, "watch") {
                Some(FsOperation::Watch)
            } else {
                None
            }
        },
        FsMethod::Put => {
            if text_eq(name, "file") {
                Some(FsOperation::File)
            } else if text_eq(name, "sink") {
                Some(FsOperation::Sink)
            } else if text_eq(name, "directory") {
                Some(FsOperation::Directory)
            } else if text_eq(name, "symlink") {
                Some(FsOperation::Symlink)
            } else {
                None
            }
        },
        FsMethod::Patch => {
            if text_eq(name, "metadata") {
                Some(FsOperation::PatchMetadata)
            } else if text_eq(name, "patch") {
                Some(FsOperation::Patch)
            } else if text_eq(name, "truncate") {
                Some(FsOperation::Truncate)
            } else {
                None
            }
        },
        FsMethod::Post => {
            if text_eq(name, "copy") {
                Some(FsOperation::Copy)
            } else if text_eq(name, "move") {
                Some(FsOperation::Move)
            } else {
                None
            }
        },
    }
}

/// Whether any method defines `name`; reached only after the current method's
/// own lookup fails, so a match is another method's type.
pub fn is_known_type(name: &str) -> (res: bool)
    ensures
        res == known_type(name@),
{
    operation(FsMethod::Query, name).is_some() || operation(FsMethod::Put, name).is_some()
        || operation(FsMethod::Patch, name).is_some() || operation(FsMethod::Post, name).is_some()
}

fn fs_method_name(method: FsMethod) -> (res: &'static str)
    ensures
        res@ == method_name(method),
{
    match method {
        FsMethod::Query => "QUERY",
        FsMethod::Put => "PUT",
        FsMethod::Patch => "PATCH",
        FsMethod::Post => "POST",
    }
}

/// The operation a request's `type` selects: an absent name is `422`, a name
/// belonging to another method `405`, and an unknown one `422`.
pub fn parse_type(kind: Option<&str>, method: FsMethod) -> (res: Result<FsOperation, AppError>)
    ensures
        match kind {
            None => res matches Err(AppError::UnsupportedType(m)) && m@ == method_name(method)
                + " requires a `type`"@,
            Some(name) => match operation_of(method, name@) {
                Some(op) => res == Ok::<FsOperation, AppError>(op),
                None => if known_type(name@) {
                    res matches Err(AppError::MethodNotAllowed(m)) && m@ == method_name(method)
                } else {
                    res matches Err(AppError::UnsupportedType(m)) && m@ == name@
                },
            },
        },
{
    let name = match kind {
        None => {
            return Err(
                AppError::UnsupportedType(concat(fs_method_name(method), " requires a `type`")),
            );
        },
        Some(name) => name,
    };
    match operation(method, name) {
        Some(op) => Ok(op),
        None => {
            if is_known_type(name) {
                Err(AppError::MethodNotAllowed(String::from_str(fs_method_name(method))))
            } else {
                Err(AppError::UnsupportedType(String::from_str(name)))
            }
        },
    }
}

/// The target of a filesystem request: workspace mode carries the workspace,
/// direct mode nothing.
pub struct FsTarget {
    pub workspace: Option<Workspace>,
}

impl FsTarget {
    /// Mutations are refused only by a read-only workspace; direct mode has no
    /// properties to narrow it.
    pub fn require_writable(&self) -> (res: Result<(), AppError>)
        ensures
            match self.workspace {
                Some(w) => if w@.properties.access == WorkspaceAccess::ReadWrite {
                    res is Ok
                } else {
                    res matches Err(AppError::ReadOnlyWorkspace(m)) && m@ == w@.id
                },
                None => res is Ok,
            },
    {
        if let Some(workspace) = &self.workspace {
            match workspace.require_writable() {
                Ok(()) => {},
                Err(e) => return Err(AppError::from_workspace_error(e)),
            }
        }
        Ok(())
    }
}

/// The `Depth` request header of a file read.
#[derive(Debug, Clone, Copy, PartialEq, Eq)]
pub enum FileDepth {
    /// The target file.
    Zero,
    /// The target directory and its direct children.
    One,
}

/// Reads the `Depth` header: absent is `0`; only `0` and `1` are accepted.
pub fn parse_depth(value: Option<&[u8]>) -> (res: Result<FileDepth, AppError>)
    ensures
        match value {
            None => res == Ok::<FileDepth, AppError>(FileDepth::Zero),
            Some(v) => if v@ == seq![0x30u8] {
                res == Ok::<FileDepth, AppError>(FileDepth::Zero)
            } else if v@ == seq![0x31u8] {
                res == Ok::<FileDepth, AppError>(FileDepth::One)
            } else {
                res matches Err(AppError::BadRequest(m)) && m@ == "Depth must be 0 or 1"@
            },
        },
{
    match value {
        None => Ok(FileDepth::Zero),
        Some(v) => {
            if v.len() == 1 && v[0] == 0x30 {
                assert(v@ =~= seq![0x30u8]);
                Ok(FileDepth::Zero)
            } else if v.len() == 1 && v[0] == 0x31 {
                assert(v@ =~= seq![0x31u8]);
                Ok(FileDepth::One)
            } else {
                assert(v@ != seq![0x30u8]);
                assert(v@ != seq![0x31u8]);
                Err(AppError::BadRequest(String::from_str("Depth must be 0 or 1")))
            }
        },
    }
}

/// The method under which each operation is requested.
pub open spec fn operation_method(op: FsOperation) -> FsMethod {
    match op {
        FsOperation::Content => FsMethod::Query,
        FsOperation::Stream => FsMethod::Query,
        FsOperation::QueryMetadata => FsMethod::Query,
        FsOperation::List => FsMethod::Query,
        FsOperation::Glob => FsMethod::Query,
        FsOperation::Realpath => FsMethod::Query,
        FsOperation::Access => FsMethod::Query,
        FsOperation::Lines => FsMethod::Query,
        FsOperation::Watch => FsMethod::Query,
        FsOperation::File => FsMethod::Put,
        FsOperation::Sink => FsMethod::Put,
        FsOperation::Directory => FsMethod::Put,
        FsOperation::Symlink => FsMethod::Put,
        FsOperation::PatchMetadata => FsMethod::Patch,
        FsOperation::Patch => FsMethod::Patch,
        FsOperation::Truncate => FsMethod::Patch,
        FsOperation::Copy => FsMethod::Post,
        FsOperation::Move => FsMethod::Post,
    }
}

/// The `type` name of each operation: its own name in snake case, with the
/// two metadata operations both named `metadata` under their methods.
pub open spec fn operation_type_name(op: FsOperation) -> Seq<char> {
    match op {
        FsOperation::Content => "content"@,
        FsOperation::Stream => "stream"@,
        FsOperation::QueryMetadata => "metadata"@,
        FsOperation::List => "list"@,
        FsOperation::Glob => "glob"@,
        FsOperation::Realpath => "realpath"@,
        FsOperation::Access => "access"@,
        FsOperation::Lines => "lines"@,
        FsOperation::Watch => "watch"@,
        FsOperation::File => "file"@,
        FsOperation::Sink => "sink"@,
        FsOperation::Directory => "directory"@,
        FsOperation::Symlink => "symlink"@,
        FsOperation::PatchMetadata => "metadata"@,
        FsOperation::Patch => "patch"@,
        FsOperation::Truncate => "truncate"@,
        FsOperation::Copy => "copy"@,
        FsOperation::Move => "move"@,
    }
}

/// Every operation is selected by its own `type` name under its method.
pub proof fn each_type_name_selects_its_operation(op: FsOperation)
    ensures
        operation_of(operation_method(op), operation_type_name(op)) == Some(op),
{
    reveal_strlit("access");
    reveal_strlit("content");
    reveal_strlit("copy");
    reveal_strlit("directory");
    reveal_strlit("file");
    reveal_strlit("glob");
    reveal_strlit("lines");
    reveal_strlit("list");
    reveal_strlit("metadata");
    reveal_strlit("move");
    reveal_strlit("patch");
    reveal_strlit("realpath");
    reveal_strlit("sink");
    reveal_strlit("stream");
    reveal_strlit("symlink");
    reveal_strlit("truncate");
    reveal_strlit("watch");
    match op {
        FsOperation::Content => {

        },
        FsOperation::Stream => {
            assert("stream"@.len() != "content"@.len());
        },
        FsOperation::QueryMetadata => {
            assert("metadata"@.len() != "content"@.len());
            assert("metadata"@.len() != "stream"@.len());
        },
        FsOperation::List => {
            assert("list"@.len() != "content"@.len());
            assert("list"@.len() != "stream"@.len());
            assert("list"@.len() != "metadata"@.len());
        },
        FsOperation::Glob => {
            assert("glob"@.len() != "content"@.len());
            assert("glob"@.len() != "stream"@.len());
            assert("glob"@.len() != "metadata"@.len());
            assert("glob"@[0] != "list"@[0]);
        },
        FsOperation::Realpath => {
            assert("realpath"@.len() != "content"@.len());
            assert("realpath"@.len() != "stream"@.len());
            assert("realpath"@[0] != "metadata"@[0]);
            assert("realpath"@.len() != "list"@.len());
            assert("realpath"@.len() != "glob"@.len());
        },
        FsOperation::Access => {
            assert("access"@.len() != "content"@.len());
            assert("access"@[0] != "stream"@[0]);
            assert("access"@.len() != "metadata"@.len());
            assert("access"@.len() != "list"@.len());
            assert("access"@.len() != "glob"@.len());
            assert("access"@.len() != "realpath"@.len());
        },
        FsOperation::Lines => {
            assert("lines"@.len() != "content"@.len());
            assert("lines"@.len() != "stream"@.len());
            assert("lines"@.len() != "metadata"@.len());
            assert("lines"@.len() != "list"@.len());
            assert("lines"@.len() != "glob"@.len());
            assert("lines"@.len() != "realpath"@.len());
            assert("lines"@.len() != "access"@.len());
        },
        FsOperation::Watch => {
            assert("watch"@.len() != "content"@.len());
            assert("watch"@.len() != "stream"@.len());
            assert("watch"@.len() != "metadata"@.len());
            assert("watch"@.len() != "list"@.len());
            assert("watch"@.len() != "glob"@.len());
            assert("watch"@.len() != "realpath"@.len());
            assert("watch"@.len() != "access"@.len());
            assert("watch"@[0] != "lines"@[0]);
        },
        FsOperation::File => {

        },
        FsOperation::Sink => {
            assert("sink"@[0] != "file"@[0]);
        },
        FsOperation::Directory => {
            assert("directory"@.len() != "file"@.len());
            assert("directory"@.len() != "sink"@.len());
        },
        FsOperation::Symlink => {
            assert("symlink"@.len() != "file"@.len());
            assert("symlink"@.len() != "sink"@.len());
            assert("symlink"@.len() != "directory"@.len());
        },
        FsOperation::PatchMetadata => {

        },
        FsOperation::Patch => {
            assert("patch"@.len() != "metadata"@.len());
        },
        FsOperation::Truncate => {
            assert("truncate"@[0] != "metadata"@[0]);
            assert("truncate"@.len() != "patch"@.len());
        },
        FsOperation::Copy => {

        },
        FsOperation::Move => {
            assert("move"@[0] != "copy"@[0]);
        },
    }
}

/// A `type` name selects only the operation it names, and only under that
/// operation's method: distinct names never select the same operation.
pub proof fn a_type_name_selects_only_its_operation(method: FsMethod, name: Seq<char>)
    ensures
        operation_of(method, name) matches Some(op) ==> operation_method(op) == method && operation_type_name(op)
            == name,
{
}

} // verus!

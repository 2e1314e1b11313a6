//! The file an operation names: a path inside a registered workspace, or an
//! absolute path in direct mode.

use vstd::prelude::*;

use crate::path::{join, joined};
use crate::workspace::{lookup, Workspace, WorkspaceAccess, WorkspaceError, WorkspaceRegistry, WorkspaceView};

verus! {

/// A target whose path is already normalized; only the workspace boundary is
/// left to check before the filesystem is touched.
#[derive(Debug, Clone, PartialEq, Eq)]
pub enum TargetFile {
    Workspace { workspace: Workspace, relative_path: String },
    Absolute(String),
}

pub open spec fn target_path(t: TargetFile) -> Seq<char> {
    match t {
        TargetFile::Workspace { workspace, relative_path } => joined(workspace@.root, relative_path@),
        TargetFile::Absolute(p) => p@,
    }
}

pub open spec fn target_address(t: TargetFile) -> Seq<char> {
    match t {
        TargetFile::Workspace { relative_path, .. } => relative_path@,
        TargetFile::Absolute(p) => p@,
    }
}

impl TargetFile {
    /// The target `relative_path` inside the registered workspace `id`.
    pub fn workspace(registry: &WorkspaceRegistry, id: &str, relative_path: String) -> (res: Result<Self, WorkspaceError>)
        ensures
            match lookup(registry.entries(), id@) {
                Some(w) => res matches Ok(TargetFile::Workspace { workspace, relative_path: r }) && workspace@ == w
                    && r@ == relative_path@,
                None => res matches Err(e) && e is NotFound && e->NotFound_id@ == id@,
            },
    {
        match registry.workspace(id) {
            Ok(workspace) => Ok(TargetFile::Workspace { workspace, relative_path }),
            Err(e) => Err(e),
        }
    }

    /// The path the filesystem sees.
    pub fn path(&self) -> (res: String)
        ensures
            res@ == target_path(*self),
    {
        match self {
            TargetFile::Workspace { workspace, relative_path } => join(workspace.root(), relative_path),
            TargetFile::Absolute(p) => p.clone(),
        }
    }

    /// The path in the request's addressing mode.
    pub fn address(&self) -> (res: String)
        ensures
            res@ == target_address(*self),
    {
        match self {
            TargetFile::Workspace { relative_path, .. } => relative_path.clone(),
            TargetFile::Absolute(p) => p.clone(),
        }
    }

    pub fn workspace_root(&self) -> (res: Option<&str>)
        ensures
            match *self {
                TargetFile::Workspace { workspace, .. } => res matches Some(r) && r@ == workspace@.root,
                TargetFile::Absolute(_) => res is None,
            },
    {
        match self {
            TargetFile::Workspace { workspace, .. } => Some(workspace.root()),
            TargetFile::Absolute(_) => None,
        }
    }

    /// Direct mode has no workspace properties, so it is never read-only.
    pub fn require_writable(&self) -> (res: Result<(), WorkspaceError>)
        ensures
            match *self {
                TargetFile::Workspace { workspace, .. } => (res is Ok <==> workspace@.properties.access
                    == WorkspaceAccess::ReadWrite) && (res matches Err(e) ==> e is ReadOnly && e->ReadOnly_id@
                    == workspace@.id),
                TargetFile::Absolute(_) => res is Ok,
            },
    {
        match self {
            TargetFile::Workspace { workspace, .. } => workspace.require_writable(),
            TargetFile::Absolute(_) => Ok(()),
        }
    }
}

} // verus!

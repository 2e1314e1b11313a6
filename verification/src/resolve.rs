//! The workspace root bounds a resolved path, so a symlink or a `..` cannot
//! escape: the candidate is canonicalized before it is compared against the
//! root. Canonicalizing touches the filesystem and is the caller's step; the
//! decisions before and after it are here.

use vstd::prelude::*;

use crate::normal_form::{lemma_child_stays_under, lemma_file_name_plain, plain};
use crate::path::{
    file_name, file_name_of, has_root, is_absolute, join, joined, normalize, normalized, parent,
    parent_of, path_starts_with, starts_with,
};

verus! {

#[derive(Debug, Clone, PartialEq, Eq)]
pub enum PathError {
    NotFound(String),
    InvalidPath { path: String, reason: String },
    /// The filesystem failed for another reason; the text describes it.
    Io(String),
}

/// What canonicalizing a candidate path gave.
#[derive(Debug, Clone, PartialEq, Eq)]
pub enum Canonical {
    /// The canonical form of an existing path.
    Resolved(String),
    /// Nothing exists there.
    Missing,
    /// Any other failure, described.
    Failed(String),
}

pub open spec fn relative_in_workspace() -> Seq<char> {
    "path must be relative in workspace mode"@
}

pub open spec fn absolute_in_direct_mode() -> Seq<char> {
    "path must be absolute in direct mode"@
}

pub open spec fn escapes_workspace() -> Seq<char> {
    "path escapes workspace"@
}

pub open spec fn is_invalid(e: PathError, path: Seq<char>, reason: Seq<char>) -> bool {
    e matches PathError::InvalidPath { path: p, reason: r } && p@ == path && r@ == reason
}

/// An `InvalidPath` error for `path`.
pub fn invalid(path: &str, reason: &str) -> (res: PathError)
    ensures
        is_invalid(res, path@, reason@),
{
    PathError::InvalidPath { path: String::from_str(path), reason: String::from_str(reason) }
}

/// Workspace mode takes relative paths, direct mode absolute ones.
pub open spec fn mode_ok(root: Option<Seq<char>>, path: Seq<char>) -> bool {
    match root {
        Some(_) => !has_root(path),
        None => has_root(path),
    }
}

pub open spec fn mode_error(root: Option<Seq<char>>) -> Seq<char> {
    match root {
        Some(_) => relative_in_workspace(),
        None => absolute_in_direct_mode(),
    }
}

pub open spec fn opt_view(root: Option<&str>) -> Option<Seq<char>> {
    match root {
        Some(r) => Some(r@),
        None => None,
    }
}

fn check_mode(root: Option<&str>, path: &str) -> (res: Result<(), PathError>)
    ensures
        res is Ok <==> mode_ok(opt_view(root), path@),
        res matches Err(e) ==> is_invalid(e, path@, mode_error(opt_view(root))),
{
    match root {
        Some(_) => {
            if is_absolute(path) {
                let reason = "path must be relative in workspace mode";
                return Err(invalid(path, reason));
            }
        },
        None => {
            if !is_absolute(path) {
                let reason = "path must be absolute in direct mode";
                return Err(invalid(path, reason));
            }
        },
    }
    Ok(())
}

/// The path to canonicalize for `path`: joined to the root in workspace mode.
pub fn resolve_candidate(root: Option<&str>, path: &str) -> (res: Result<String, PathError>)
    ensures
        res is Ok <==> mode_ok(opt_view(root), path@),
        res matches Err(e) ==> is_invalid(e, path@, mode_error(opt_view(root))),
        res matches Ok(c) ==> c@ == match root {
            Some(r) => joined(r@, path@),
            None => path@,
        },
{
    check_mode(root, path)?;
    match root {
        Some(r) => Ok(join(r, path)),
        None => Ok(String::from_str(path)),
    }
}

/// The canonical path, or the error its absence is reported as.
pub fn canonicalized(outcome: Canonical, address: &str) -> (res: Result<String, PathError>)
    ensures
        match outcome {
            Canonical::Resolved(p) => res matches Ok(q) && q@ == p@,
            Canonical::Missing => res matches Err(PathError::NotFound(a)) && a@ == address@,
            Canonical::Failed(m) => res matches Err(PathError::Io(n)) && n@ == m@,
        },
{
    match outcome {
        Canonical::Resolved(p) => Ok(p),
        Canonical::Missing => Err(PathError::NotFound(String::from_str(address))),
        Canonical::Failed(m) => Err(PathError::Io(m)),
    }
}

/// Finishes a resolution: the canonical target, which in workspace mode must
/// stay inside the root.
pub fn resolve_checked(root: Option<&str>, path: &str, outcome: Canonical) -> (res: Result<
    String,
    PathError,
>)
    ensures
        match outcome {
            Canonical::Resolved(t) => match root {
                Some(r) => if path_starts_with(t@, r@) {
                    res matches Ok(q) && q@ == t@
                } else {
                    res matches Err(e) && is_invalid(e, path@, escapes_workspace())
                },
                None => res matches Ok(q) && q@ == t@,
            },
            Canonical::Missing => res matches Err(PathError::NotFound(a)) && a@ == path@,
            Canonical::Failed(m) => res matches Err(PathError::Io(n)) && n@ == m@,
        },
        res matches Ok(q) ==> (root matches Some(r) ==> path_starts_with(q@, r@)),
{
    let target = canonicalized(outcome, path)?;
    if let Some(r) = root {
        if !starts_with(target.as_str(), r) {
            let reason = "path escapes workspace";
            return Err(invalid(path, reason));
        }
    }
    Ok(target)
}

/// How an entry is resolved without following its final symlink.
#[derive(Debug, Clone, PartialEq, Eq)]
pub enum EntryPlan {
    /// There is no final name to keep: resolve the whole path instead.
    Resolve,
    /// Canonicalize `parent`, then append `name`.
    Parent { parent: String, name: String },
}

/// Plans the resolution of an entry whose final component may be missing or a
/// symlink.
pub fn entry_plan(root: Option<&str>, path: &str) -> (res: Result<EntryPlan, PathError>)
    ensures
        res is Ok <==> mode_ok(opt_view(root), path@),
        res matches Err(e) ==> is_invalid(e, path@, mode_error(opt_view(root))),
        res matches Ok(plan) ==> match file_name_of(path@) {
            None => plan is Resolve,
            Some(n) => plan matches EntryPlan::Parent { parent: p, name: m } && m@ == n && plain(n)
                && p@ == match root {
                    Some(r) => joined(r@, parent_of(path@)->0),
                    None => parent_of(path@)->0,
                },
        },
{
    check_mode(root, path)?;
    proof {
        lemma_file_name_plain(path@);
    }
    let name = match file_name(path) {
        Some(name) => name,
        None => return Ok(EntryPlan::Resolve),
    };
    let up = match parent(path) {
        Some(up) => up,
        None => String::new(),
    };
    assert(parent_of(path@) is Some);
    let parent = match root {
        Some(r) => join(r, up.as_str()),
        None => up,
    };
    Ok(EntryPlan::Parent { parent, name })
}

/// Finishes an entry: the canonical parent must stay inside the root, and the
/// name is appended without being followed.
pub fn entry_checked(root: Option<&str>, path: &str, name: &str, outcome: Canonical) -> (res: Result<
    String,
    PathError,
>)
    ensures
        match outcome {
            Canonical::Resolved(t) => match root {
                Some(r) => if path_starts_with(t@, r@) {
                    res matches Ok(q) && q@ == joined(t@, name@)
                } else {
                    res matches Err(e) && is_invalid(e, path@, escapes_workspace())
                },
                None => res matches Ok(q) && q@ == joined(t@, name@),
            },
            Canonical::Missing => res matches Err(PathError::NotFound(a)) && a@ == path@,
            Canonical::Failed(m) => res matches Err(PathError::Io(n)) && n@ == m@,
        },
        plain(name@) ==> (res matches Ok(q) ==> (root matches Some(r) ==> path_starts_with(q@, r@))),
{
    let parent = canonicalized(outcome, path)?;
    if let Some(r) = root {
        if !starts_with(parent.as_str(), r) {
            let reason = "path escapes workspace";
            return Err(invalid(path, reason));
        }
        proof {
            if plain(name@) {
                lemma_child_stays_under(parent@, r@, name@);
            }
        }
    }
    Ok(join(parent.as_str(), name))
}

/// Resolves a path for creation, where the final component and any missing
/// ancestors do not exist yet; with no canonical target to compare, the
/// workspace boundary is checked lexically.
pub fn resolve_new(root: Option<&str>, path: &str) -> (res: Result<String, PathError>)
    ensures
        !mode_ok(opt_view(root), path@) ==> (res matches Err(e) && is_invalid(e, path@, mode_error(opt_view(root)))),
        mode_ok(opt_view(root), path@) ==> match root {
            Some(r) => if path_starts_with(normalized(joined(r@, path@)), r@) {
                res matches Ok(q) && q@ == normalized(joined(r@, path@))
            } else {
                res matches Err(e) && is_invalid(e, path@, escapes_workspace())
            },
            None => res matches Ok(q) && q@ == normalized(path@),
        },
        res matches Ok(q) ==> (root matches Some(r) ==> path_starts_with(q@, r@)),
{
    check_mode(root, path)?;
    match root {
        Some(r) => {
            let target = normalize(join(r, path).as_str());
            if !starts_with(target.as_str(), r) {
                let reason = "path escapes workspace";
                return Err(invalid(path, reason));
            }
            Ok(target)
        },
        None => Ok(normalize(path)),
    }
}

} // verus!

//! Directory listings and glob searches: which entries a walk reports, and
//! the window of them a response carries.
//!
//! A walk keeps a stack of directories still to read, relative to the listed
//! root; each entry read is offered to a [`ListWindow`], which stops the walk
//! once one entry past the window has been seen.

use globset::{Glob, GlobBuilder, GlobSet, GlobSetBuilder};

use vstd::prelude::*;

use crate::metadata::{etag, etag_of, ResourceKind};
use crate::normal_form::plain;
use crate::path::{join, joined};
use crate::text::concat;

verus! {

/// Entries a listing returns when the request names no limit, and the
/// ceiling a named limit is clamped to.
pub const SERVER_LIMIT: u64 = 1000;

/// Why a listing failed.
#[derive(Debug, Clone, PartialEq, Eq)]
pub enum DirectoryError {
    NotDirectory(String),
    AlreadyExists(String),
    ParentNotFound(String),
    InvalidPattern(String),
    /// Resolving the path failed; the text describes it.
    Path(String),
    /// A file operation failed; the text describes it.
    File(String),
    Io(String),
}

pub open spec fn directory_error_message(e: DirectoryError) -> Seq<char> {
    match e {
        DirectoryError::NotDirectory(p) => "target is not a directory: "@ + p@,
        DirectoryError::AlreadyExists(p) => "resource already exists: "@ + p@,
        DirectoryError::ParentNotFound(p) => "parent directory does not exist: "@ + p@,
        DirectoryError::InvalidPattern(m) => "invalid glob pattern: "@ + m@,
        DirectoryError::Path(m) => m@,
        DirectoryError::File(m) => m@,
        DirectoryError::Io(m) => "failed to access the directory: "@ + m@,
    }
}

impl DirectoryError {
    pub fn message(&self) -> (res: String)
        ensures
            res@ == directory_error_message(*self),
    {
        match self {
            DirectoryError::NotDirectory(p) => concat("target is not a directory: ", p),
            DirectoryError::AlreadyExists(p) => concat("resource already exists: ", p),
            DirectoryError::ParentNotFound(p) => concat("parent directory does not exist: ", p),
            DirectoryError::InvalidPattern(m) => concat("invalid glob pattern: ", m),
            DirectoryError::Path(m) => m.clone(),
            DirectoryError::File(m) => m.clone(),
            DirectoryError::Io(m) => concat("failed to access the directory: ", m),
        }
    }
}

/// How creating a directory failed, as the filesystem classifies it.
#[derive(Debug, Clone, Copy, PartialEq, Eq)]
pub enum CreateFailure {
    AlreadyExists,
    NotADirectory,
    Other,
}

/// A creation that lost a race with another is a conflict, and a component
/// that is a file is a missing parent.
pub fn create_error(path: &str, failure: CreateFailure, message: String) -> (res: DirectoryError)
    ensures
        match failure {
            CreateFailure::AlreadyExists => res matches DirectoryError::AlreadyExists(p) && p@ == path@,
            CreateFailure::NotADirectory => res matches DirectoryError::ParentNotFound(p) && p@ == path@,
            CreateFailure::Other => res == DirectoryError::Io(message),
        },
{
    match failure {
        CreateFailure::AlreadyExists => DirectoryError::AlreadyExists(String::from_str(path)),
        CreateFailure::NotADirectory => DirectoryError::ParentNotFound(String::from_str(path)),
        CreateFailure::Other => DirectoryError::Io(message),
    }
}

/// The page size of a listing: the server's when absent, never above it.
pub fn window(limit: Option<u64>) -> (res: usize)
    ensures
        res == match limit {
            Some(l) => if l < SERVER_LIMIT {
                l
            } else {
                SERVER_LIMIT
            },
            None => SERVER_LIMIT,
        },
{
    let l = match limit {
        Some(l) => l,
        None => SERVER_LIMIT,
    };
    if l < SERVER_LIMIT {
        l as usize
    } else {
        SERVER_LIMIT as usize
    }
}

/// An entry's address in the request's mode: the request path joined with
/// the entry's path below the listed root, so a recursive listing keeps its
/// directory prefix.
pub fn entry_address(address_root: &str, relative: &str) -> (res: String)
    ensures
        res@ == joined(address_root@, relative@),
{
    join(address_root, relative)
}

/// One entry of a listing.
#[derive(Debug, Clone, PartialEq, Eq)]
pub struct ResourceEntry {
    pub name: String,
    pub path: String,
    pub kind: ResourceKind,
    /// Zero for a directory or a symlink.
    pub size: u64,
    pub etag: String,
    pub modified_at: String,
}

/// A listing's page.
#[derive(Debug, Clone, PartialEq, Eq)]
pub struct DirectoryResponse {
    pub entries: Vec<ResourceEntry>,
    /// Whether entries follow the page.
    pub truncated: bool,
}

/// The kind a listing reports, classified without following symlinks; any
/// other entry type is refused.
pub open spec fn listed_kind(is_dir: bool, is_file: bool, is_symlink: bool) -> Option<ResourceKind> {
    if is_dir {
        Some(ResourceKind::Directory)
    } else if is_file {
        Some(ResourceKind::File)
    } else if is_symlink {
        Some(ResourceKind::Symlink)
    } else {
        None
    }
}

/// What a directory read tells about one entry.
#[derive(Debug, Clone, PartialEq, Eq)]
pub struct EntryInfo {
    pub name: String,
    pub is_dir: bool,
    pub is_file: bool,
    pub is_symlink: bool,
    pub len: u64,
    pub modified_nanos: u128,
    pub modified_at: String,
}

/// The listing entry for `info`, found at `relative` below the listed root.
pub fn resource_entry(info: EntryInfo, address_root: &str, relative: &str) -> (res: Result<ResourceEntry, DirectoryError>)
    ensures
        match listed_kind(info.is_dir, info.is_file, info.is_symlink) {
            None => res matches Err(DirectoryError::Io(m)) && m@ == "unsupported directory entry type"@,
            Some(kind) => res matches Ok(e) && {
                &&& e.name == info.name
                &&& e.path@ == joined(address_root@, relative@)
                &&& e.kind == kind
                &&& e.size == if info.is_file {
                    info.len
                } else {
                    0
                }
                &&& e.etag@ == etag_of(info.len, info.modified_nanos)
                &&& e.modified_at == info.modified_at
            },
        },
{
    let kind = if info.is_dir {
        ResourceKind::Directory
    } else if info.is_file {
        ResourceKind::File
    } else if info.is_symlink {
        ResourceKind::Symlink
    } else {
        return Err(DirectoryError::Io(String::from_str("unsupported directory entry type")));
    };
    Ok(
        ResourceEntry {
            name: info.name,
            path: entry_address(address_root, relative),
            kind,
            size: if info.is_file {
                info.len
            } else {
                0
            },
            etag: etag(info.len, info.modified_nanos),
            modified_at: info.modified_at,
        },
    )
}

/// A page of a sequence read one item at a time: the items from `offset`,
/// at most `limit` of them, and whether any follow.
pub struct ListWindow<T> {
    offset: u64,
    limit: usize,
    skipped: u64,
    entries: Vec<T>,
    truncated: bool,
    /// The items offered so far.
    seen: Ghost<Seq<T>>,
}

/// The page of `items` from `offset`, at most `limit` long.
pub open spec fn page_of<T>(items: Seq<T>, offset: nat, limit: nat) -> Seq<T> {
    if offset >= items.len() {
        Seq::empty()
    } else if offset + limit < items.len() {
        items.subrange(offset as int, (offset + limit) as int)
    } else {
        items.subrange(offset as int, items.len() as int)
    }
}

impl<T> ListWindow<T> {
    pub closed spec fn spec_offset(&self) -> nat {
        self.offset as nat
    }

    pub closed spec fn spec_limit(&self) -> nat {
        self.limit as nat
    }

    pub closed spec fn spec_seen(&self) -> Seq<T> {
        self.seen@
    }

    /// Whether an item past the page was seen, which ends the walk.
    pub closed spec fn spec_full(&self) -> bool {
        self.truncated
    }

    pub closed spec fn wf(&self) -> bool {
        &&& self.skipped <= self.offset
        &&& self.entries@.len() <= self.limit
        &&& if self.truncated {
            &&& self.seen@.len() == self.offset + self.limit + 1
            &&& self.entries@ == self.seen@.subrange(self.offset as int, self.offset + self.limit)
        } else {
            &&& self.skipped < self.offset ==> self.seen@.len() == self.skipped && self.entries@.len() == 0
            &&& self.skipped == self.offset ==> self.entries@ == self.seen@.subrange(
                self.offset as int,
                self.seen@.len() as int,
            ) && self.seen@.len() == self.offset + self.entries@.len()
        }
    }

    pub fn new(offset: u64, limit: usize) -> (res: Self)
        ensures
            res.wf(),
            res.spec_offset() == offset,
            res.spec_limit() == limit,
            res.spec_seen() == Seq::<T>::empty(),
            !res.spec_full(),
    {
        let res = ListWindow {
            offset,
            limit,
            skipped: 0,
            entries: Vec::new(),
            truncated: false,
            seen: Ghost(Seq::empty()),
        };
        if offset == 0 {
            assert(res.seen@.subrange(0, 0) =~= res.entries@);
        }
        res
    }

    /// Offers the next item; false once an item past the page was seen, and
    /// the walk stops.
    pub fn offer(&mut self, item: T) -> (more: bool)
        requires
            old(self).wf(),
            !old(self).spec_full(),
        ensures
            final(self).wf(),
            final(self).spec_offset() == old(self).spec_offset(),
            final(self).spec_limit() == old(self).spec_limit(),
            final(self).spec_seen() == old(self).spec_seen().push(item),
            more == !final(self).spec_full(),
    {
        let ghost before = self.seen@;
        proof {
            self.seen@ = self.seen@.push(item);
        }
        if self.skipped < self.offset {
            self.skipped = self.skipped + 1;
            assert(self.seen@.len() == self.skipped);
            if self.skipped == self.offset {
                assert(self.seen@.subrange(self.offset as int, self.seen@.len() as int) =~= self.entries@);
            }
            return true;
        }
        if self.entries.len() == self.limit {
            self.truncated = true;
            assert(self.entries@ =~= self.seen@.subrange(self.offset as int, self.offset + self.limit));
            return false;
        }
        self.entries.push(item);
        assert(self.entries@ =~= self.seen@.subrange(self.offset as int, self.seen@.len() as int));
        true
    }

    /// Whether an item past the page was seen.
    pub fn is_full(&self) -> (res: bool)
        ensures
            res == self.spec_full(),
    {
        self.truncated
    }

    /// The page of every sequence that starts with the items seen, when the
    /// walk stopped early, or of exactly the items seen, when it ran out.
    pub fn finish(self) -> (res: (Vec<T>, bool))
        requires
            self.wf(),
        ensures
            forall|all: Seq<T>|
                #![trigger page_of(all, self.spec_offset(), self.spec_limit())]
                (if self.spec_full() {
                    self.spec_seen().len() <= all.len() && all.subrange(0, self.spec_seen().len() as int)
                        == self.spec_seen()
                } else {
                    all == self.spec_seen()
                }) ==> res.0@ == page_of(all, self.spec_offset(), self.spec_limit()) && res.1 == (
                self.spec_offset() + self.spec_limit() < all.len()),
    {
        let ghost seen = self.seen@;
        let ghost offset = self.offset as nat;
        let ghost limit = self.limit as nat;
        let ghost full = self.truncated;
        let ghost skipped = self.skipped;
        let res = (self.entries, self.truncated);
        assert forall|all: Seq<T>|
            (if full {
                seen.len() <= all.len() && all.subrange(0, seen.len() as int) == seen
            } else {
                all == seen
            }) implies res.0@ == page_of(all, offset, limit) && res.1 == (offset + limit < all.len()) by {
            if full {
                assert(all.subrange(offset as int, (offset + limit) as int) =~= seen.subrange(offset as int, (offset + limit) as int))
                    by {
                    assert forall|k: int| 0 <= k < limit implies #[trigger] all.subrange(offset as int, (offset + limit) as int)[k]
                        == seen.subrange(offset as int, (offset + limit) as int)[k] by {
                        assert(all[offset + k] == all.subrange(0, seen.len() as int)[offset + k]);
                    }
                }
            } else {
                if skipped < offset {
                    assert(page_of(all, offset, limit) =~= Seq::<T>::empty());
                }
            }
        }
        res
    }
}

/// The directories a walk still has to read, relative to the listed root;
/// the last one pushed is read next.
pub struct DirWalk {
    pending: Vec<String>,
}

impl DirWalk {
    pub closed spec fn spec_pending(&self) -> Seq<Seq<char>> {
        self.pending@.map_values(|s: String| s@)
    }

    /// A walk that starts at the listed root itself.
    pub fn new() -> (res: Self)
        ensures
            res.spec_pending() == seq![Seq::<char>::empty()],
    {
        let mut pending: Vec<String> = Vec::new();
        pending.push(String::new());
        let res = DirWalk { pending };
        assert(res.spec_pending() =~= seq![Seq::<char>::empty()]);
        res
    }

    /// The next directory to read.
    pub fn next_dir(&mut self) -> (res: Option<String>)
        ensures
            old(self).spec_pending().len() == 0 ==> res is None && final(self).spec_pending() == old(
                self,
            ).spec_pending(),
            old(self).spec_pending().len() > 0 ==> (res matches Some(d) && d@ == old(self).spec_pending().last())
                && final(self).spec_pending() == old(self).spec_pending().drop_last(),
    {
        let ghost before = self.spec_pending();
        let res = self.pending.pop();
        proof {
            if before.len() > 0 {
                assert(self.spec_pending() =~= before.drop_last());
            }
        }
        res
    }

    /// Queues the directory at `relative` below the listed root.
    pub fn push_dir(&mut self, relative: String)
        ensures
            final(self).spec_pending() == old(self).spec_pending().push(relative@),
    {
        let ghost before = self.spec_pending();
        self.pending.push(relative);
        assert(self.spec_pending() =~= before.push(relative@));
    }
}

/// The path of an entry named `name` in the directory at `dir` below the
/// listed root.
pub fn child_path(dir: &str, name: &str) -> (res: String)
    ensures
        res@ == joined(dir@, name@),
{
    join(dir, name)
}

#[verifier::external_type_specification]
#[verifier::external_body]
pub struct ExGlob(Glob);

#[verifier::external_type_specification]
#[verifier::external_body]
pub struct ExGlobSetBuilder(GlobSetBuilder);

#[verifier::external_type_specification]
#[verifier::external_body]
pub struct ExGlobSet(GlobSet);

/// Whether `path` matches the glob `pattern`, with `*` and `?` kept within
/// one component.
pub uninterp spec fn glob_matches(pattern: Seq<char>, path: Seq<char>) -> bool;

/// Whether `pattern` is a glob.
pub uninterp spec fn glob_valid(pattern: Seq<char>) -> bool;

/// Whether the globs can be compiled together.
pub uninterp spec fn globs_combine(patterns: Seq<Seq<char>>) -> bool;

/// The pattern a compiled glob holds.
pub uninterp spec fn glob_pattern(g: Glob) -> Seq<char>;

/// The patterns added to a builder, in order.
pub uninterp spec fn builder_patterns(b: GlobSetBuilder) -> Seq<Seq<char>>;

/// The patterns a set was built from.
pub uninterp spec fn set_patterns(s: GlobSet) -> Seq<Seq<char>>;

/// `GlobBuilder::new(pattern).literal_separator(true).build()`: the glob,
/// when `pattern` is one; the failure's text is not described.
#[verifier::external_body]
fn compile_glob(pattern: &str) -> (res: Result<Glob, String>)
    ensures
        res is Ok <==> glob_valid(pattern@),
        res matches Ok(g) ==> glob_pattern(g) == pattern@,
{
    GlobBuilder::new(pattern).literal_separator(true).build().map_err(|error| error.to_string())
}

/// `GlobSetBuilder::new`: a builder with no patterns.
#[verifier::external_body]
fn glob_set_builder() -> (res: GlobSetBuilder)
    ensures
        builder_patterns(res) == Seq::<Seq<char>>::empty(),
{
    GlobSetBuilder::new()
}

/// `GlobSetBuilder::add`: appends the glob's pattern.
#[verifier::external_body]
fn glob_set_add(b: &mut GlobSetBuilder, glob: Glob)
    ensures
        builder_patterns(*final(b)) == builder_patterns(*old(b)).push(glob_pattern(glob)),
{
    b.add(glob);
}

/// `GlobSetBuilder::build`: the set of the patterns added, when they compile
/// together; the failure's text is not described.
#[verifier::external_body]
fn glob_set_build(builder: &GlobSetBuilder) -> (res: Result<GlobSet, String>)
    ensures
        res is Ok <==> globs_combine(builder_patterns(*builder)),
        res matches Ok(s) ==> set_patterns(s) == builder_patterns(*builder),
{
    builder.build().map_err(|error| error.to_string())
}

/// `GlobSet::is_match`: whether any pattern of the set matches `path`.
#[verifier::external_body]
fn glob_set_matches(set: &GlobSet, path: &str) -> (res: bool)
    ensures
        res == (exists|i: int| 0 <= i < set_patterns(*set).len() && glob_matches(#[trigger] set_patterns(*set)[i], path@)),
{
    set.is_match(path)
}

/// Whether any of `patterns` matches `path`.
pub open spec fn any_matches(patterns: Seq<Seq<char>>, path: Seq<char>) -> bool {
    exists|i: int| 0 <= i < patterns.len() && glob_matches(#[trigger] patterns[i], path)
}

/// What a search does with an entry.
#[derive(Debug, Clone, Copy, PartialEq, Eq)]
pub struct Visit {
    /// Read the entry's directory later.
    pub descend: bool,
    /// Offer the entry to the window.
    pub listed: bool,
}

/// A search's compiled patterns: what it looks for and what it prunes.
pub struct SearchFilter {
    wanted: GlobSet,
    exclude: GlobSet,
}

impl SearchFilter {
    pub closed spec fn spec_wanted(&self) -> Seq<Seq<char>> {
        set_patterns(self.wanted)
    }

    pub closed spec fn spec_exclude(&self) -> Seq<Seq<char>> {
        set_patterns(self.exclude)
    }

    /// Compiles the pattern and the exclusions; the first that is not a glob
    /// is reported.
    pub fn compile(pattern: &str, exclude: &Vec<String>) -> (res: Result<Self, DirectoryError>)
        ensures
            !glob_valid(pattern@) ==> res matches Err(DirectoryError::InvalidPattern(_)),
            res matches Ok(f) ==> f.spec_wanted() == seq![pattern@] && f.spec_exclude() == exclude@.map_values(
                |s: String| s@,
            ),
            glob_valid(pattern@) && (exists|i: int| 0 <= i < exclude@.len() && !glob_valid(#[trigger] exclude@[i]@))
                ==> res matches Err(DirectoryError::InvalidPattern(_)),
            res is Ok <==> glob_valid(pattern@) && (forall|i: int|
                0 <= i < exclude@.len() ==> glob_valid(#[trigger] exclude@[i]@)) && globs_combine(seq![pattern@])
                && globs_combine(exclude@.map_values(|s: String| s@)),
            res is Err ==> res matches Err(DirectoryError::InvalidPattern(_)),
    {
        let mut wanted = glob_set_builder();
        let g = match compile_glob(pattern) {
            Ok(g) => g,
            Err(m) => return Err(DirectoryError::InvalidPattern(m)),
        };
        glob_set_add(&mut wanted, g);
        assert(builder_patterns(wanted) =~= seq![pattern@]);
        let ghost ev = exclude@.map_values(|s: String| s@);
        let mut excluded = glob_set_builder();
        let mut i: usize = 0;
        while i < exclude.len()
            invariant
                0 <= i <= exclude.len(),
                ev == exclude@.map_values(|s: String| s@),
                builder_patterns(excluded) == ev.take(i as int),
                forall|k: int| 0 <= k < i ==> glob_valid(#[trigger] exclude@[k]@),
            decreases exclude.len() - i,
        {
            let g = match compile_glob(&exclude[i]) {
                Ok(g) => g,
                Err(m) => {
                    return Err(DirectoryError::InvalidPattern(m));
                },
            };
            glob_set_add(&mut excluded, g);
            assert(ev.take(i + 1) =~= ev.take(i as int).push(exclude@[i as int]@));
            i = i + 1;
        }
        assert(ev.take(i as int) =~= ev);
        let wanted_set = match glob_set_build(&wanted) {
            Ok(s) => s,
            Err(m) => return Err(DirectoryError::InvalidPattern(m)),
        };
        let exclude_set = match glob_set_build(&excluded) {
            Ok(s) => s,
            Err(m) => return Err(DirectoryError::InvalidPattern(m)),
        };
        Ok(SearchFilter { wanted: wanted_set, exclude: exclude_set })
    }

    /// What to do with the entry at `relative` below the search root: an
    /// excluded entry is dropped and its subtree pruned; any other directory
    /// is descended into; only a match of the pattern is listed.
    pub fn visit(&self, relative: &str, is_dir: bool) -> (res: Visit)
        ensures
            any_matches(self.spec_exclude(), relative@) ==> !res.descend && !res.listed,
            !any_matches(self.spec_exclude(), relative@) ==> res.descend == is_dir && res.listed == any_matches(
                self.spec_wanted(),
                relative@,
            ),
    {
        if glob_set_matches(&self.exclude, relative) {
            return Visit { descend: false, listed: false };
        }
        Visit { descend: is_dir, listed: glob_set_matches(&self.wanted, relative) }
    }
}

/// What is found where a directory is to be created, or at its parent.
#[derive(Debug, Clone, PartialEq, Eq)]
pub enum Presence {
    Missing,
    Directory,
    /// Something that is not a directory.
    Other,
    /// Looking failed for another reason, described.
    Failed(String),
}

/// How a directory is created once nothing is found at its path.
#[derive(Debug, Clone, PartialEq, Eq)]
pub enum CreateStart {
    /// Create it with any missing ancestors.
    CreateAll,
    /// Check that this parent is a directory, then create just the entry.
    CheckParent(String),
}

/// The first step of creating the directory at `entry`: anything already
/// there is a conflict in both modes; a recursive creation creates the
/// ancestors too, a plain one needs its parent to be a directory.
pub fn creation_start(entry: &str, found: Presence, recursive: Option<bool>) -> (res: Result<CreateStart, DirectoryError>)
    ensures
        match found {
            Presence::Missing => if recursive == Some(true) {
                res == Ok::<CreateStart, DirectoryError>(CreateStart::CreateAll)
            } else {
                match crate::path::parent_of(entry@) {
                    Some(p) => res matches Ok(CreateStart::CheckParent(q)) && q@ == p,
                    None => res matches Err(DirectoryError::ParentNotFound(e)) && e@ == entry@,
                }
            },
            Presence::Failed(m) => res == Err::<CreateStart, DirectoryError>(DirectoryError::Io(m)),
            _ => res matches Err(DirectoryError::AlreadyExists(e)) && e@ == entry@,
        },
{
    match found {
        Presence::Missing => {
            if recursive == Some(true) {
                Ok(CreateStart::CreateAll)
            } else {
                match crate::path::parent(entry) {
                    Some(p) => Ok(CreateStart::CheckParent(p)),
                    None => Err(DirectoryError::ParentNotFound(String::from_str(entry))),
                }
            }
        },
        Presence::Failed(m) => Err(DirectoryError::Io(m)),
        _ => Err(DirectoryError::AlreadyExists(String::from_str(entry))),
    }
}

/// A plain creation goes ahead only under a parent that is a directory.
pub fn parent_checked(parent: &str, found: Presence) -> (res: Result<(), DirectoryError>)
    ensures
        match found {
            Presence::Directory => res is Ok,
            Presence::Failed(m) => res == Err::<(), DirectoryError>(DirectoryError::Io(m)),
            _ => res matches Err(DirectoryError::ParentNotFound(p)) && p@ == parent@,
        },
{
    match found {
        Presence::Directory => Ok(()),
        Presence::Failed(m) => Err(DirectoryError::Io(m)),
        _ => Err(DirectoryError::ParentNotFound(String::from_str(parent))),
    }
}

/// `c` leads from the search root down to a directory or entry, one name at
/// a time, and nothing on the way below the root is excluded.
pub open spec fn is_clean_chain(c: Seq<Seq<char>>, exclude: Seq<Seq<char>>) -> bool {
    &&& c.len() > 0
    &&& c[0] == Seq::<char>::empty()
    &&& forall|k: int|
        0 < k < c.len() ==> !any_matches(exclude, #[trigger] c[k]) && exists|n: Seq<char>|
            plain(n) && c[k] == joined(c[k - 1], n)
}

/// The entries of the directory at `dir` that a search lists, in order: each
/// with a plain name whose path is not excluded and matches the pattern.
pub open spec fn listing_hits(dir: Seq<char>, entries: Seq<EntryInfo>, exclude: Seq<Seq<char>>, wanted: Seq<Seq<char>>) -> Seq<
    Seq<char>,
>
    decreases entries.len(),
{
    if entries.len() == 0 {
        Seq::empty()
    } else {
        let prev = listing_hits(dir, entries.drop_last(), exclude, wanted);
        let rel = joined(dir, entries.last().name@);
        if plain(entries.last().name@) && !any_matches(exclude, rel) && any_matches(wanted, rel) {
            prev.push(rel)
        } else {
            prev
        }
    }
}

/// The directories among the entries of `dir` that a search descends into,
/// in order: each a directory, not a symlink, with a plain name whose path is
/// not excluded.
pub open spec fn listing_dirs(dir: Seq<char>, entries: Seq<EntryInfo>, exclude: Seq<Seq<char>>) -> Seq<Seq<char>>
    decreases entries.len(),
{
    if entries.len() == 0 {
        Seq::empty()
    } else {
        let prev = listing_dirs(dir, entries.drop_last(), exclude);
        let rel = joined(dir, entries.last().name@);
        if plain(entries.last().name@) && !any_matches(exclude, rel) && entries.last().is_dir {
            prev.push(rel)
        } else {
            prev
        }
    }
}

/// A search descends only into entries listed as directories: a symbolic
/// link, listed as one, is never entered.
pub proof fn only_directories_are_entered(dir: Seq<char>, entries: Seq<EntryInfo>, exclude: Seq<Seq<char>>)
    ensures
        forall|d: Seq<char>|
            #[trigger] listing_dirs(dir, entries, exclude).contains(d) ==> exists|i: int|
                0 <= i < entries.len() && listed_kind(entries[i].is_dir, entries[i].is_file, entries[i].is_symlink)
                    == Some(ResourceKind::Directory) && joined(dir, entries[i].name@) == d,
    decreases entries.len(),
{
    if entries.len() > 0 {
        let init = entries.drop_last();
        only_directories_are_entered(dir, init, exclude);
        let last = (entries.len() - 1) as int;
        assert forall|d: Seq<char>| #[trigger] listing_dirs(dir, entries, exclude).contains(d) implies exists|i: int|
            0 <= i < entries.len() && listed_kind(entries[i].is_dir, entries[i].is_file, entries[i].is_symlink)
                == Some(ResourceKind::Directory) && joined(dir, entries[i].name@) == d by {
            let prev = listing_dirs(dir, init, exclude);
            if prev.contains(d) {
                let i = choose|i: int|
                    0 <= i < init.len() && listed_kind(init[i].is_dir, init[i].is_file, init[i].is_symlink)
                        == Some(ResourceKind::Directory) && joined(dir, init[i].name@) == d;
                assert(entries[i] == init[i]);
            } else {
                let k = choose|k: int| 0 <= k < listing_dirs(dir, entries, exclude).len()
                    && listing_dirs(dir, entries, exclude)[k] == d;
                assert(k == prev.len());
                assert(entries[last] == entries.last());
            }
        }
    }
}

/// Whether every entry can be listed.
pub open spec fn all_listable(entries: Seq<EntryInfo>) -> bool {
    forall|i: int|
        0 <= i < entries.len() ==> (#[trigger] listed_kind(entries[i].is_dir, entries[i].is_file, entries[i].is_symlink))
            is Some
}

/// A copy of what a directory read told about an entry.
fn copy_info(info: &EntryInfo) -> (res: EntryInfo)
    ensures
        res.name@ == info.name@,
        res.is_dir == info.is_dir,
        res.is_file == info.is_file,
        res.is_symlink == info.is_symlink,
        res.len == info.len,
        res.modified_nanos == info.modified_nanos,
        res.modified_at@ == info.modified_at@,
{
    EntryInfo {
        name: info.name.clone(),
        is_dir: info.is_dir,
        is_file: info.is_file,
        is_symlink: info.is_symlink,
        len: info.len,
        modified_nanos: info.modified_nanos,
        modified_at: info.modified_at.clone(),
    }
}

/// Whether `name` is a plain name: not empty, not `.` or `..`, without a
/// separator.
fn is_plain(name: &str) -> (res: bool)
    ensures
        res == plain(name@),
{
    let chars = crate::text::chars_of(name);
    let n = chars.len();
    if n == 0 {
        return false;
    }
    if n == 1 && chars[0] == '.' {
        assert(name@ =~= crate::path::dot());
        return false;
    }
    if n == 2 && chars[0] == '.' && chars[1] == '.' {
        assert(name@ =~= crate::path::dot_dot());
        return false;
    }
    let mut i: usize = 0;
    while i < n
        invariant
            0 <= i <= n,
            n == chars@.len(),
            chars@ == name@,
            forall|k: int| 0 <= k < i ==> !crate::path::is_sep(#[trigger] name@[k]),
        decreases n - i,
    {
        if chars[i] == '/' {
            assert(crate::path::is_sep(name@[i as int]));
            return false;
        }
        i = i + 1;
    }
    assert(name@ != crate::path::dot()) by {
        if name@ == crate::path::dot() {
            assert(n == 1 && chars@[0] == '.');
        }
    }
    assert(name@ != crate::path::dot_dot()) by {
        if name@ == crate::path::dot_dot() {
            assert(n == 2 && chars@[0] == '.' && chars@[1] == '.');
        }
    }
    true
}

/// A glob search in progress: the directories still to read, the window of
/// matches, and, for the proofs, how each was reached.
pub struct SearchWalk {
    filter: SearchFilter,
    address_root: String,
    dirs: DirWalk,
    window: ListWindow<ResourceEntry>,
    /// The chain of each pending directory, in stack order.
    chains: Ghost<Seq<Seq<Seq<char>>>>,
    /// The path below the root of each match offered to the window.
    found: Ghost<Seq<Seq<char>>>,
    /// The chain of each match offered.
    found_chains: Ghost<Seq<Seq<Seq<char>>>>,
    /// The chain of the directory handed out last, whose listing is due.
    current: Ghost<Option<Seq<Seq<char>>>>,
    /// Every directory queued, the root first.
    discovered: Ghost<Seq<Seq<char>>>,
    /// Every directory whose listing was taken.
    read: Ghost<Seq<Seq<char>>>,
}

impl SearchWalk {
    pub closed spec fn spec_exclude(&self) -> Seq<Seq<char>> {
        self.filter.spec_exclude()
    }

    pub closed spec fn spec_wanted(&self) -> Seq<Seq<char>> {
        self.filter.spec_wanted()
    }

    pub closed spec fn spec_address_root(&self) -> Seq<char> {
        self.address_root@
    }

    pub closed spec fn spec_pending(&self) -> Seq<Seq<char>> {
        self.dirs.spec_pending()
    }

    /// The paths below the root of the matches offered so far, in walk order.
    pub closed spec fn spec_found(&self) -> Seq<Seq<char>> {
        self.found@
    }

    /// The directory whose listing is due, if one was handed out.
    pub closed spec fn spec_current(&self) -> Option<Seq<char>> {
        match self.current@ {
            Some(c) => Some(c.last()),
            None => None,
        }
    }

    pub closed spec fn spec_discovered(&self) -> Seq<Seq<char>> {
        self.discovered@
    }

    pub closed spec fn spec_read(&self) -> Seq<Seq<char>> {
        self.read@
    }

    /// Whether a match past the window was seen, which ends the walk.
    pub closed spec fn spec_full(&self) -> bool {
        self.window.spec_full()
    }

    pub closed spec fn spec_offset(&self) -> nat {
        self.window.spec_offset()
    }

    pub closed spec fn spec_limit(&self) -> nat {
        self.window.spec_limit()
    }

    pub closed spec fn wf(&self) -> bool {
        let ex = self.filter.spec_exclude();
        let pending = self.dirs.spec_pending();
        &&& self.window.wf()
        &&& self.chains@.len() == pending.len()
        &&& forall|i: int|
            0 <= i < pending.len() ==> is_clean_chain(#[trigger] self.chains@[i], ex) && self.chains@[i].last()
                == pending[i]
        &&& self.found@.len() == self.window.spec_seen().len()
        &&& self.found_chains@.len() == self.found@.len()
        &&& forall|j: int|
            0 <= j < self.found@.len() ==> is_clean_chain(#[trigger] self.found_chains@[j], ex)
                && self.found_chains@[j].last() == self.found@[j] && any_matches(
                self.filter.spec_wanted(),
                self.found@[j],
            ) && self.window.spec_seen()[j].path@ == joined(self.address_root@, self.found@[j])
        &&& match self.current@ {
            Some(c) => is_clean_chain(c, ex) && !self.window.spec_full(),
            None => true,
        }
        &&& forall|d: Seq<char>|
            #[trigger] self.discovered@.contains(d) ==> pending.contains(d) || self.read@.contains(d) || (
            self.current@ matches Some(c) && c.last() == d)
    }

    /// A search from the listed root, whose entries are addressed under
    /// `address_root`, keeping the matches from `offset`, at most `limit`.
    pub fn new(filter: SearchFilter, address_root: String, offset: u64, limit: usize) -> (res: Self)
        ensures
            res.wf(),
            res.spec_exclude() == filter.spec_exclude(),
            res.spec_wanted() == filter.spec_wanted(),
            res.spec_address_root() == address_root@,
            res.spec_offset() == offset,
            res.spec_limit() == limit,
            res.spec_pending() == seq![Seq::<char>::empty()],
            res.spec_found() == Seq::<Seq<char>>::empty(),
            res.spec_discovered() == seq![Seq::<char>::empty()],
            res.spec_read() == Seq::<Seq<char>>::empty(),
            res.spec_current() is None,
            !res.spec_full(),
    {
        let ghost root_chain: Seq<Seq<Seq<char>>> = seq![seq![Seq::<char>::empty()]];
        let ghost root_only: Seq<Seq<char>> = seq![Seq::<char>::empty()];
        let res = SearchWalk {
            filter,
            address_root,
            dirs: DirWalk::new(),
            window: ListWindow::new(offset, limit),
            chains: Ghost(root_chain),
            found: Ghost(Seq::empty()),
            found_chains: Ghost(Seq::empty()),
            current: Ghost(None),
            discovered: Ghost(root_only),
            read: Ghost(Seq::empty()),
        };
        assert(res.dirs.spec_pending().contains(Seq::<char>::empty())) by {
            assert(res.dirs.spec_pending()[0] == Seq::<char>::empty());
        }
        res
    }

    /// The next directory to read, below the listed root; none once the
    /// window is full or nothing is left.
    pub fn next_dir(&mut self) -> (res: Option<String>)
        requires
            old(self).wf(),
            old(self).spec_current() is None,
        ensures
            final(self).wf(),
            final(self).spec_exclude() == old(self).spec_exclude(),
            final(self).spec_wanted() == old(self).spec_wanted(),
            final(self).spec_address_root() == old(self).spec_address_root(),
            final(self).spec_offset() == old(self).spec_offset(),
            final(self).spec_limit() == old(self).spec_limit(),
            final(self).spec_found() == old(self).spec_found(),
            final(self).spec_full() == old(self).spec_full(),
            final(self).spec_discovered() == old(self).spec_discovered(),
            final(self).spec_read() == old(self).spec_read(),
            old(self).spec_full() || old(self).spec_pending().len() == 0 ==> res is None && final(self).spec_pending()
                == old(self).spec_pending() && final(self).spec_current() is None,
            !old(self).spec_full() && old(self).spec_pending().len() > 0 ==> (res matches Some(d) && d@
                == old(self).spec_pending().last()) && final(self).spec_pending() == old(self).spec_pending().drop_last()
                && final(self).spec_current() == Some(old(self).spec_pending().last()),
    {
        if self.window.is_full() {
            return None;
        }
        let ghost pending = self.dirs.spec_pending();
        let ghost chains = self.chains@;
        let ghost discovered = self.discovered@;
        let ghost read = self.read@;
        let res = self.dirs.next_dir();
        match &res {
            Some(_) => {
                proof {
                    let last = (pending.len() - 1) as int;
                    self.current@ = Some(chains[last]);
                    self.chains@ = chains.drop_last();
                    assert forall|d: Seq<char>| #[trigger] discovered.contains(d) implies self.dirs.spec_pending().contains(
                        d,
                    ) || read.contains(d) || (self.current@ matches Some(c) && c.last() == d) by {
                        if pending.contains(d) {
                            let i = choose|i: int| 0 <= i < pending.len() && pending[i] == d;
                            if i < last {
                                assert(self.dirs.spec_pending()[i] == d);
                            }
                        }
                    }
                }
            },
            None => {},
        }
        res
    }

    /// Takes the listing of the directory handed out last: each entry is
    /// classified without following links, an excluded one is dropped with
    /// its subtree, any other directory is queued, and a match is offered to
    /// the window until it is full. Names that are not plain cannot come
    /// from a directory and are passed over.
    pub fn take_listing(&mut self, dir: &str, entries: Vec<EntryInfo>) -> (res: Result<(), DirectoryError>)
        requires
            old(self).wf(),
            old(self).spec_current() == Some(dir@),
        ensures
            final(self).spec_current() is None,
            final(self).spec_exclude() == old(self).spec_exclude(),
            final(self).spec_wanted() == old(self).spec_wanted(),
            final(self).spec_address_root() == old(self).spec_address_root(),
            final(self).spec_offset() == old(self).spec_offset(),
            final(self).spec_limit() == old(self).spec_limit(),
            all_listable(entries@) ==> res is Ok,
            res is Err ==> !all_listable(entries@),
            res is Err ==> (res matches Err(DirectoryError::Io(m)) && m@ == "unsupported directory entry type"@),
            res is Ok ==> final(self).wf() && final(self).spec_read() == old(self).spec_read().push(dir@),
            res is Ok && !final(self).spec_full() ==> final(self).spec_found() == old(self).spec_found() + listing_hits(
                dir@,
                entries@,
                old(self).spec_exclude(),
                old(self).spec_wanted(),
            ) && final(self).spec_pending() == old(self).spec_pending() + listing_dirs(
                dir@,
                entries@,
                old(self).spec_exclude(),
            ),
            res is Ok && final(self).spec_full() ==> exists|m: int|
                0 <= m <= entries@.len() && final(self).spec_found() == old(self).spec_found() + listing_hits(
                    dir@,
                    entries@.take(m),
                    old(self).spec_exclude(),
                    old(self).spec_wanted(),
                ),
    {
        let ghost start = *self;
        let ghost ex = self.filter.spec_exclude();
        let ghost want = self.filter.spec_wanted();
        let ghost cur = self.current@->0;
        let ghost ev = entries@;
        proof {
            self.read@ = self.read@.push(dir@);
            self.current@ = None;
            assert forall|d: Seq<char>| #[trigger] self.discovered@.contains(d) implies self.dirs.spec_pending().contains(d)
                || self.read@.contains(d) by {
                if start.read@.contains(d) {
                    let k = choose|k: int| 0 <= k < start.read@.len() && start.read@[k] == d;
                    assert(self.read@[k] == d);
                }
                if d == dir@ {
                    assert(self.read@[start.read@.len() as int] == d);
                }
            }
            assert(ev.take(0) =~= Seq::<EntryInfo>::empty());
            assert(start.dirs.spec_pending() + listing_dirs(dir@, ev.take(0), ex) =~= start.dirs.spec_pending());
            assert(start.discovered@ + listing_dirs(dir@, ev.take(0), ex) =~= start.discovered@);
            assert(start.found@ + listing_hits(dir@, ev.take(0), ex, want) =~= start.found@);
            assert forall|j: int| 0 <= j < self.found@.len() implies is_clean_chain(#[trigger] self.found_chains@[j], ex)
                && self.found_chains@[j].last() == self.found@[j] && any_matches(want, self.found@[j])
                && self.window.spec_seen()[j].path@ == joined(self.address_root@, self.found@[j]) by {
                assert(is_clean_chain(start.found_chains@[j], ex));
            }
        }
        let mut i: usize = 0;
        while i < entries.len()
            invariant
                0 <= i <= entries.len(),
                ev == entries@,
                start.wf(),
                start == *old(self),
                is_clean_chain(cur, ex),
                cur.last() == dir@,
                ex == self.filter.spec_exclude(),
                want == self.filter.spec_wanted(),
                self.filter == start.filter,
                self.address_root == start.address_root,
                self.window.spec_offset() == start.window.spec_offset(),
                self.window.spec_limit() == start.window.spec_limit(),
                self.current@ is None,
                self.read@ == start.read@.push(dir@),
                self.discovered@ == start.discovered@ + listing_dirs(dir@, ev.take(i as int), ex),
                self.window.wf(),
                !self.window.spec_full(),
                self.found@ == start.found@ + listing_hits(dir@, ev.take(i as int), ex, want),
                self.dirs.spec_pending() == start.dirs.spec_pending() + listing_dirs(dir@, ev.take(i as int), ex),
                self.chains@.len() == self.dirs.spec_pending().len(),
                forall|k: int|
                    0 <= k < self.dirs.spec_pending().len() ==> is_clean_chain(#[trigger] self.chains@[k], ex)
                        && self.chains@[k].last() == self.dirs.spec_pending()[k],
                self.found@.len() == self.window.spec_seen().len(),
                self.found_chains@.len() == self.found@.len(),
                forall|j: int|
                    0 <= j < self.found@.len() ==> is_clean_chain(#[trigger] self.found_chains@[j], ex)
                        && self.found_chains@[j].last() == self.found@[j] && any_matches(want, self.found@[j])
                        && self.window.spec_seen()[j].path@ == joined(self.address_root@, self.found@[j]),
                forall|k: int| 0 <= k < i ==> (#[trigger] listed_kind(ev[k].is_dir, ev[k].is_file, ev[k].is_symlink)) is Some,
                forall|d: Seq<char>|
                    #[trigger] self.discovered@.contains(d) ==> self.dirs.spec_pending().contains(d) || self.read@.contains(d),
            decreases entries.len() - i,
        {
            let info = copy_info(&entries[i]);
            assert(ev.take(i + 1).drop_last() =~= ev.take(i as int));
            assert(ev.take(i + 1).last() == ev[i as int]);
            let rel = child_path(dir, info.name.as_str());
            let is_dir = info.is_dir;
            let plain_name = is_plain(info.name.as_str());
            let entry = match resource_entry(info, self.address_root.as_str(), rel.as_str()) {
                Ok(e) => e,
                Err(e) => {
                    proof {
                        self.current@ = None;
                    }
                    return Err(e);
                },
            };
            if plain_name {
                let v = self.filter.visit(rel.as_str(), is_dir);
                let ghost chain = cur.push(rel@);
                let ghost before_disc = self.discovered@;
                if v.descend {
                    proof {
                        assert(is_clean_chain(chain, ex)) by {
                            assert forall|k: int| 0 < k < chain.len() implies !any_matches(ex, #[trigger] chain[k])
                                && exists|n: Seq<char>| plain(n) && chain[k] == joined(chain[k - 1], n) by {
                                if k == chain.len() - 1 {
                                    assert(plain(ev[i as int].name@) && chain[k] == joined(chain[k - 1], ev[i as int].name@));
                                } else {
                                    assert(chain[k] == cur[k]);
                                    assert(chain[k - 1] == cur[k - 1]);
                                }
                            }
                        }
                        self.chains@ = self.chains@.push(chain);
                        self.discovered@ = self.discovered@.push(rel@);
                    }
                    let ghost before_pending = self.dirs.spec_pending();
                    self.dirs.push_dir(rel.clone());
                    proof {
                        assert forall|d: Seq<char>| #[trigger] self.discovered@.contains(d) implies self.dirs.spec_pending().contains(
                            d,
                        ) || self.read@.contains(d) by {
                            if d != rel@ {
                                let m = choose|m: int| 0 <= m < self.discovered@.len() && self.discovered@[m] == d;
                                assert(m < before_disc.len());
                                assert(before_disc[m] == d);
                                assert(before_disc.contains(d));
                                if before_pending.contains(d) {
                                    let k = choose|k: int| 0 <= k < before_pending.len() && before_pending[k] == d;
                                    assert(self.dirs.spec_pending()[k] == d);
                                }
                            } else {
                                assert(self.dirs.spec_pending()[before_pending.len() as int] == d);
                            }
                        }
                    }
                }
                if v.listed {
                    proof {
                        assert(is_clean_chain(chain, ex)) by {
                            assert forall|k: int| 0 < k < chain.len() implies !any_matches(ex, #[trigger] chain[k])
                                && exists|n: Seq<char>| plain(n) && chain[k] == joined(chain[k - 1], n) by {
                                if k == chain.len() - 1 {
                                    assert(plain(ev[i as int].name@) && chain[k] == joined(chain[k - 1], ev[i as int].name@));
                                } else {
                                    assert(chain[k] == cur[k]);
                                    assert(chain[k - 1] == cur[k - 1]);
                                }
                            }
                        }
                        self.found@ = self.found@.push(rel@);
                        self.found_chains@ = self.found_chains@.push(chain);
                    }
                    let more = self.window.offer(entry);
                    if !more {
                        proof {
                            assert(self.found@ == start.found@ + listing_hits(dir@, ev.take(i + 1), ex, want));
                        }
                        return Ok(());
                    }
                }
            }
            i = i + 1;
        }
        assert(ev.take(i as int) =~= ev);
        Ok(())
    }

    /// Whether a match past the window was seen, which ends the walk.
    pub fn is_full(&self) -> (res: bool)
        requires
            self.wf(),
        ensures
            res == self.spec_full(),
    {
        self.window.is_full()
    }

    /// The page of matches and whether any follow. Every entry in it matches
    /// the pattern and was reached through directories none of which, nor
    /// the entry, is excluded; when the window is not full and no directory
    /// is left, every directory found was read.
    pub fn finish(self) -> (res: (Vec<ResourceEntry>, bool))
        requires
            self.wf(),
            self.spec_current() is None,
        ensures
            res.0@.len() == page_of(self.spec_found(), self.spec_offset(), self.spec_limit()).len(),
            res.1 == (self.spec_offset() + self.spec_limit() < self.spec_found().len()),
            forall|i: int|
                0 <= i < res.0@.len() ==> (#[trigger] res.0@[i]).path@ == joined(
                    self.spec_address_root(),
                    page_of(self.spec_found(), self.spec_offset(), self.spec_limit())[i],
                ),
            forall|j: int|
                0 <= j < self.spec_found().len() ==> any_matches(self.spec_wanted(), #[trigger] self.spec_found()[j])
                    && exists|c: Seq<Seq<char>>| is_clean_chain(c, self.spec_exclude()) && c.last() == self.spec_found()[j],
            !self.spec_full() && self.spec_pending().len() == 0 ==> forall|d: Seq<char>|
                #[trigger] self.spec_discovered().contains(d) ==> self.spec_read().contains(d),
    {
        let ghost found = self.found@;
        let ghost seen = self.window.spec_seen();
        let ghost off = self.window.spec_offset();
        let ghost lim = self.window.spec_limit();
        let ghost root = self.address_root@;
        let ghost chains = self.found_chains@;
        proof {
            assert forall|j: int| 0 <= j < found.len() implies any_matches(self.spec_wanted(), #[trigger] found[j])
                && exists|c: Seq<Seq<char>>| is_clean_chain(c, self.spec_exclude()) && c.last() == found[j] by {
                assert(is_clean_chain(chains[j], self.spec_exclude()) && chains[j].last() == found[j]);
            }
        }
        assert(seen.subrange(0, seen.len() as int) =~= seen);
        let res = self.window.finish();
        proof {
            assert(res.0@ == page_of(seen, off, lim));
            let page = page_of(found, off, lim);
            assert forall|i: int| 0 <= i < res.0@.len() implies (#[trigger] res.0@[i]).path@ == joined(
                root,
                page[i],
            ) by {
                assert(res.0@[i] == seen[off + i]);
                assert(page[i] == found[off + i]);
                assert(is_clean_chain(chains[off + i], self.spec_exclude()));
            }
        }
        res
    }
}

/// An entry is listed as what the directory read says it is: a directory
/// as a directory, a regular file as a file, and a symbolic link, which is
/// neither, as a symbolic link; only an entry of none of these kinds is
/// refused.
pub proof fn entries_are_listed_as_what_they_are(is_dir: bool, is_file: bool, is_symlink: bool)
    ensures
        is_dir ==> listed_kind(is_dir, is_file, is_symlink) == Some(ResourceKind::Directory),
        listed_kind(is_dir, is_file, is_symlink) == Some(ResourceKind::Directory) ==> is_dir,
        listed_kind(is_dir, is_file, is_symlink) == Some(ResourceKind::File) ==> is_file,
        listed_kind(is_dir, is_file, is_symlink) == Some(ResourceKind::Symlink) ==> is_symlink,
        !is_dir && !is_file && is_symlink ==> listed_kind(is_dir, is_file, is_symlink) == Some(ResourceKind::Symlink),
        listed_kind(is_dir, is_file, is_symlink) is None <==> !is_dir && !is_file && !is_symlink,
{
}

/// A page holds the items from the offset on, in order, at most `limit` of
/// them, and exactly `limit` when that many are left.
pub proof fn a_page_is_a_window_of_the_items<T>(items: Seq<T>, offset: nat, limit: nat)
    ensures
        page_of(items, offset, limit).len() <= limit,
        offset + limit <= items.len() ==> page_of(items, offset, limit).len() == limit,
        offset < items.len() && items.len() < offset + limit ==> page_of(items, offset, limit).len() == items.len() - offset,
        offset >= items.len() ==> page_of(items, offset, limit).len() == 0,
        forall|k: int| 0 <= k < page_of(items, offset, limit).len() ==> #[trigger] page_of(items, offset, limit)[k]
            == items[offset + k],
{
}

} // verus!

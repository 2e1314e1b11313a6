//! Workspaces: a remote absolute root registered under a caller-chosen id,
//! the boundary every path-bearing operation is confined to.

use vstd::prelude::*;

use crate::text::{
    chars_of, lemma_text_lt_asymmetric, lemma_text_lt_irreflexive, lemma_text_lt_total,
    lemma_text_lt_transitive, string_from_chars, text_eq, text_less, text_lt,
};

verus! {

/// The prefix of the variable a child process reads a workspace root from.
pub open spec fn env_prefix() -> Seq<char> {
    seq!['W', 'O', 'R', 'K', 'S', 'P', 'A', 'C', 'E', '_']
}

fn environment_prefix() -> (res: &'static str)
    ensures
        res@ == env_prefix(),
{
    let prefix = "WORKSPACE_";
    proof {
        reveal_strlit("WORKSPACE_");
    }
    assert(prefix@ =~= env_prefix());
    prefix
}

#[derive(Debug, Clone, PartialEq, Eq)]
pub enum WorkspaceError {
    InvalidId { id: String },
    InvalidRoot { root: String, reason: String },
    AlreadyExists { id: String },
    NotFound { id: String },
    ReadOnly { id: String },
}

/// Whether mutations are allowed.
#[derive(Debug, Clone, Copy, PartialEq, Eq)]
pub enum WorkspaceAccess {
    ReadWrite,
    /// Mutations are rejected; reads are unaffected.
    ReadOnly,
}

impl Default for WorkspaceAccess {
    fn default() -> (res: Self)
        ensures
            res == WorkspaceAccess::ReadWrite,
    {
        WorkspaceAccess::ReadWrite
    }
}

/// Fixed at registration, so a workspace always carries a complete set of
/// effective values.
#[derive(Debug, Clone, Copy, PartialEq, Eq)]
pub struct WorkspaceProperties {
    pub access: WorkspaceAccess,
}

impl Default for WorkspaceProperties {
    fn default() -> (res: Self)
        ensures
            res.access == WorkspaceAccess::ReadWrite,
    {
        WorkspaceProperties { access: WorkspaceAccess::ReadWrite }
    }
}

/// The shared id rule, `[a-z0-9]+(-[a-z0-9]+)*` over the whole text: lower-case
/// letters and digits in runs joined by single hyphens.
pub open spec fn is_id_char(c: char) -> bool {
    ('a' <= c && c <= 'z') || ('0' <= c && c <= '9') || c == '-'
}

pub open spec fn is_valid_id(id: Seq<char>) -> bool {
    &&& id.len() > 0
    &&& forall|i: int| 0 <= i < id.len() ==> is_id_char(#[trigger] id[i])
    &&& id[0] != '-'
    &&& id.last() != '-'
    &&& forall|i: int| 0 <= i < id.len() - 1 ==> !(#[trigger] id[i] == '-' && id[i + 1] == '-')
}

/// Rejects an id outside the shared rule, so a malformed id is reported before
/// it is treated as merely unknown.
pub fn validate_id(id: &str) -> (res: Result<(), WorkspaceError>)
    ensures
        res is Ok <==> is_valid_id(id@),
        res matches Err(e) ==> e is InvalidId && e->InvalidId_id@ == id@,
{
    let chars = chars_of(id);
    let n = chars.len();
    let bad = Err(WorkspaceError::InvalidId { id: string_from_chars(&chars) });
    if n == 0 || chars[0] == '-' || chars[n - 1] == '-' {
        return bad;
    }
    let mut i: usize = 0;
    while i < n
        invariant
            0 <= i <= n,
            n == chars@.len(),
            chars@ == id@,
            bad is Err,
            bad matches Err(e) && e is InvalidId && e->InvalidId_id@ == id@,
            forall|k: int| 0 <= k < i ==> is_id_char(#[trigger] id@[k]),
            forall|k: int| 0 <= k < i && k < n - 1 ==> !(#[trigger] id@[k] == '-' && id@[k + 1] == '-'),
        decreases n - i,
    {
        let c = chars[i];
        if !(('a' <= c && c <= 'z') || ('0' <= c && c <= '9') || c == '-') {
            return bad;
        }
        if c == '-' && i + 1 < n && chars[i + 1] == '-' {
            return bad;
        }
        i = i + 1;
    }
    Ok(())
}

/// ASCII upper-casing, leaving every other character alone.
pub open spec fn ascii_upper(c: char) -> char {
    if 'a' <= c && c <= 'z' {
        ((c as u32) - 32) as char
    } else {
        c
    }
}

/// The character an id character becomes in a variable name.
pub open spec fn env_char(c: char) -> char {
    if c == '-' {
        '_'
    } else {
        ascii_upper(c)
    }
}

/// `WORKSPACE_` followed by the id, upper-cased, with `-` as `_`.
pub open spec fn env_name_of(id: Seq<char>) -> Seq<char> {
    env_prefix() + id.map_values(|c: char| env_char(c))
}

/// Distinct workspace ids publish distinct variables, so a child can tell
/// every workspace's root apart by name.
pub proof fn lemma_env_name_injective(a: Seq<char>, b: Seq<char>)
    requires
        is_valid_id(a),
        is_valid_id(b),
        env_name_of(a) == env_name_of(b),
    ensures
        a == b,
{
    let ea = a.map_values(|c: char| env_char(c));
    let eb = b.map_values(|c: char| env_char(c));
    assert(ea.len() == eb.len()) by {
        assert(env_name_of(a).len() == env_prefix().len() + ea.len());
        assert(env_name_of(b).len() == env_prefix().len() + eb.len());
    }
    assert forall|i: int| 0 <= i < a.len() implies a[i] == b[i] by {
        assert(env_name_of(a)[env_prefix().len() + i] == ea[i]);
        assert(env_name_of(b)[env_prefix().len() + i] == eb[i]);
        assert(is_id_char(a[i]));
        assert(is_id_char(b[i]));
        assert(env_char(a[i]) == env_char(b[i]));
    }
    assert(a =~= b);
}

/// The variable name a workspace's root is published under.
pub fn env_name(id: &str) -> (res: String)
    ensures
        res@ == env_name_of(id@),
{
    let chars = chars_of(id);
    let mut out: Vec<char> = Vec::new();
    let mut i: usize = 0;
    while i < chars.len()
        invariant
            0 <= i <= chars.len(),
            chars@ == id@,
            out@ == id@.take(i as int).map_values(|c: char| env_char(c)),
        decreases chars.len() - i,
    {
        let c = chars[i];
        let mapped = if c == '-' {
            '_'
        } else if 'a' <= c && c <= 'z' {
            let code: u8 = (c as u8) - 32;
            code as char
        } else {
            c
        };
        out.push(mapped);
        i = i + 1;
        assert(out@ =~= id@.take(i as int).map_values(|c: char| env_char(c)));
    }
    assert(id@.take(i as int) =~= id@);
    crate::text::concat(environment_prefix(), string_from_chars(&out).as_str())
}

/// A registered workspace: its id, canonical root and fixed properties.
#[derive(Debug, Clone, PartialEq, Eq)]
pub struct Workspace {
    id: String,
    root: String,
    properties: WorkspaceProperties,
}

pub struct WorkspaceView {
    pub id: Seq<char>,
    pub root: Seq<char>,
    pub properties: WorkspaceProperties,
}

impl View for Workspace {
    type V = WorkspaceView;

    closed spec fn view(&self) -> WorkspaceView {
        WorkspaceView { id: self.id@, root: self.root@, properties: self.properties }
    }
}

/// The public face of a workspace: the root is deliberately absent, keeping the
/// remote absolute path inside the process.
#[derive(Debug, Clone, PartialEq, Eq)]
pub struct WorkspaceHandle {
    id: String,
    properties: WorkspaceProperties,
}

impl WorkspaceHandle {
    pub fn new(id: String, properties: WorkspaceProperties) -> (res: Self)
        ensures
            res.spec_id() == id@,
            res.spec_properties() == properties,
    {
        WorkspaceHandle { id, properties }
    }

    pub closed spec fn spec_id(&self) -> Seq<char> {
        self.id@
    }

    pub closed spec fn spec_properties(&self) -> WorkspaceProperties {
        self.properties
    }

    pub fn id(&self) -> (res: &str)
        ensures
            res@ == self.spec_id(),
    {
        self.id.as_str()
    }

    pub fn properties(&self) -> (res: WorkspaceProperties)
        ensures
            res == self.spec_properties(),
    {
        self.properties
    }
}

/// Every registered workspace, as listed.
#[derive(Debug, Clone, PartialEq, Eq)]
pub struct WorkspaceList {
    pub workspaces: Vec<WorkspaceHandle>,
}

impl WorkspaceList {
    pub fn new(workspaces: Vec<WorkspaceHandle>) -> (res: Self)
        ensures
            res.workspaces@ == workspaces@,
    {
        WorkspaceList { workspaces }
    }
}

impl Workspace {
    pub fn new(id: String, root: String, properties: WorkspaceProperties) -> (res: Self)
        ensures
            res@.id == id@,
            res@.root == root@,
            res@.properties == properties,
    {
        Workspace { id, root, properties }
    }

    /// A read-only workspace that no registry owns, such as the one derived
    /// for a skill's bundled files.
    pub fn managed(id: String, root: String) -> (res: Self)
        ensures
            res@.id == id@,
            res@.root == root@,
            res@.properties.access == WorkspaceAccess::ReadOnly,
    {
        Workspace { id, root, properties: WorkspaceProperties { access: WorkspaceAccess::ReadOnly } }
    }

    pub fn id(&self) -> (res: &str)
        ensures
            res@ == self@.id,
    {
        self.id.as_str()
    }

    pub fn root(&self) -> (res: &str)
        ensures
            res@ == self@.root,
    {
        self.root.as_str()
    }

    pub fn access(&self) -> (res: WorkspaceAccess)
        ensures
            res == self@.properties.access,
    {
        self.properties.access
    }

    /// An equal workspace.
    pub fn duplicate(&self) -> (res: Self)
        ensures
            res@ == self@,
    {
        Workspace { id: self.id.clone(), root: self.root.clone(), properties: self.properties }
    }

    /// The `(name, value)` pair a child process reads the root through.
    pub fn env(&self) -> (res: (String, String))
        ensures
            res.0@ == env_name_of(self@.id),
            res.1@ == self@.root,
    {
        (env_name(self.id.as_str()), self.root.clone())
    }

    pub fn handle(&self) -> (res: WorkspaceHandle)
        ensures
            res.spec_id() == self@.id,
            res.spec_properties() == self@.properties,
    {
        WorkspaceHandle::new(self.id.clone(), self.properties)
    }

    pub fn require_writable(&self) -> (res: Result<(), WorkspaceError>)
        ensures
            res is Ok <==> self@.properties.access == WorkspaceAccess::ReadWrite,
            res matches Err(e) ==> e is ReadOnly && e->ReadOnly_id@ == self@.id,
    {
        match self.properties.access {
            WorkspaceAccess::ReadWrite => Ok(()),
            WorkspaceAccess::ReadOnly => Err(WorkspaceError::ReadOnly { id: self.id.clone() }),
        }
    }
}

/// What the filesystem says of a proposed root.
#[derive(Debug, Clone, PartialEq, Eq)]
pub enum RootCheck {
    /// It does not exist or cannot be read.
    Unreadable,
    NotDirectory,
    /// A directory, canonicalized to this path.
    Canonical(String),
    /// A directory whose canonicalization failed, described.
    CanonicalFailed(String),
}

/// The canonical root of a registration: the path must be absolute, exist,
/// be a directory and canonicalize.
pub fn checked_root(root: &str, check: RootCheck) -> (res: Result<String, WorkspaceError>)
    ensures
        !crate::path::has_root(root@) ==> (res matches Err(WorkspaceError::InvalidRoot { root: r, reason }) && r@ == root@
            && reason@ == "must be an absolute path"@),
        crate::path::has_root(root@) ==> match check {
            RootCheck::Unreadable => res matches Err(WorkspaceError::InvalidRoot { root: r, reason }) && r@ == root@
                && reason@ == "does not exist or is not readable"@,
            RootCheck::NotDirectory => res matches Err(WorkspaceError::InvalidRoot { root: r, reason }) && r@ == root@
                && reason@ == "must be a directory"@,
            RootCheck::Canonical(c) => res == Ok::<String, WorkspaceError>(c),
            RootCheck::CanonicalFailed(m) => res matches Err(WorkspaceError::InvalidRoot { root: r, reason }) && r@
                == root@ && reason == m,
        },
{
    if !crate::path::is_absolute(root) {
        return Err(WorkspaceError::InvalidRoot { root: String::from_str(root), reason: String::from_str("must be an absolute path") });
    }
    match check {
        RootCheck::Unreadable => Err(
            WorkspaceError::InvalidRoot {
                root: String::from_str(root),
                reason: String::from_str("does not exist or is not readable"),
            },
        ),
        RootCheck::NotDirectory => Err(
            WorkspaceError::InvalidRoot { root: String::from_str(root), reason: String::from_str("must be a directory") },
        ),
        RootCheck::Canonical(c) => Ok(c),
        RootCheck::CanonicalFailed(m) => Err(WorkspaceError::InvalidRoot { root: String::from_str(root), reason: m }),
    }
}

/// A root must be a remote absolute path; the filesystem checks that follow
/// (it exists, it is a directory) belong to the caller.
pub fn require_absolute_root(root: &str) -> (res: Result<(), WorkspaceError>)
    ensures
        res is Ok <==> crate::path::has_root(root@),
        res matches Err(e) ==> e is InvalidRoot && e->InvalidRoot_root@ == root@,
{
    if crate::path::is_absolute(root) {
        Ok(())
    } else {
        Err(WorkspaceError::InvalidRoot {
            root: String::from_str(root),
            reason: String::from_str("must be an absolute path"),
        })
    }
}

/// The registered workspaces, kept in id order.
#[derive(Debug)]
pub struct WorkspaceRegistry {
    workspaces: Vec<Workspace>,
}

/// Strictly increasing ids, so no id occurs twice.
pub open spec fn sorted_ids(entries: Seq<WorkspaceView>) -> bool {
    forall|i: int, j: int| 0 <= i < j < entries.len() ==> text_lt(#[trigger] entries[i].id, #[trigger] entries[j].id)
}

pub open spec fn all_valid(entries: Seq<WorkspaceView>) -> bool {
    forall|i: int| 0 <= i < entries.len() ==> is_valid_id(#[trigger] entries[i].id)
}

/// The entry registered under `id`, if any.
pub open spec fn lookup(entries: Seq<WorkspaceView>, id: Seq<char>) -> Option<WorkspaceView> {
    if exists|i: int| 0 <= i < entries.len() && #[trigger] entries[i].id == id {
        Some(entries[choose|i: int| 0 <= i < entries.len() && #[trigger] entries[i].id == id])
    } else {
        None
    }
}

pub proof fn lemma_lookup_at(entries: Seq<WorkspaceView>, i: int)
    requires
        sorted_ids(entries),
        0 <= i < entries.len(),
    ensures
        lookup(entries, entries[i].id) == Some(entries[i]),
{
    let id = entries[i].id;
    assert(entries[i].id == id);
    let j = choose|j: int| 0 <= j < entries.len() && #[trigger] entries[j].id == id;
    if j != i {
        if j < i {
            assert(text_lt(entries[j].id, entries[i].id));
        } else {
            assert(text_lt(entries[i].id, entries[j].id));
        }
        lemma_text_lt_irreflexive(id);
    }
}

/// What a successful registration of `w` does to the entries: `w`'s id was
/// free and now reads back `w`; every other id reads as before.
pub open spec fn registered(before: Seq<WorkspaceView>, after: Seq<WorkspaceView>, w: WorkspaceView) -> bool {
    &&& lookup(before, w.id) is None
    &&& lookup(after, w.id) == Some(w)
    &&& forall|other: Seq<char>| other != w.id ==> #[trigger] lookup(after, other) == lookup(before, other)
}

/// What removing `id` does to the entries: `id` reads as absent; every other
/// id reads as before.
pub open spec fn removed(before: Seq<WorkspaceView>, after: Seq<WorkspaceView>, id: Seq<char>) -> bool {
    &&& lookup(after, id) is None
    &&& forall|other: Seq<char>| other != id ==> #[trigger] lookup(after, other) == lookup(before, other)
}

/// The entries after the first are in order too, and hold every id but the
/// first, each as before.
proof fn lemma_lookup_tail(entries: Seq<WorkspaceView>, x: Seq<char>)
    requires
        sorted_ids(entries),
        entries.len() > 0,
    ensures
        sorted_ids(entries.drop_first()),
        x == entries[0].id ==> lookup(entries.drop_first(), x) is None,
        x != entries[0].id ==> lookup(entries.drop_first(), x) == lookup(entries, x),
{
    let tail = entries.drop_first();
    assert forall|i: int, j: int| 0 <= i < j < tail.len() implies text_lt(#[trigger] tail[i].id, #[trigger] tail[j].id) by {
        assert(tail[i] == entries[i + 1]);
        assert(tail[j] == entries[j + 1]);
    }
    if lookup(tail, x) is Some {
        let k = choose|k: int| 0 <= k < tail.len() && #[trigger] tail[k].id == x;
        assert(tail[k] == entries[k + 1]);
        assert(text_lt(entries[0].id, entries[k + 1].id));
        if x == entries[0].id {
            lemma_text_lt_irreflexive(x);
        }
        lemma_lookup_at(tail, k);
        lemma_lookup_at(entries, k + 1);
    } else if x != entries[0].id && lookup(entries, x) is Some {
        let k = choose|k: int| 0 <= k < entries.len() && #[trigger] entries[k].id == x;
        assert(k != 0);
        assert(tail[k - 1] == entries[k]);
        assert(tail[k - 1].id == x);
    }
}

/// Ordered entries that read the same for every id are the same entries.
pub proof fn lemma_entries_determined_by_lookup(a: Seq<WorkspaceView>, b: Seq<WorkspaceView>)
    requires
        sorted_ids(a),
        sorted_ids(b),
        forall|x: Seq<char>| #[trigger] lookup(a, x) == lookup(b, x),
    ensures
        a == b,
    decreases a.len(),
{
    if a.len() == 0 || b.len() == 0 {
        if a.len() > 0 {
            lemma_lookup_at(a, 0);
            assert(lookup(b, a[0].id) is None);
        }
        if b.len() > 0 {
            lemma_lookup_at(b, 0);
            assert(lookup(a, b[0].id) is None);
        }
        assert(a =~= b);
    } else {
        lemma_lookup_at(a, 0);
        lemma_lookup_at(b, 0);
        let x = a[0].id;
        let y = b[0].id;
        assert(lookup(b, x) == Some(a[0]));
        assert(lookup(a, y) == Some(b[0]));
        let j = choose|j: int| 0 <= j < b.len() && #[trigger] b[j].id == x;
        let i = choose|i: int| 0 <= i < a.len() && #[trigger] a[i].id == y;
        if x != y {
            if j > 0 {
                assert(text_lt(y, x));
            }
            if i > 0 {
                assert(text_lt(x, y));
            }
            if j > 0 && i > 0 {
                lemma_text_lt_asymmetric(x, y);
            }
        }
        assert(x == y);
        assert(a[0] == b[0]);
        assert forall|z: Seq<char>| #[trigger] lookup(a.drop_first(), z) == lookup(b.drop_first(), z) by {
            lemma_lookup_tail(a, z);
            lemma_lookup_tail(b, z);
            assert(lookup(a, z) == lookup(b, z));
        }
        lemma_lookup_tail(a, x);
        lemma_lookup_tail(b, x);
        lemma_entries_determined_by_lookup(a.drop_first(), b.drop_first());
        assert(a =~= seq![a[0]] + a.drop_first());
        assert(b =~= seq![b[0]] + b.drop_first());
    }
}

/// Removing a workspace right after registering it gives back exactly the
/// registry there was before.
pub proof fn lemma_remove_undoes_register(
    before: Seq<WorkspaceView>,
    after_register: Seq<WorkspaceView>,
    after_remove: Seq<WorkspaceView>,
    w: WorkspaceView,
)
    requires
        sorted_ids(before),
        sorted_ids(after_remove),
        registered(before, after_register, w),
        removed(after_register, after_remove, w.id),
    ensures
        after_remove == before,
{
    assert forall|x: Seq<char>| #[trigger] lookup(after_remove, x) == lookup(before, x) by {
        if x != w.id {
            assert(lookup(after_remove, x) == lookup(after_register, x));
        }
    }
    lemma_entries_determined_by_lookup(after_remove, before);
}

impl WorkspaceRegistry {
    #[verifier::type_invariant]
    closed spec fn inv(self) -> bool {
        sorted_ids(self.entries()) && all_valid(self.entries())
    }

    /// The registered workspaces in id order.
    pub closed spec fn entries(self) -> Seq<WorkspaceView> {
        self.workspaces@.map_values(|w: Workspace| w@)
    }

    pub fn new() -> (res: Self)
        ensures
            res.entries() == Seq::<WorkspaceView>::empty(),
            sorted_ids(res.entries()),
    {
        let res = WorkspaceRegistry { workspaces: Vec::new() };
        assert(res.entries() =~= Seq::<WorkspaceView>::empty());
        res
    }

    /// The position of `id`, or where it would be inserted.
    fn position(&self, id: &str) -> (res: (usize, bool))
        ensures
            res.0 <= self.entries().len(),
            forall|k: int| 0 <= k < res.0 ==> text_lt(#[trigger] self.entries()[k].id, id@),
            res.1 ==> res.0 < self.entries().len() && self.entries()[res.0 as int].id == id@,
            !res.1 ==> forall|k: int| res.0 <= k < self.entries().len() ==> text_lt(id@, #[trigger] self.entries()[k].id),
    {
        proof {
            use_type_invariant(self);
        }
        let ghost e = self.entries();
        let mut i: usize = 0;
        while i < self.workspaces.len()
            invariant
                0 <= i <= self.workspaces.len(),
                e == self.entries(),
                e.len() == self.workspaces.len(),
                sorted_ids(e),
                forall|k: int| 0 <= k < i ==> text_lt(#[trigger] e[k].id, id@),
            decreases self.workspaces.len() - i,
        {
            assert(e[i as int] == self.workspaces[i as int]@);
            if !text_less(self.workspaces[i].id.as_str(), id) {
                if text_eq(self.workspaces[i].id.as_str(), id) {
                    return (i, true);
                }
                proof {
                    lemma_text_lt_total(id@, e[i as int].id);
                    assert forall|k: int| i <= k < e.len() implies text_lt(id@, #[trigger] e[k].id) by {
                        if k > i {
                            lemma_text_lt_transitive(id@, e[i as int].id, e[k].id);
                        }
                    }
                }
                return (i, false);
            }
            i = i + 1;
        }
        (i, false)
    }

    /// Rejects an id that is malformed or already taken; a taken id is
    /// reported before the root is inspected.
    pub fn check_available(&self, id: &str) -> (res: Result<(), WorkspaceError>)
        ensures
            res is Ok <==> is_valid_id(id@) && lookup(self.entries(), id@) is None,
            res matches Err(e) ==> (e is InvalidId <==> !is_valid_id(id@)),
            res matches Err(e) ==> (e is AlreadyExists <==> is_valid_id(id@) && lookup(self.entries(), id@) is Some),
            res matches Err(e) ==> (e is InvalidId || e is AlreadyExists),
            res matches Err(WorkspaceError::InvalidId { id: x }) ==> x@ == id@,
            res matches Err(WorkspaceError::AlreadyExists { id: x }) ==> x@ == id@,
    {
        proof {
            use_type_invariant(self);
        }
        validate_id(id)?;
        let (pos, found) = self.position(id);
        if found {
            proof {
                lemma_lookup_at(self.entries(), pos as int);
            }
            return Err(WorkspaceError::AlreadyExists { id: String::from_str(id) });
        }
        proof {
            if lookup(self.entries(), id@) is Some {
                let k = choose|k: int| 0 <= k < self.entries().len() && #[trigger] self.entries()[k].id == id@;
                if k < pos {
                    lemma_text_lt_irreflexive(id@);
                } else {
                    lemma_text_lt_irreflexive(id@);
                }
            }
        }
        Ok(())
    }

    /// Registers `root` under `id` with fixed properties; `root` is the
    /// canonical form of a directory the caller has checked.
    pub fn register(&mut self, id: &str, root: String, properties: WorkspaceProperties) -> (res: Result<
        WorkspaceHandle,
        WorkspaceError,
    >)
        ensures
            res is Ok <==> is_valid_id(id@) && lookup(old(self).entries(), id@) is None,
            res matches Err(e) ==> (e is InvalidId <==> !is_valid_id(id@)),
            res matches Err(e) ==> (e is AlreadyExists <==> is_valid_id(id@) && lookup(old(self).entries(), id@) is Some),
            res matches Err(e) ==> (e is InvalidId || e is AlreadyExists),
            res matches Err(WorkspaceError::InvalidId { id: x }) ==> x@ == id@,
            res matches Err(WorkspaceError::AlreadyExists { id: x }) ==> x@ == id@,
            res is Err ==> final(self).entries() == old(self).entries(),
            res matches Ok(h) ==> h.spec_id() == id@ && h.spec_properties() == properties,
            res is Ok ==> registered(
                old(self).entries(),
                final(self).entries(),
                WorkspaceView { id: id@, root: root@, properties },
            ),
            res is Ok ==> final(self).entries().len() == old(self).entries().len() + 1,
            sorted_ids(final(self).entries()),
    {
        proof {
            use_type_invariant(&*self);
        }
        validate_id(id)?;
        let (pos, found) = self.position(id);
        if found {
            proof {
                lemma_lookup_at(self.entries(), pos as int);
            }
            return Err(WorkspaceError::AlreadyExists { id: String::from_str(id) });
        }
        let ghost old_entries = self.entries();
        proof {
            if lookup(old_entries, id@) is Some {
                let k = choose|k: int| 0 <= k < old_entries.len() && #[trigger] old_entries[k].id == id@;
                lemma_text_lt_irreflexive(id@);
            }
        }
        let workspace = Workspace::new(String::from_str(id), root, properties);
        let handle = workspace.handle();
        let ghost wv = workspace@;
        let mut workspaces: Vec<Workspace> = Vec::new();
        std::mem::swap(&mut workspaces, &mut self.workspaces);
        workspaces.insert(pos, workspace);
        let ghost new_entries = workspaces@.map_values(|w: Workspace| w@);
        assert(new_entries =~= old_entries.insert(pos as int, wv));
        proof {
            assert forall|i: int, j: int| 0 <= i < j < new_entries.len() implies text_lt(
                #[trigger] new_entries[i].id,
                #[trigger] new_entries[j].id,
            ) by {
                if j < pos {
                } else if j == pos {
                } else if i < pos {
                    lemma_text_lt_transitive(new_entries[i].id, id@, new_entries[j].id);
                } else if i == pos {
                } else {
                }
            }
            assert(all_valid(new_entries));
        }
        self.workspaces = workspaces;
        proof {
            lemma_lookup_at(new_entries, pos as int);
            assert forall|other: Seq<char>| other != id@ implies #[trigger] lookup(new_entries, other) == lookup(
                old_entries,
                other,
            ) by {
                if lookup(old_entries, other) is Some {
                    let k = choose|k: int| 0 <= k < old_entries.len() && #[trigger] old_entries[k].id == other;
                    lemma_lookup_at(old_entries, k);
                    if k < pos {
                        assert(new_entries[k] == old_entries[k]);
                        lemma_lookup_at(new_entries, k);
                    } else {
                        assert(new_entries[k + 1] == old_entries[k]);
                        lemma_lookup_at(new_entries, k + 1);
                    }
                } else {
                    if lookup(new_entries, other) is Some {
                        let k = choose|k: int| 0 <= k < new_entries.len() && #[trigger] new_entries[k].id == other;
                        if k < pos {
                            assert(old_entries[k].id == other);
                        } else if k > pos {
                            assert(old_entries[k - 1].id == other);
                        }
                    }
                }
            }
        }
        Ok(handle)
    }

    /// Every workspace's handle, in id order.
    pub fn list(&self) -> (res: Vec<WorkspaceHandle>)
        ensures
            res@.len() == self.entries().len(),
            forall|i: int|
                0 <= i < res@.len() ==> (#[trigger] res@[i]).spec_id() == self.entries()[i].id
                    && res@[i].spec_properties() == self.entries()[i].properties,
            forall|i: int, j: int| 0 <= i < j < res@.len() ==> text_lt(#[trigger] res@[i].spec_id(), #[trigger] res@[j].spec_id()),
    {
        proof {
            use_type_invariant(self);
        }
        let mut out: Vec<WorkspaceHandle> = Vec::new();
        let mut i: usize = 0;
        while i < self.workspaces.len()
            invariant
                0 <= i <= self.workspaces.len(),
                self.entries().len() == self.workspaces.len(),
                out@.len() == i,
                forall|k: int|
                    0 <= k < i ==> (#[trigger] out@[k]).spec_id() == self.entries()[k].id
                        && out@[k].spec_properties() == self.entries()[k].properties,
            decreases self.workspaces.len() - i,
        {
            assert(self.entries()[i as int] == self.workspaces[i as int]@);
            out.push(self.workspaces[i].handle());
            i = i + 1;
        }
        out
    }

    /// Finds the index of `id`, if registered.
    fn find(&self, id: &str) -> (res: Option<usize>)
        ensures
            match lookup(self.entries(), id@) {
                Some(w) => res is Some && res->0 < self.entries().len() && self.entries()[res->0 as int] == w,
                None => res is None,
            },
    {
        proof {
            use_type_invariant(self);
        }
        let (pos, found) = self.position(id);
        if found {
            proof {
                lemma_lookup_at(self.entries(), pos as int);
            }
            Some(pos)
        } else {
            proof {
                if lookup(self.entries(), id@) is Some {
                    let k = choose|k: int| 0 <= k < self.entries().len() && #[trigger] self.entries()[k].id == id@;
                    lemma_text_lt_irreflexive(id@);
                }
            }
            None
        }
    }

    pub fn get(&self, id: &str) -> (res: Result<WorkspaceHandle, WorkspaceError>)
        ensures
            match lookup(self.entries(), id@) {
                Some(w) => res matches Ok(h) && h.spec_id() == w.id && h.spec_properties() == w.properties,
                None => res matches Err(e) && e is NotFound && e->NotFound_id@ == id@,
            },
    {
        match self.find(id) {
            Some(i) => {
                assert(self.entries()[i as int] == self.workspaces[i as int]@);
                Ok(self.workspaces[i].handle())
            },
            None => Err(WorkspaceError::NotFound { id: String::from_str(id) }),
        }
    }

    pub fn workspace(&self, id: &str) -> (res: Result<Workspace, WorkspaceError>)
        ensures
            match lookup(self.entries(), id@) {
                Some(w) => res matches Ok(x) && x@ == w,
                None => res matches Err(e) && e is NotFound && e->NotFound_id@ == id@,
            },
    {
        match self.find(id) {
            Some(i) => {
                assert(self.entries()[i as int] == self.workspaces[i as int]@);
                Ok(self.workspaces[i].duplicate())
            },
            None => Err(WorkspaceError::NotFound { id: String::from_str(id) }),
        }
    }

    /// Every registered workspace's variable, in id order.
    pub fn env(&self) -> (res: Vec<(String, String)>)
        ensures
            res@.len() == self.entries().len(),
            forall|i: int|
                0 <= i < res@.len() ==> (#[trigger] res@[i]).0@ == env_name_of(self.entries()[i].id)
                    && res@[i].1@ == self.entries()[i].root,
    {
        let mut out: Vec<(String, String)> = Vec::new();
        let mut i: usize = 0;
        while i < self.workspaces.len()
            invariant
                0 <= i <= self.workspaces.len(),
                self.entries().len() == self.workspaces.len(),
                out@.len() == i,
                forall|k: int|
                    0 <= k < i ==> (#[trigger] out@[k]).0@ == env_name_of(self.entries()[k].id)
                        && out@[k].1@ == self.entries()[k].root,
            decreases self.workspaces.len() - i,
        {
            assert(self.entries()[i as int] == self.workspaces[i as int]@);
            out.push(self.workspaces[i].env());
            i = i + 1;
        }
        out
    }

    pub fn remove(&mut self, id: &str) -> (res: Result<(), WorkspaceError>)
        ensures
            res is Ok <==> lookup(old(self).entries(), id@) is Some,
            res matches Err(e) ==> e is NotFound && e->NotFound_id@ == id@,
            res is Err ==> final(self).entries() == old(self).entries(),
            removed(old(self).entries(), final(self).entries(), id@),
            sorted_ids(final(self).entries()),
    {
        proof {
            use_type_invariant(&*self);
        }
        let ghost old_entries = self.entries();
        match self.find(id) {
            Some(pos) => {
                let mut workspaces: Vec<Workspace> = Vec::new();
                std::mem::swap(&mut workspaces, &mut self.workspaces);
                workspaces.remove(pos);
                let ghost new_entries = workspaces@.map_values(|w: Workspace| w@);
                assert(new_entries =~= old_entries.remove(pos as int));
                assert(sorted_ids(new_entries)) by {
                    assert forall|i: int, j: int| 0 <= i < j < new_entries.len() implies text_lt(
                        #[trigger] new_entries[i].id,
                        #[trigger] new_entries[j].id,
                    ) by {
                        let oi = if i < pos { i } else { i + 1 };
                        let oj = if j < pos { j } else { j + 1 };
                        assert(new_entries[i] == old_entries[oi]);
                        assert(new_entries[j] == old_entries[oj]);
                    }
                }
                assert(all_valid(new_entries)) by {
                    assert forall|i: int| 0 <= i < new_entries.len() implies is_valid_id(#[trigger] new_entries[i].id) by {
                        let oi = if i < pos { i } else { i + 1 };
                        assert(new_entries[i] == old_entries[oi]);
                    }
                }
                self.workspaces = workspaces;
                proof {
                    if lookup(new_entries, id@) is Some {
                        let k = choose|k: int| 0 <= k < new_entries.len() && #[trigger] new_entries[k].id == id@;
                        let ok = if k < pos { k } else { k + 1 };
                        assert(old_entries[ok].id == id@);
                        if ok < pos {
                            assert(text_lt(old_entries[ok].id, old_entries[pos as int].id));
                        } else {
                            assert(text_lt(old_entries[pos as int].id, old_entries[ok].id));
                        }
                        lemma_text_lt_irreflexive(id@);
                    }
                    assert forall|other: Seq<char>| other != id@ implies #[trigger] lookup(new_entries, other) == lookup(
                        old_entries,
                        other,
                    ) by {
                        if lookup(old_entries, other) is Some {
                            let k = choose|k: int| 0 <= k < old_entries.len() && #[trigger] old_entries[k].id == other;
                            lemma_lookup_at(old_entries, k);
                            if k < pos {
                                assert(new_entries[k] == old_entries[k]);
                                lemma_lookup_at(new_entries, k);
                            } else {
                                assert(k != pos);
                                assert(new_entries[k - 1] == old_entries[k]);
                                lemma_lookup_at(new_entries, k - 1);
                            }
                        } else if lookup(new_entries, other) is Some {
                            let k = choose|k: int| 0 <= k < new_entries.len() && #[trigger] new_entries[k].id == other;
                            let ok = if k < pos { k } else { k + 1 };
                            assert(old_entries[ok].id == other);
                        }
                    }
                }
                Ok(())
            },
            None => Err(WorkspaceError::NotFound { id: String::from_str(id) }),
        }
    }
}

impl Default for WorkspaceRegistry {
    fn default() -> (res: Self)
        ensures
            res.entries() == Seq::<WorkspaceView>::empty(),
    {
        WorkspaceRegistry::new()
    }
}

} // verus!

//! Agent skills: the directories under a mount's `.agents/skills`, each with a
//! `SKILL.md`, and the workspaces derived from them.
//!
//! A skill mounted globally derives the workspace `skill-{skill}`; one
//! mounted in workspace `w` derives `skill-{w}-{skill}`. Resolving a derived
//! id tries the global mount first, then the registered workspaces whose id
//! is a prefix of the rest, longest first.

use vstd::prelude::*;

use crate::ordering::{by_key, sort_by_key, sorted_by_key};
use crate::text::{chars_of, concat, string_from_chars};
use crate::workspace::{is_valid_id, validate_id};

verus! {

/// The longest skill id accepted, in characters.
pub const MAX_SKILL_ID_CHARS: usize = 64;

/// Why a skill request failed.
#[derive(Debug, Clone, PartialEq, Eq)]
pub enum SkillError {
    InvalidSkillId(String),
    InvalidWorkspaceId(String),
    WorkspaceNotFound(String),
    SkillNotFound(String),
    BadRequest(String),
}

pub open spec fn skill_error_message(e: SkillError) -> Seq<char> {
    match e {
        SkillError::InvalidSkillId(id) => "invalid skill id `"@ + id@ + "`"@,
        SkillError::InvalidWorkspaceId(id) => "invalid workspace id `"@ + id@ + "`"@,
        SkillError::WorkspaceNotFound(id) => "workspace `"@ + id@ + "` does not exist"@,
        SkillError::SkillNotFound(id) => "skill `"@ + id@ + "` does not exist"@,
        SkillError::BadRequest(m) => "bad request: "@ + m@,
    }
}

impl SkillError {
    pub fn message(&self) -> (res: String)
        ensures
            res@ == skill_error_message(*self),
    {
        match self {
            SkillError::InvalidSkillId(id) => {
                let a = concat("invalid skill id `", id);
                concat(&a, "`")
            },
            SkillError::InvalidWorkspaceId(id) => {
                let a = concat("invalid workspace id `", id);
                concat(&a, "`")
            },
            SkillError::WorkspaceNotFound(id) => {
                let a = concat("workspace `", id);
                concat(&a, "` does not exist")
            },
            SkillError::SkillNotFound(id) => {
                let a = concat("skill `", id);
                concat(&a, "` does not exist")
            },
            SkillError::BadRequest(m) => concat("bad request: ", m),
        }
    }
}

pub open spec fn is_valid_skill_id(id: Seq<char>) -> bool {
    id.len() <= MAX_SKILL_ID_CHARS && is_valid_id(id)
}

/// A skill id follows the id rule and has at most 64 characters, checked
/// before any lookup so a malformed id is refused rather than not found.
pub fn validate_skill_id(id: &str) -> (res: Result<(), SkillError>)
    ensures
        is_valid_skill_id(id@) ==> res is Ok,
        !is_valid_skill_id(id@) ==> (res matches Err(SkillError::InvalidSkillId(s)) && s@ == id@),
{
    let chars = chars_of(id);
    if chars.len() > MAX_SKILL_ID_CHARS || validate_id(id).is_err() {
        return Err(SkillError::InvalidSkillId(string_from_chars(&chars)));
    }
    Ok(())
}

/// The error a mount request gets for a workspace it cannot use: an unknown
/// workspace is not found; any other failure reads as an invalid id.
pub fn mount_error(id: &str, error: &crate::workspace::WorkspaceError) -> (res: SkillError)
    ensures
        *error is NotFound ==> (res matches SkillError::WorkspaceNotFound(w) && w@ == id@),
        !(*error is NotFound) ==> (res matches SkillError::InvalidWorkspaceId(w) && w@ == id@),
{
    match error {
        crate::workspace::WorkspaceError::NotFound { .. } => SkillError::WorkspaceNotFound(String::from_str(id)),
        _ => SkillError::InvalidWorkspaceId(String::from_str(id)),
    }
}

/// Whether an error reports something missing rather than a bad request.
pub fn is_not_found(error: &SkillError) -> (res: bool)
    ensures
        res == (*error is WorkspaceNotFound || *error is SkillNotFound),
{
    match error {
        SkillError::WorkspaceNotFound(_) | SkillError::SkillNotFound(_) => true,
        _ => false,
    }
}

pub open spec fn derived_id(workspace_id: Option<Seq<char>>, skill_id: Seq<char>) -> Seq<char> {
    match workspace_id {
        Some(w) => "skill-"@ + w + "-"@ + skill_id,
        None => "skill-"@ + skill_id,
    }
}

pub open spec fn opt_str_view(s: Option<&str>) -> Option<Seq<char>> {
    match s {
        Some(v) => Some(v@),
        None => None,
    }
}

/// The id of the workspace a skill derives, which names its mount so the
/// workspace can be found from the id alone.
pub fn derived_workspace_id(workspace_id: Option<&str>, skill_id: &str) -> (res: String)
    ensures
        res@ == derived_id(opt_str_view(workspace_id), skill_id@),
{
    match workspace_id {
        Some(w) => {
            let a = concat("skill-", w);
            let b = concat(&a, "-");
            concat(&b, skill_id)
        },
        None => concat("skill-", skill_id),
    }
}

pub open spec fn skill_uri_of(workspace_id: Option<Seq<char>>, skill_id: Seq<char>) -> Seq<char> {
    match workspace_id {
        Some(w) => "/workspaces/"@ + w + "/skills/"@ + skill_id,
        None => "/skills/"@ + skill_id,
    }
}

/// Where a skill is served.
pub fn skill_uri(workspace_id: Option<&str>, skill_id: &str) -> (res: String)
    ensures
        res@ == skill_uri_of(opt_str_view(workspace_id), skill_id@),
{
    match workspace_id {
        Some(w) => {
            let a = concat("/workspaces/", w);
            let b = concat(&a, "/skills/");
            concat(&b, skill_id)
        },
        None => concat("/skills/", skill_id),
    }
}

/// The range of a listing: from `offset`, clamped to the total, at most
/// `limit` entries.
pub open spec fn page_range(total: nat, offset: Option<u64>, limit: Option<u64>) -> (nat, nat) {
    let start: nat = match offset {
        Some(o) => if (o as nat) < total {
            o as nat
        } else {
            total
        },
        None => 0,
    };
    let end: nat = match limit {
        Some(l) => if start + l < total {
            (start + l) as nat
        } else {
            total
        },
        None => total,
    };
    (start, end)
}

/// The page of `items` a listing request asks for; a zero limit is refused.
pub fn page<T>(items: Vec<T>, offset: Option<u64>, limit: Option<u64>) -> (res: Result<Vec<T>, SkillError>)
    ensures
        limit == Some(0u64) ==> (res matches Err(SkillError::BadRequest(m)) && m@ == "`limit` must be positive"@),
        limit != Some(0u64) ==> (res matches Ok(v) && v@ == items@.subrange(
            page_range(items@.len(), offset, limit).0 as int,
            page_range(items@.len(), offset, limit).1 as int,
        )),
{
    if limit == Some(0u64) {
        return Err(SkillError::BadRequest(String::from_str("`limit` must be positive")));
    }
    let total = items.len();
    let start: usize = match offset {
        Some(o) => if o < total as u64 {
            o as usize
        } else {
            total
        },
        None => 0,
    };
    let end: usize = match limit {
        Some(l) => if l < (total - start) as u64 {
            start + l as usize
        } else {
            total
        },
        None => total,
    };
    let ghost old_items = items@;
    let mut rest = items;
    rest.truncate(end);
    let out = rest.split_off(start);
    assert(out@ =~= old_items.subrange(start as int, end as int));
    Ok(out)
}

/// `s` starts with `prefix`.
pub open spec fn has_prefix(s: Seq<char>, prefix: Seq<char>) -> bool {
    prefix.len() <= s.len() && s.take(prefix.len() as int) == prefix
}

/// `s` without `prefix`, when it starts with it.
pub fn strip_prefix(s: &str, prefix: &str) -> (res: Option<String>)
    ensures
        has_prefix(s@, prefix@) ==> (res matches Some(r) && r@ == s@.skip(prefix@.len() as int)),
        !has_prefix(s@, prefix@) ==> res is None,
{
    let a = chars_of(s);
    let b = chars_of(prefix);
    if b.len() > a.len() {
        return None;
    }
    let mut i: usize = 0;
    while i < b.len()
        invariant
            0 <= i <= b.len() <= a.len(),
            a@ == s@,
            b@ == prefix@,
            forall|k: int| 0 <= k < i ==> a@[k] == b@[k],
        decreases b.len() - i,
    {
        if a[i] != b[i] {
            assert(s@.take(prefix@.len() as int)[i as int] != prefix@[i as int]);
            return None;
        }
        i = i + 1;
    }
    assert(s@.take(prefix@.len() as int) =~= prefix@);
    let mut rest: Vec<char> = Vec::new();
    let mut j: usize = b.len();
    while j < a.len()
        invariant
            b.len() <= j <= a.len(),
            a@ == s@,
            b@ == prefix@,
            rest@ == s@.subrange(prefix@.len() as int, j as int),
        decreases a.len() - j,
    {
        rest.push(a[j]);
        assert(s@.subrange(prefix@.len() as int, j + 1) =~= s@.subrange(prefix@.len() as int, j as int).push(
            s@[j as int],
        ));
        j = j + 1;
    }
    assert(rest@ =~= s@.skip(prefix@.len() as int));
    Some(string_from_chars(&rest))
}

/// `ids` stably ordered by length, longest first: each id goes after every
/// earlier id at least as long.
pub open spec fn longest_first(ids: Seq<Seq<char>>) -> Seq<Seq<char>>
    decreases ids.len(),
{
    if ids.len() == 0 {
        Seq::empty()
    } else {
        insert_by_length(longest_first(ids.drop_last()), ids.last())
    }
}

/// The position in `sorted` before the first id shorter than `x`.
pub open spec fn insertion_point(sorted: Seq<Seq<char>>, x: Seq<char>) -> nat
    decreases sorted.len(),
{
    if sorted.len() == 0 {
        0
    } else if sorted.last().len() >= x.len() {
        sorted.len()
    } else {
        insertion_point(sorted.drop_last(), x)
    }
}

pub open spec fn insert_by_length(sorted: Seq<Seq<char>>, x: Seq<char>) -> Seq<Seq<char>> {
    let p = insertion_point(sorted, x) as int;
    sorted.take(p).push(x) + sorted.skip(p)
}

proof fn lemma_insertion_point_bound(sorted: Seq<Seq<char>>, x: Seq<char>)
    ensures
        insertion_point(sorted, x) <= sorted.len(),
    decreases sorted.len(),
{
    if sorted.len() > 0 && sorted.last().len() < x.len() {
        lemma_insertion_point_bound(sorted.drop_last(), x);
    }
}

/// Where `x` goes among `sorted`: after the last entry at least as long.
fn insertion_index(sorted: &Vec<String>, x: &Vec<char>, lens: &Vec<usize>) -> (res: usize)
    requires
        lens@.len() == sorted@.len(),
        forall|k: int| 0 <= k < lens@.len() ==> lens@[k] == (#[trigger] sorted@[k])@.len(),
    ensures
        res == insertion_point(sorted@.map_values(|s: String| s@), x@),
{
    let ghost sv = sorted@.map_values(|s: String| s@);
    let mut p: usize = sorted.len();
    assert(sv.take(p as int) =~= sv);
    while p > 0 && lens[p - 1] < x.len()
        invariant
            0 <= p <= sorted@.len(),
            sv == sorted@.map_values(|s: String| s@),
            lens@.len() == sorted@.len(),
            forall|k: int| 0 <= k < lens@.len() ==> lens@[k] == (#[trigger] sorted@[k])@.len(),
            insertion_point(sv, x@) == insertion_point(sv.take(p as int), x@),
        decreases p,
    {
        assert(sv.take(p as int).drop_last() =~= sv.take(p - 1));
        assert(sv.take(p as int).last() == sv[p - 1]);
        p = p - 1;
    }
    if p > 0 {
        assert(sv.take(p as int).last() == sv[p - 1]);
    } else {
        assert(sv.take(0) =~= Seq::<Seq<char>>::empty());
    }
    p
}

/// The candidate mounts of a derived workspace id.
#[derive(Debug, Clone, PartialEq, Eq)]
pub struct DerivedCandidates {
    /// The id without `skill-`: the skill id in the global mount.
    pub global_skill: String,
    /// `(workspace, skill)` pairs to try in order, longest workspace id
    /// first.
    pub mounts: Vec<(String, String)>,
}

/// The candidates of `id`, in the order they are tried: none unless `id` is
/// `skill-` and more; then the global mount with the rest as the skill id;
/// then each registered workspace `w`, longest first, where the rest is
/// `w-` and a skill id.
pub open spec fn candidates_of(id: Seq<char>, workspaces: Seq<Seq<char>>) -> Option<(Seq<char>, Seq<(Seq<char>, Seq<char>)>)> {
    if !has_prefix(id, "skill-"@) || id.len() == "skill-"@.len() {
        None
    } else {
        let rest = id.skip("skill-"@.len() as int);
        Some((rest, mount_candidates(rest, longest_first(workspaces))))
    }
}

/// The `(workspace, skill)` pairs that `rest` can be read as, in the order of
/// `workspaces`.
pub open spec fn mount_candidates(rest: Seq<char>, workspaces: Seq<Seq<char>>) -> Seq<(Seq<char>, Seq<char>)>
    decreases workspaces.len(),
{
    if workspaces.len() == 0 {
        Seq::empty()
    } else {
        let prev = mount_candidates(rest, workspaces.drop_last());
        let w = workspaces.last();
        let p = w + "-"@;
        if has_prefix(rest, p) && rest.len() > p.len() {
            prev.push((w, rest.skip(p.len() as int)))
        } else {
            prev
        }
    }
}

pub open spec fn pair_views(v: Seq<(String, String)>) -> Seq<(Seq<char>, Seq<char>)> {
    v.map_values(|p: (String, String)| (p.0@, p.1@))
}

/// Orders workspace ids longest first, keeping equal lengths in their order.
pub fn sort_longest_first(ids: &Vec<String>) -> (res: Vec<String>)
    ensures
        res@.map_values(|s: String| s@) == longest_first(ids@.map_values(|s: String| s@)),
{
    let ghost iv = ids@.map_values(|s: String| s@);
    let mut sorted: Vec<String> = Vec::new();
    let mut lens: Vec<usize> = Vec::new();
    let mut i: usize = 0;
    while i < ids.len()
        invariant
            0 <= i <= ids.len(),
            iv == ids@.map_values(|s: String| s@),
            sorted@.map_values(|s: String| s@) == longest_first(iv.take(i as int)),
            lens@.len() == sorted@.len(),
            forall|k: int| 0 <= k < lens@.len() ==> lens@[k] == (#[trigger] sorted@[k])@.len(),
        decreases ids.len() - i,
    {
        let x = chars_of(&ids[i]);
        let ghost sv = sorted@.map_values(|s: String| s@);
        let p = insertion_index(&sorted, &x, &lens);
        proof {
            lemma_insertion_point_bound(sv, x@);
        }
        let ghost before = sorted@;
        let ghost lens_before = lens@;
        sorted.insert(p, ids[i].clone());
        lens.insert(p, x.len());
        assert(iv.take(i + 1).drop_last() =~= iv.take(i as int));
        assert(iv.take(i + 1).last() == x@);
        assert(sorted@.map_values(|s: String| s@) =~= insert_by_length(sv, x@));
        assert forall|k: int| 0 <= k < lens@.len() implies lens@[k] == (#[trigger] sorted@[k])@.len() by {
            if k < p {
                assert(sorted@[k] == before[k]);
            } else if k > p {
                assert(sorted@[k] == before[k - 1]);
                assert(lens@[k] == lens_before[k - 1]);
            }
        }
        i = i + 1;
    }
    assert(iv.take(i as int) =~= iv);
    sorted
}

/// The mounts a derived workspace id can name, in the order they are tried.
pub fn derived_candidates(id: &str, workspace_ids: &Vec<String>) -> (res: Option<DerivedCandidates>)
    ensures
        match candidates_of(id@, workspace_ids@.map_values(|s: String| s@)) {
            None => res is None,
            Some((rest, mounts)) => res matches Some(c) && c.global_skill@ == rest && pair_views(c.mounts@)
                == mounts,
        },
{
    proof {
        reveal_strlit("skill-");
        reveal_strlit("-");
    }
    let rest = match strip_prefix(id, "skill-") {
        Some(r) => r,
        None => return None,
    };
    if chars_of(&rest).len() == 0 {
        return None;
    }
    let ordered = sort_longest_first(workspace_ids);
    let ghost ov = ordered@.map_values(|s: String| s@);
    let mut mounts: Vec<(String, String)> = Vec::new();
    let mut i: usize = 0;
    while i < ordered.len()
        invariant
            0 <= i <= ordered.len(),
            ov == ordered@.map_values(|s: String| s@),
            pair_views(mounts@) == mount_candidates(rest@, ov.take(i as int)),
        decreases ordered.len() - i,
    {
        assert(ov.take(i + 1).drop_last() =~= ov.take(i as int));
        assert(ov.take(i + 1).last() == ordered@[i as int]@);
        let p = concat(&ordered[i], "-");
        let ghost before = pair_views(mounts@);
        match strip_prefix(&rest, &p) {
            Some(skill) => {
                if chars_of(&skill).len() > 0 {
                    mounts.push((ordered[i].clone(), skill));
                    assert(pair_views(mounts@) =~= before.push((ordered@[i as int]@, rest@.skip(p@.len() as int))));
                }
            },
            None => {},
        }
        i = i + 1;
    }
    assert(ov.take(i as int) =~= ov);
    Some(DerivedCandidates { global_skill: rest, mounts })
}

proof fn lemma_insert_contains(sorted: Seq<Seq<char>>, x: Seq<char>, y: Seq<char>)
    ensures
        insert_by_length(sorted, x).contains(y) <==> (sorted.contains(y) || y == x),
{
    lemma_insertion_point_bound(sorted, x);
    let p = insertion_point(sorted, x) as int;
    let r = insert_by_length(sorted, x);
    assert(r.len() == sorted.len() + 1);
    assert forall|k: int| 0 <= k < r.len() implies r[k] == (if k < p {
        sorted[k]
    } else if k == p {
        x
    } else {
        sorted[k - 1]
    }) by {}
    if sorted.contains(y) {
        let k = choose|k: int| 0 <= k < sorted.len() && sorted[k] == y;
        if k < p {
            assert(r[k] == y);
        } else {
            assert(r[k + 1] == y);
        }
    }
    if y == x {
        assert(r[p] == y);
    }
    if r.contains(y) {
        let k = choose|k: int| 0 <= k < r.len() && r[k] == y;
        if k < p {
            assert(sorted[k] == y);
        } else if k > p {
            assert(sorted[k - 1] == y);
        }
    }
}

/// Ordering by length loses no workspace.
proof fn lemma_longest_first_contains(ids: Seq<Seq<char>>, y: Seq<char>)
    ensures
        longest_first(ids).contains(y) <==> ids.contains(y),
    decreases ids.len(),
{
    if ids.len() > 0 {
        lemma_longest_first_contains(ids.drop_last(), y);
        lemma_insert_contains(longest_first(ids.drop_last()), ids.last(), y);
        if ids.contains(y) && y != ids.last() {
            let k = choose|k: int| 0 <= k < ids.len() && ids[k] == y;
            assert(ids.drop_last()[k] == y);
        }
        if ids.drop_last().contains(y) {
            let k = choose|k: int| 0 <= k < ids.drop_last().len() && ids.drop_last()[k] == y;
            assert(ids[k] == y);
        }
        if y == ids.last() {
            assert(ids[ids.len() - 1] == y);
        }
    }
}

proof fn lemma_mount_candidates_contains(rest: Seq<char>, workspaces: Seq<Seq<char>>, w: Seq<char>, skill: Seq<char>)
    requires
        workspaces.contains(w),
        skill.len() > 0,
        rest == w + "-"@ + skill,
    ensures
        mount_candidates(rest, workspaces).contains((w, skill)),
    decreases workspaces.len(),
{
    let last = workspaces.last();
    let prev = mount_candidates(rest, workspaces.drop_last());
    if last == w {
        let p = w + "-"@;
        assert(rest.take(p.len() as int) =~= p);
        assert(rest.skip(p.len() as int) =~= skill);
        assert(mount_candidates(rest, workspaces) == prev.push((w, skill)));
        assert(prev.push((w, skill))[prev.len() as int] == (w, skill));
    } else {
        let k = choose|k: int| 0 <= k < workspaces.len() && workspaces[k] == w;
        assert(workspaces.drop_last()[k] == w);
        lemma_mount_candidates_contains(rest, workspaces.drop_last(), w, skill);
        let j = choose|j: int| 0 <= j < prev.len() && prev[j] == (w, skill);
        let m = mount_candidates(rest, workspaces);
        assert(m == prev || m == prev.push((last, rest.skip((last + "-"@).len() as int))));
        assert(m[j] == (w, skill));
    }
}

/// A derived workspace id leads back to its skill: the id a global skill
/// derives gives the skill id as the global candidate, and the id a skill of
/// a registered workspace derives lists that workspace and skill among the
/// mounts tried.
pub proof fn lemma_derived_id_names_its_mount(workspace: Option<Seq<char>>, skill: Seq<char>, workspaces: Seq<Seq<char>>)
    requires
        skill.len() > 0,
        workspace matches Some(w) ==> workspaces.contains(w),
    ensures
        candidates_of(derived_id(workspace, skill), workspaces) matches Some((rest, mounts)) && match workspace {
            None => rest == skill,
            Some(w) => mounts.contains((w, skill)),
        },
{
    reveal_strlit("skill-");
    reveal_strlit("-");
    let id = derived_id(workspace, skill);
    let prefix = "skill-"@;
    assert(id.take(prefix.len() as int) =~= prefix);
    let rest = id.skip(prefix.len() as int);
    match workspace {
        None => {
            assert(rest =~= skill);
        },
        Some(w) => {
            assert(rest =~= w + "-"@ + skill);
            lemma_longest_first_contains(workspaces, w);
            lemma_mount_candidates_contains(rest, longest_first(workspaces), w, skill);
        },
    }
}

/// A name that is exactly one ordinary path component, so a lookup by it
/// cannot leave the skills directory.
pub open spec fn plain_name(name: Seq<char>) -> bool {
    &&& name.len() > 0
    &&& name != "."@
    &&& name != ".."@
    &&& !name.contains('/')
    &&& !name.contains('\\')
}

pub fn is_plain_name(name: &str) -> (res: bool)
    ensures
        res == plain_name(name@),
{
    proof {
        reveal_strlit(".");
        reveal_strlit("..");
    }
    let chars = chars_of(name);
    if chars.len() == 0 {
        return false;
    }
    if chars.len() == 1 && chars[0] == '.' {
        assert(name@ =~= "."@);
        return false;
    }
    if chars.len() == 2 && chars[0] == '.' && chars[1] == '.' {
        assert(name@ =~= ".."@);
        return false;
    }
    assert(name@ != "."@ && name@ != ".."@) by {
        if name@ == "."@ {
            assert(name@.len() == 1 && name@[0] == '.');
        }
        if name@ == ".."@ {
            assert(name@.len() == 2 && name@[0] == '.' && name@[1] == '.');
        }
    }
    let mut i: usize = 0;
    while i < chars.len()
        invariant
            0 <= i <= chars.len(),
            chars@ == name@,
            forall|k: int| 0 <= k < i ==> name@[k] != '/' && name@[k] != '\\',
        decreases chars.len() - i,
    {
        if chars[i] == '/' || chars[i] == '\\' {
            assert(name@.contains(chars[i as int]));
            return false;
        }
        i = i + 1;
    }
    true
}

/// What a `SKILL.md` declares: its frontmatter fields and the body after it.
#[derive(Debug, Clone, PartialEq, Eq)]
pub struct SkillDoc {
    pub name: String,
    pub description: String,
    pub license: Option<String>,
    pub compatibility: Option<String>,
    /// The free-form `metadata` pairs, in key order.
    pub metadata: Vec<(String, String)>,
    /// The Markdown after the frontmatter.
    pub body: String,
}

/// The plain content of a [`SkillDoc`].
pub struct SkillDocView {
    pub name: Seq<char>,
    pub description: Seq<char>,
    pub license: Option<Seq<char>>,
    pub compatibility: Option<Seq<char>>,
    pub metadata: Seq<(Seq<char>, Seq<char>)>,
    pub body: Seq<char>,
}

pub open spec fn opt_text(s: Option<String>) -> Option<Seq<char>> {
    match s {
        Some(t) => Some(t@),
        None => None,
    }
}

pub open spec fn doc_view(d: SkillDoc) -> SkillDocView {
    SkillDocView {
        name: d.name@,
        description: d.description@,
        license: opt_text(d.license),
        compatibility: opt_text(d.compatibility),
        metadata: pair_views(d.metadata@),
        body: d.body@,
    }
}

/// What agent-plugins makes of the `SKILL.md` bytes of the skill directory
/// `directory`: the document, or `None` when the file is not a valid skill.
pub uninterp spec fn skill_md(directory: Seq<char>, bytes: Seq<u8>) -> Option<SkillDocView>;

/// Calls `agent_plugins::parse_skill_md(directory, bytes)` and copies the
/// fields of the result out; which files parse, and to what, is named.
#[verifier::external_body]
fn parse_skill(directory: &str, bytes: &[u8]) -> (res: Option<SkillDoc>)
    ensures
        match res {
            Some(d) => skill_md(directory@, bytes@) == Some(doc_view(d)),
            None => skill_md(directory@, bytes@) is None,
        },
{
    match agent_plugins::parse_skill_md(directory, bytes) {
        Ok((meta, body)) => Some(SkillDoc {
            name: meta.name,
            description: meta.description,
            license: meta.license,
            compatibility: meta.compatibility,
            metadata: meta.metadata.into_iter().collect(),
            body: body.source().to_owned(),
        }),
        Err(_) => None,
    }
}

/// One child of a skills directory, as the filesystem shows it.
#[derive(Debug, Clone, PartialEq, Eq)]
pub struct SkillEntry {
    /// The child's name, which is the skill's id.
    pub name: String,
    /// Whether it is a directory; a symbolic link is not followed, so it is not one.
    pub is_dir: bool,
    /// The bytes of its `SKILL.md`, when they could be read.
    pub bytes: Option<Vec<u8>>,
    /// Its canonical path, when canonicalizing succeeded.
    pub root: Option<String>,
}

/// A discovered skill: its canonical root and its document.
#[derive(Debug, Clone, PartialEq, Eq)]
pub struct FoundSkill {
    pub root: String,
    pub doc: SkillDoc,
}

/// The skills among `entries`, in their order: each directory whose
/// `SKILL.md` was read and parses and whose root is known.
pub open spec fn found_skills(
    entries: Seq<SkillEntry>,
) -> Seq<(Seq<char>, Seq<char>, SkillDocView)>
    decreases entries.len(),
{
    if entries.len() == 0 {
        Seq::empty()
    } else {
        let prev = found_skills(entries.drop_last());
        let e = entries.last();
        match (e.bytes, e.root) {
            (Some(b), Some(r)) => if e.is_dir && skill_md(e.name@, b@) is Some {
                prev.push((e.name@, r@, skill_md(e.name@, b@)->0))
            } else {
                prev
            },
            _ => prev,
        }
    }
}

pub open spec fn found_views(found: Seq<(String, FoundSkill)>) -> Seq<(Seq<char>, Seq<char>, SkillDocView)> {
    found.map_values(|f: (String, FoundSkill)| (f.0@, f.1.root@, doc_view(f.1.doc)))
}

/// The skills of a mount, by id: every child that is a directory with a
/// `SKILL.md` that parses, and whose root is known; a missing or unreadable
/// file or an invalid skill is skipped rather than an error.
pub fn discover(entries: Vec<SkillEntry>) -> (res: Vec<(String, FoundSkill)>)
    ensures
        sorted_by_key(res@),
        exists|kept: Seq<(String, FoundSkill)>|
            found_views(kept) == found_skills(entries@) && res@ == #[trigger] by_key(kept),
{
    let mut kept: Vec<(String, FoundSkill)> = Vec::new();
    let mut i: usize = 0;
    while i < entries.len()
        invariant
            0 <= i <= entries.len(),
            found_views(kept@) == found_skills(entries@.take(i as int)),
        decreases entries.len() - i,
    {
        let e = &entries[i];
        assert(entries@.take(i + 1).drop_last() =~= entries@.take(i as int));
        assert(entries@.take(i + 1).last() == entries@[i as int]);
        if e.is_dir {
            match (&e.bytes, &e.root) {
                (Some(b), Some(r)) => {
                    match parse_skill(e.name.as_str(), b.as_slice()) {
                        Some(doc) => {
                            let ghost before = found_views(kept@);
                            kept.push((e.name.clone(), FoundSkill { root: r.clone(), doc }));
                            assert(found_views(kept@) =~= before.push(
                                (entries@[i as int].name@, r@, skill_md(entries@[i as int].name@, b@)->0),
                            ));
                        },
                        None => {},
                    }
                },
                _ => {},
            }
        }
        i = i + 1;
    }
    assert(entries@.take(i as int) =~= entries@);
    let ghost kv = kept@;
    let res = sort_by_key(kept);
    assert(found_views(kv) == found_skills(entries@) && res@ == by_key(kv));
    res
}

/// A page starts at the offset, or at the start when none is given, and never
/// past the end; it holds at most `limit` items, exactly `limit` when that
/// many are left, and every item left when no limit is given.
pub proof fn a_page_respects_its_offset_and_limit(total: nat, offset: Option<u64>, limit: Option<u64>)
    ensures
        ({
            let (start, end) = page_range(total, offset, limit);
            let from: nat = match offset {
                Some(o) => o as nat,
                None => 0,
            };
            &&& start <= end <= total
            &&& start == if from < total { from } else { total }
            &&& limit matches Some(l) ==> end - start <= l
            &&& limit matches Some(l) ==> (start + l <= total ==> end - start == l)
            &&& limit matches Some(l) ==> (start + l > total ==> end == total)
            &&& limit is None ==> end == total
        }),
{
}

} // verus!

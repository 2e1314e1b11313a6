//! Reading file content: a range of lines, cut either by the rope's line
//! breaks (`GET` on a file) or by `str::lines` (the `lines` operation).

use ropey::Rope;

use vstd::prelude::*;

use crate::api::{has_dot_or_root, has_nul, validate_path, AppError};
use crate::path::{components, has_root, path_starts_with, starts_with};
use crate::read_window::text_lines;
use crate::target::TargetFile;
use crate::text::{chars_of, concat};
use crate::workspace::{lookup, WorkspaceRegistry};

verus! {

#[verifier::external_type_specification]
#[verifier::external_body]
pub struct ExRope(Rope);

/// The text a rope holds.
pub uninterp spec fn rope_text(r: Rope) -> Seq<char>;

/// A character that ends a line: LF, VT, FF, CR, NEL, LINE SEPARATOR and
/// PARAGRAPH SEPARATOR.
pub open spec fn is_line_break(c: char) -> bool {
    c == '\n' || c == '\u{b}' || c == '\u{c}' || c == '\r' || c == '\u{85}' || c == '\u{2028}' || c == '\u{2029}'
}

/// Whether a line ends right after `s[i]`; a CR followed by LF ends its line
/// only after the LF.
pub open spec fn ends_line_at(s: Seq<char>, i: int) -> bool {
    is_line_break(s[i]) && !(s[i] == '\r' && i + 1 < s.len() && s[i + 1] == '\n')
}

/// The char indices where lines start among the first `n` chars of `s`: the
/// start, and the position after every line break.
pub open spec fn starts_upto(s: Seq<char>, n: nat) -> Seq<nat>
    decreases n,
{
    if n == 0 {
        seq![0nat]
    } else if ends_line_at(s, n - 1) {
        starts_upto(s, (n - 1) as nat).push(n)
    } else {
        starts_upto(s, (n - 1) as nat)
    }
}

/// Where each line of `s` starts.
pub open spec fn line_starts(s: Seq<char>) -> Seq<nat> {
    starts_upto(s, s.len())
}

/// The char index where line `line` starts; one past the last line is the
/// end of the text.
pub open spec fn line_char(s: Seq<char>, line: nat) -> nat {
    if line < line_starts(s).len() {
        line_starts(s)[line as int]
    } else {
        s.len()
    }
}

/// `Rope::from_str`: a rope holding `text`.
#[verifier::external_body]
fn rope_from_str(text: &str) -> (res: Rope)
    ensures
        rope_text(res) == text@,
{
    Rope::from_str(text)
}

/// `Rope::len_lines`: the number of lines, one more than the number of line
/// breaks.
#[verifier::external_body]
fn rope_len_lines(rope: &Rope) -> (res: usize)
    ensures
        res == line_starts(rope_text(*rope)).len(),
{
    rope.len_lines()
}

/// `Rope::line_to_char`: where line `line` starts; `len_lines` gives the end.
#[verifier::external_body]
fn rope_line_to_char(rope: &Rope, line: usize) -> (res: usize)
    requires
        line <= line_starts(rope_text(*rope)).len(),
    ensures
        res == line_char(rope_text(*rope), line as nat),
{
    rope.line_to_char(line)
}

/// `Rope::slice(start..end).to_string()`: the chars from `start` to `end`.
#[verifier::external_body]
fn rope_slice_string(rope: &Rope, start: usize, end: usize) -> (res: String)
    requires
        start <= end <= rope_text(*rope).len(),
    ensures
        res@ == rope_text(*rope).subrange(start as int, end as int),
{
    rope.slice(start..end).to_string()
}

proof fn lemma_starts_upto_shape(s: Seq<char>, n: nat)
    requires
        n <= s.len(),
    ensures
        starts_upto(s, n).len() >= 1,
        starts_upto(s, n)[0] == 0,
        forall|i: int, j: int| 0 <= i < j < starts_upto(s, n).len() ==> starts_upto(s, n)[i] < starts_upto(s, n)[j],
        forall|i: int| 0 <= i < starts_upto(s, n).len() ==> starts_upto(s, n)[i] <= n,
    decreases n,
{
    if n > 0 {
        lemma_starts_upto_shape(s, (n - 1) as nat);
    }
}

/// The range of a read: lines from `offset`, at most `limit` of them.
#[derive(Debug, Clone, Copy, PartialEq, Eq)]
pub struct ReadFileRequest {
    pub offset: usize,
    pub limit: Option<usize>,
}

/// The line range a read covers among `n` lines.
pub open spec fn line_range(n: nat, offset: nat, limit: Option<usize>) -> (nat, nat) {
    let start = if offset < n {
        offset
    } else {
        n
    };
    let end = match limit {
        Some(l) => if start + l < n {
            (start + l) as nat
        } else {
            n
        },
        None => n,
    };
    (start, end)
}

/// The text of the lines a read covers, line breaks included.
pub open spec fn window_text(s: Seq<char>, offset: nat, limit: Option<usize>) -> Seq<char> {
    let (start, end) = line_range(line_starts(s).len(), offset, limit);
    s.subrange(line_char(s, start) as int, line_char(s, end) as int)
}

/// The lines `request` covers, line breaks included.
pub fn read_lines(content: &str, request: ReadFileRequest) -> (res: String)
    ensures
        res@ == window_text(content@, request.offset as nat, request.limit),
{
    let rope = rope_from_str(content);
    let n = rope_len_lines(&rope);
    let start = if request.offset < n {
        request.offset
    } else {
        n
    };
    let end = match request.limit {
        Some(l) => if l < n - start {
            start + l
        } else {
            n
        },
        None => n,
    };
    let from = rope_line_to_char(&rope, start);
    let to = rope_line_to_char(&rope, end);
    proof {
        let s = content@;
        lemma_starts_upto_shape(s, s.len());
        if start < n && end < n && start < end {
            assert(line_starts(s)[start as int] < line_starts(s)[end as int]);
        }
    }
    rope_slice_string(&rope, from, to)
}

/// Why reading a file failed.
#[derive(Debug, Clone, PartialEq, Eq)]
pub enum ReadFileError {
    NotFound(String),
    InvalidFile(String),
    /// The filesystem failed; the text describes it.
    Io(String),
}

/// The checks on a canonical read target: it must not be a directory, and in
/// a workspace it must stay under the workspace's canonical root.
pub fn check_read_target(canonical: &str, is_dir: bool, canonical_root: Option<&str>) -> (res: Result<(), ReadFileError>)
    ensures
        is_dir ==> (res matches Err(ReadFileError::InvalidFile(m)) && m@ == "read target is a directory"@),
        !is_dir ==> match canonical_root {
            Some(root) => if path_starts_with(canonical@, root@) {
                res is Ok
            } else {
                res matches Err(ReadFileError::InvalidFile(m)) && m@ == "path escapes workspace"@
            },
            None => res is Ok,
        },
{
    if is_dir {
        return Err(ReadFileError::InvalidFile(String::from_str("read target is a directory")));
    }
    match canonical_root {
        Some(root) => {
            if !starts_with(canonical, root) {
                return Err(ReadFileError::InvalidFile(String::from_str("path escapes workspace")));
            }
            Ok(())
        },
        None => Ok(()),
    }
}

/// The API error a failed read is reported as.
pub fn read_error_response(error: ReadFileError) -> (res: AppError)
    ensures
        match error {
            ReadFileError::NotFound(p) => res == AppError::NotFound(p),
            ReadFileError::InvalidFile(m) => res == AppError::BadRequest(m),
            ReadFileError::Io(m) => res == AppError::Internal(m),
        },
{
    match error {
        ReadFileError::NotFound(p) => AppError::NotFound(p),
        ReadFileError::InvalidFile(m) => AppError::BadRequest(m),
        ReadFileError::Io(m) => AppError::Internal(m),
    }
}

/// The range a query asks for: from `offset`, the first line when absent;
/// each must fit the platform's indices.
pub fn read_range(offset: Option<u64>, limit: Option<u64>) -> (res: Result<ReadFileRequest, AppError>)
    ensures
        match (offset, limit) {
            (Some(o), _) if o > usize::MAX => res matches Err(AppError::BadRequest(m)) && m@ == "offset is too large"@,
            (_, Some(l)) if l > usize::MAX && !(offset matches Some(o) && o > usize::MAX) => res matches Err(
                AppError::BadRequest(m),
            ) && m@ == "limit is too large"@,
            _ => res matches Ok(r) && r.offset == match offset {
                Some(o) => o as usize,
                None => 0usize,
            } && r.limit == match limit {
                Some(l) => Some(l as usize),
                None => None::<usize>,
            },
        },
{
    let o: usize = match offset {
        Some(o) => {
            if o > usize::MAX as u64 {
                return Err(AppError::BadRequest(String::from_str("offset is too large")));
            }
            o as usize
        },
        None => 0,
    };
    let l: Option<usize> = match limit {
        Some(l) => {
            if l > usize::MAX as u64 {
                return Err(AppError::BadRequest(String::from_str("limit is too large")));
            }
            Some(l as usize)
        },
        None => None,
    };
    Ok(ReadFileRequest { offset: o, limit: l })
}

/// A path a file route accepts: relative, without NUL, and normalized.
pub open spec fn valid_file_path(s: Seq<char>) -> bool {
    !has_nul(s) && !has_root(s) && !has_dot_or_root(components(s))
}

/// The target a file route names: a normalized relative path, inside the
/// workspace when the route names one, else under the filesystem root.
pub fn file_target(registry: &WorkspaceRegistry, workspace_id: Option<&str>, raw_path: &str) -> (res: Result<
    TargetFile,
    AppError,
>)
    ensures
        !valid_file_path(raw_path@) ==> res matches Err(AppError::BadRequest(_)),
        valid_file_path(raw_path@) && raw_path@.len() == 0 ==> (res matches Err(AppError::BadRequest(m)) && m@
            == "file path must not be empty"@),
        valid_file_path(raw_path@) && raw_path@.len() > 0 ==> match workspace_id {
            Some(id) => match lookup(registry.entries(), id@) {
                Some(w) => res matches Ok(TargetFile::Workspace { workspace, relative_path }) && workspace@ == w
                    && relative_path@ == raw_path@,
                None => res is Err,
            },
            None => res matches Ok(TargetFile::Absolute(p)) && p@ == seq!['/'] + raw_path@,
        },
{
    let path = match validate_path(raw_path) {
        Ok(p) => p,
        Err(e) => return Err(e),
    };
    if chars_of(&path).len() == 0 {
        return Err(AppError::BadRequest(String::from_str("file path must not be empty")));
    }
    match workspace_id {
        Some(id) => match TargetFile::workspace(registry, id, path) {
            Ok(t) => Ok(t),
            Err(e) => Err(AppError::from_workspace_error(e)),
        },
        None => {
            let full = concat("/", &path);
            proof {
                reveal_strlit("/");
            }
            Ok(TargetFile::Absolute(full))
        },
    }
}

/// The response of the `lines` operation.
#[derive(Debug, Clone, PartialEq, Eq)]
pub struct LinesResponse {
    pub lines: Vec<String>,
    /// Where the page starts, after clamping to the number of lines.
    pub offset: u64,
    /// Whether lines follow the page.
    pub truncated: bool,
}

/// Lines returned by the `lines` operation when the request names no limit.
pub const DEFAULT_LINES: u64 = 1000;

/// The page of lines a `lines` request covers among `n` lines.
pub open spec fn lines_page(n: nat, offset: Option<u64>, limit: nat) -> (nat, nat) {
    let start: nat = match offset {
        Some(o) => if (o as nat) < n {
            o as nat
        } else {
            n
        },
        None => 0,
    };
    let end: nat = if start + limit < n {
        (start + limit) as nat
    } else {
        n
    };
    (start, end)
}

pub open spec fn string_views(v: Seq<String>) -> Seq<Seq<char>> {
    v.map_values(|s: String| s@)
}

/// The `lines` operation on a file's text: a zero limit is refused, the
/// offset is clamped to the number of lines.
pub fn lines_of_text(content: &str, offset: Option<u64>, limit: Option<u64>) -> (res: Result<LinesResponse, AppError>)
    ensures
        limit == Some(0u64) ==> (res matches Err(AppError::BadRequest(m)) && m@ == "`limit` must be positive"@),
        limit != Some(0u64) ==> (res matches Ok(r) && {
            let lines = text_lines(content@);
            let l: nat = match limit {
                Some(l) => l as nat,
                None => DEFAULT_LINES as nat,
            };
            let (start, end) = lines_page(lines.len(), offset, l);
            &&& string_views(r.lines@) == lines.subrange(start as int, end as int)
            &&& r.offset == start
            &&& r.truncated == (end < lines.len())
        }),
{
    let limit: u64 = match limit {
        Some(l) => l,
        None => DEFAULT_LINES,
    };
    if limit == 0 {
        return Err(AppError::BadRequest(String::from_str("`limit` must be positive")));
    }
    let source = crate::read_window::split_lines(content);
    let total = source.len();
    let start: usize = match offset {
        Some(o) => if o < total as u64 {
            o as usize
        } else {
            total
        },
        None => 0,
    };
    let end: usize = if limit < (total - start) as u64 {
        start + limit as usize
    } else {
        total
    };
    let ghost all = source@;
    let mut rest = source;
    rest.truncate(end);
    let page = rest.split_off(start);
    assert(page@ =~= all.subrange(start as int, end as int));
    assert(string_views(page@) =~= string_views(all).subrange(start as int, end as int));
    Ok(LinesResponse { lines: page, offset: start as u64, truncated: end < total })
}

} // verus!

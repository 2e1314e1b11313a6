//! `fs/readFile`: a window of lines from a UTF-8 text file.
//!
//! Lines are what a buffered line reader yields: the text between `\n`
//! characters, with one `\r` before the `\n` dropped, and a last line only
//! when something follows the final `\n`. Offsets are zero-based; line
//! numbers are one-based, as editors show them.
//!
//! [`LineWindow`] consumes lines one at a time and stops as soon as the
//! answer is known, so a reader holds the window and never the whole file.

use vstd::prelude::*;

use crate::path::{has_root, is_absolute};
use crate::text::concat;

verus! {

/// Lines returned when the request names no limit.
pub const DEFAULT_LIMIT: usize = 2000;

/// Parameters of a read.
#[derive(Debug, Clone, PartialEq, Eq)]
pub struct ReadFileParams {
    /// Absolute path of the text file.
    pub path: String,
    /// Zero-based index of the first line; the first line when absent.
    pub offset: Option<usize>,
    /// Most lines to return; [`DEFAULT_LIMIT`] when absent.
    pub limit: Option<usize>,
}

/// One line of a text file.
#[derive(Debug, Clone, PartialEq, Eq)]
pub struct TextLine {
    /// One-based line number.
    pub number: usize,
    /// The line without its line ending.
    pub text: String,
}

/// The lines of the requested window, in file order.
#[derive(Debug, Clone, PartialEq, Eq)]
pub struct ReadFileResult {
    /// The path that was read, echoed back.
    pub path: String,
    pub lines: Vec<TextLine>,
    /// Whether the file has lines beyond the window.
    pub truncated: bool,
    /// Where the next window starts, present exactly when `truncated`.
    pub next_offset: Option<usize>,
}

/// Why a read failed.
#[derive(Debug, Clone, PartialEq, Eq)]
pub enum ReadFileError {
    /// The path was not absolute.
    RelativePath(String),
    /// `limit` was present but zero.
    ZeroLimit,
    /// No file exists at the path.
    NotFound(String),
    /// The path exists but is not a regular file.
    NotAFile(String),
    /// Reading failed; the text describes the failure.
    Io(String),
}

/// The broad class of an operation error, shared by both transports.
#[derive(Debug, Clone, Copy, PartialEq, Eq)]
pub enum ErrorKind {
    /// The request was malformed or names something that cannot be handled.
    Invalid,
    /// The requested resource does not exist.
    NotFound,
    /// The server failed on a valid request.
    Internal,
}

pub open spec fn kind_status(kind: ErrorKind) -> u16 {
    match kind {
        ErrorKind::Invalid => 400,
        ErrorKind::NotFound => 404,
        ErrorKind::Internal => 500,
    }
}

impl ErrorKind {
    /// The HTTP status of the class.
    pub fn status(self) -> (res: u16)
        ensures
            res == kind_status(self),
    {
        match self {
            ErrorKind::Invalid => 400,
            ErrorKind::NotFound => 404,
            ErrorKind::Internal => 500,
        }
    }
}

pub open spec fn read_error_kind(e: ReadFileError) -> ErrorKind {
    match e {
        ReadFileError::RelativePath(_) | ReadFileError::ZeroLimit | ReadFileError::NotAFile(_) => ErrorKind::Invalid,
        ReadFileError::NotFound(_) => ErrorKind::NotFound,
        ReadFileError::Io(_) => ErrorKind::Internal,
    }
}

pub open spec fn read_error_message(e: ReadFileError) -> Seq<char> {
    match e {
        ReadFileError::RelativePath(p) => "path must be absolute: "@ + p@,
        ReadFileError::ZeroLimit => "limit must be at least 1"@,
        ReadFileError::NotFound(p) => "file not found: "@ + p@,
        ReadFileError::NotAFile(p) => "not a regular file: "@ + p@,
        ReadFileError::Io(m) => "failed to read file: "@ + m@,
    }
}

impl ReadFileError {
    pub fn kind(&self) -> (res: ErrorKind)
        ensures
            res == read_error_kind(*self),
    {
        match self {
            ReadFileError::RelativePath(_) | ReadFileError::ZeroLimit | ReadFileError::NotAFile(_) => ErrorKind::Invalid,
            ReadFileError::NotFound(_) => ErrorKind::NotFound,
            ReadFileError::Io(_) => ErrorKind::Internal,
        }
    }

    /// The text a client sees.
    pub fn message(&self) -> (res: String)
        ensures
            res@ == read_error_message(*self),
    {
        match self {
            ReadFileError::RelativePath(p) => concat("path must be absolute: ", p),
            ReadFileError::ZeroLimit => String::from_str("limit must be at least 1"),
            ReadFileError::NotFound(p) => concat("file not found: ", p),
            ReadFileError::NotAFile(p) => concat("not a regular file: ", p),
            ReadFileError::Io(m) => concat("failed to read file: ", m),
        }
    }
}

/// A line with its trailing `\r`, if any, removed.
pub open spec fn strip_cr(l: Seq<char>) -> Seq<char> {
    if l.len() > 0 && l.last() == '\r' {
        l.drop_last()
    } else {
        l
    }
}

/// Reading `s` line by line: the lines completed so far and the text after
/// the last `\n`.
pub open spec fn line_state(s: Seq<char>) -> (Seq<Seq<char>>, Seq<char>)
    decreases s.len(),
{
    if s.len() == 0 {
        (Seq::empty(), Seq::empty())
    } else {
        let (done, cur) = line_state(s.drop_last());
        if s.last() == '\n' {
            (done.push(strip_cr(cur)), Seq::empty())
        } else {
            (done, cur.push(s.last()))
        }
    }
}

/// The lines of `s`.
pub open spec fn text_lines(s: Seq<char>) -> Seq<Seq<char>> {
    let (done, cur) = line_state(s);
    if cur.len() == 0 {
        done
    } else {
        done.push(cur)
    }
}

/// Where the window over `len` lines ends.
pub open spec fn window_end(len: nat, offset: nat, limit: nat) -> nat {
    if offset + limit < len {
        offset + limit
    } else {
        len
    }
}

/// The lines of the window starting at `offset`, at most `limit` of them.
pub open spec fn window_lines(lines: Seq<Seq<char>>, offset: nat, limit: nat) -> Seq<Seq<char>> {
    if offset >= lines.len() {
        Seq::empty()
    } else {
        lines.subrange(offset as int, window_end(lines.len(), offset, limit) as int)
    }
}

/// Whether lines follow the window.
pub open spec fn window_truncated(len: nat, offset: nat, limit: nat) -> bool {
    offset + limit < len
}

/// `res` is the window of `lines` read from `path`.
pub open spec fn is_window(res: ReadFileResult, path: Seq<char>, lines: Seq<Seq<char>>, offset: nat, limit: nat) -> bool {
    let w = window_lines(lines, offset, limit);
    &&& res.path@ == path
    &&& res.lines@.len() == w.len()
    &&& forall|i: int|
        0 <= i < w.len() ==> (#[trigger] res.lines@[i]).number == offset + i + 1 && res.lines@[i].text@ == w[i]
    &&& res.truncated == window_truncated(lines.len(), offset, limit)
    &&& res.next_offset == if res.truncated {
        Some((offset + limit) as usize)
    } else {
        None::<usize>
    }
}

/// The views of a vector of strings.
pub open spec fn views(v: Seq<String>) -> Seq<Seq<char>> {
    v.map_values(|s: String| s@)
}

/// A truncated window is continued by the window at its `next_offset`: the
/// two read back to back are the window of both limits together.
pub proof fn lemma_next_window_continues(lines: Seq<Seq<char>>, offset: nat, limit: nat, next_limit: nat)
    requires
        limit >= 1,
        window_truncated(lines.len(), offset, limit),
    ensures
        window_lines(lines, offset, limit) + window_lines(lines, offset + limit, next_limit) == window_lines(
            lines,
            offset,
            limit + next_limit,
        ),
{
    let a = window_lines(lines, offset, limit);
    let b = window_lines(lines, offset + limit, next_limit);
    let c = window_lines(lines, offset, limit + next_limit);
    assert(a == lines.subrange(offset as int, (offset + limit) as int));
    assert(a + b =~= c);
}

/// The validated offset and limit of a read.
#[derive(Debug, Clone, Copy, PartialEq, Eq)]
pub struct WindowPlan {
    pub offset: usize,
    pub limit: usize,
}

pub open spec fn plan_of(params: ReadFileParams) -> Result<WindowPlan, ReadFileError> {
    if !has_root(params.path@) {
        Err(ReadFileError::RelativePath(params.path))
    } else if params.limit == Some(0usize) {
        Err(ReadFileError::ZeroLimit)
    } else {
        Ok(
            WindowPlan {
                offset: match params.offset {
                    Some(o) => o,
                    None => 0,
                },
                limit: match params.limit {
                    Some(l) => l,
                    None => DEFAULT_LIMIT,
                },
            },
        )
    }
}

/// What opening the requested path gave.
#[derive(Debug, Clone, PartialEq, Eq)]
pub enum OpenOutcome {
    /// Nothing exists at the path.
    Missing,
    /// Opening failed for another reason, described.
    Failed(String),
    /// It opened; whether it is a regular file.
    Opened { is_file: bool },
}

/// After the plan: a missing path is not found, a failure to open is an I/O
/// error, and only a regular file is read.
pub fn opened_file(path: &str, outcome: OpenOutcome) -> (res: Result<(), ReadFileError>)
    ensures
        match outcome {
            OpenOutcome::Missing => res matches Err(ReadFileError::NotFound(p)) && p@ == path@,
            OpenOutcome::Failed(m) => res == Err::<(), ReadFileError>(ReadFileError::Io(m)),
            OpenOutcome::Opened { is_file } => if is_file {
                res is Ok
            } else {
                res matches Err(ReadFileError::NotAFile(p)) && p@ == path@
            },
        },
{
    match outcome {
        OpenOutcome::Missing => Err(ReadFileError::NotFound(String::from_str(path))),
        OpenOutcome::Failed(m) => Err(ReadFileError::Io(m)),
        OpenOutcome::Opened { is_file } => {
            if is_file {
                Ok(())
            } else {
                Err(ReadFileError::NotAFile(String::from_str(path)))
            }
        },
    }
}

/// Checks the request before any file is opened: the path must be absolute
/// and a given limit at least one.
pub fn read_plan(params: &ReadFileParams) -> (res: Result<WindowPlan, ReadFileError>)
    ensures
        res == plan_of(*params),
        res matches Ok(p) ==> p.limit >= 1,
{
    if !is_absolute(&params.path) {
        return Err(ReadFileError::RelativePath(params.path.clone()));
    }
    let offset = match params.offset {
        Some(o) => o,
        None => 0,
    };
    let limit = match params.limit {
        Some(l) => l,
        None => DEFAULT_LIMIT,
    };
    if limit == 0 {
        return Err(ReadFileError::ZeroLimit);
    }
    Ok(WindowPlan { offset, limit })
}

/// Where a [`LineWindow`] stands.
#[derive(Debug, Clone, Copy, PartialEq, Eq, Structural)]
enum Phase {
    /// Passing over the lines before the window.
    Skipping,
    /// Keeping the lines of the window.
    Collecting,
    /// The window is full; one more line tells whether the file goes on.
    Probing,
    /// The answer is known.
    Done,
}

/// The window of a read, built from the file's lines as they are read.
pub struct LineWindow {
    offset: usize,
    limit: usize,
    skipped: usize,
    window: Vec<TextLine>,
    phase: Phase,
    truncated: bool,
    /// The lines fed so far.
    fed: Ghost<Seq<Seq<char>>>,
    /// Whether the end of the file was fed.
    ended: Ghost<bool>,
}

impl LineWindow {
    pub closed spec fn spec_offset(&self) -> nat {
        self.offset as nat
    }

    pub closed spec fn spec_limit(&self) -> nat {
        self.limit as nat
    }

    /// The lines fed so far.
    pub closed spec fn spec_fed(&self) -> Seq<Seq<char>> {
        self.fed@
    }

    /// Whether the end of the file was fed.
    pub closed spec fn spec_ended(&self) -> bool {
        self.ended@
    }

    pub closed spec fn spec_done(&self) -> bool {
        self.phase == Phase::Done
    }

    /// The lines kept so far are those of the fed lines from `offset` on.
    closed spec fn kept(&self) -> bool {
        &&& self.window@.len() <= self.limit
        &&& self.window@.len() > 0 ==> self.offset + self.window@.len() <= self.fed@.len()
        &&& forall|i: int|
            0 <= i < self.window@.len() ==> (#[trigger] self.window@[i]).number == self.offset + i + 1
                && self.window@[i].text@ == self.fed@[self.offset + i]
    }

    pub closed spec fn wf(&self) -> bool {
        &&& self.limit >= 1
        &&& self.fed@.len() <= usize::MAX
        &&& self.kept()
        &&& match self.phase {
            Phase::Skipping => {
                &&& self.skipped < self.offset
                &&& self.fed@.len() == self.skipped
                &&& self.window@.len() == 0
                &&& !self.ended@
            },
            Phase::Collecting => {
                &&& self.fed@.len() == self.offset + self.window@.len()
                &&& self.window@.len() < self.limit
                &&& !self.ended@
            },
            Phase::Probing => {
                &&& self.fed@.len() == self.offset + self.limit
                &&& self.window@.len() == self.limit
                &&& !self.ended@
            },
            Phase::Done => if self.truncated {
                &&& self.fed@.len() == self.offset + self.limit + 1
                &&& self.window@.len() == self.limit
                &&& !self.ended@
            } else {
                &&& self.ended@
                &&& self.fed@.len() <= self.offset + self.limit
                &&& self.window@.len() == window_lines(self.fed@, self.offset as nat, self.limit as nat).len()
            },
        }
    }

    /// `all` is consistent with what was fed: it starts with the fed lines,
    /// and is exactly them once the end was fed.
    pub open spec fn consistent(&self, all: Seq<Seq<char>>) -> bool {
        &&& self.spec_fed().len() <= all.len()
        &&& all.subrange(0, self.spec_fed().len() as int) == self.spec_fed()
        &&& self.spec_ended() ==> all == self.spec_fed()
    }

    /// Starts a window of at most `limit` lines from `offset`.
    pub fn new(offset: usize, limit: usize) -> (res: Self)
        requires
            limit >= 1,
        ensures
            res.wf(),
            res.spec_offset() == offset,
            res.spec_limit() == limit,
            res.spec_fed() == Seq::<Seq<char>>::empty(),
            !res.spec_ended(),
            !res.spec_done(),
    {
        LineWindow {
            offset,
            limit,
            skipped: 0,
            window: Vec::new(),
            phase: if offset == 0 {
                Phase::Collecting
            } else {
                Phase::Skipping
            },
            truncated: false,
            fed: Ghost(Seq::empty()),
            ended: Ghost(false),
        }
    }

    /// Whether more lines are wanted.
    pub fn wants_more(&self) -> (res: bool)
        ensures
            res == !self.spec_done(),
    {
        self.phase != Phase::Done
    }

    /// Feeds the next line, or the end of the file as `None`.
    pub fn feed(&mut self, line: Option<String>)
        requires
            old(self).wf(),
            !old(self).spec_done(),
            line is Some ==> old(self).spec_fed().len() < usize::MAX,
        ensures
            final(self).wf(),
            final(self).spec_offset() == old(self).spec_offset(),
            final(self).spec_limit() == old(self).spec_limit(),
            match line {
                Some(t) => final(self).spec_fed() == old(self).spec_fed().push(t@) && !final(self).spec_ended(),
                None => final(self).spec_fed() == old(self).spec_fed() && final(self).spec_ended()
                    && final(self).spec_done(),
            },
    {
        let ghost before = self.fed@;
        match line {
            None => {
                proof {
                    self.ended@ = true;
                }
                let ghost len = self.fed@.len();
                assert(window_lines(self.fed@, self.offset as nat, self.limit as nat).len() == self.window@.len()) by {
                    if self.offset >= len {
                    } else {
                        assert(window_end(len, self.offset as nat, self.limit as nat) == len);
                    }
                }
                self.truncated = false;
                self.phase = Phase::Done;
            },
            Some(text) => {
                proof {
                    self.fed@ = self.fed@.push(text@);
                }
                match self.phase {
                    Phase::Skipping => {
                        self.skipped = self.skipped + 1;
                        if self.skipped == self.offset {
                            self.phase = Phase::Collecting;
                        }
                    },
                    Phase::Collecting => {
                        let number = self.offset + self.window.len() + 1;
                        self.window.push(TextLine { number, text });
                        if self.window.len() == self.limit {
                            self.phase = Phase::Probing;
                        }
                    },
                    _ => {
                        self.truncated = true;
                        self.phase = Phase::Done;
                    },
                }
                assert(forall|i: int| 0 <= i < before.len() ==> self.fed@[i] == before[i]);
            },
        }
    }

    /// The window, once the answer is known. It is the window of every file
    /// whose lines are consistent with what was fed.
    pub fn finish(self, path: String) -> (res: ReadFileResult)
        requires
            self.wf(),
            self.spec_done(),
        ensures
            forall|all: Seq<Seq<char>>|
                self.consistent(all) ==> is_window(res, path@, all, self.spec_offset(), self.spec_limit()),
    {
        let ghost fed = self.fed@;
        let ghost offset = self.offset as nat;
        let ghost limit = self.limit as nat;
        let ghost window = self.window@;
        let truncated = self.truncated;
        let next_offset = if truncated {
            Some(self.offset + self.limit)
        } else {
            None
        };
        let res = ReadFileResult { path, lines: self.window, truncated, next_offset };
        assert forall|all: Seq<Seq<char>>| self.consistent(all) implies is_window(res, path@, all, offset, limit) by {
            assert(all.subrange(0, fed.len() as int) == fed);
            let w = window_lines(all, offset, limit);
            if truncated {
                assert(offset + limit < all.len());
                assert(w == all.subrange(offset as int, (offset + limit) as int));
                assert forall|i: int| 0 <= i < w.len() implies (#[trigger] res.lines@[i]).number == offset + i + 1
                    && res.lines@[i].text@ == w[i] by {
                    assert(all[offset + i] == all.subrange(0, fed.len() as int)[offset + i]);
                }
            } else {
                assert(all == fed);
                if offset < all.len() {
                    assert forall|i: int| 0 <= i < w.len() implies (#[trigger] res.lines@[i]).number == offset + i
                        + 1 && res.lines@[i].text@ == w[i] by {
                    }
                }
            }
        }
        res
    }
}

/// The window of `lines` that `params` asks for.
pub fn read_window(params: &ReadFileParams, lines: &Vec<String>) -> (res: Result<ReadFileResult, ReadFileError>)
    ensures
        match plan_of(*params) {
            Err(e) => res == Err::<ReadFileResult, ReadFileError>(e),
            Ok(p) => res matches Ok(r) && is_window(r, params.path@, views(lines@), p.offset as nat, p.limit as nat),
        },
{
    let plan = match read_plan(params) {
        Ok(p) => p,
        Err(e) => return Err(e),
    };
    let ghost all = views(lines@);
    let mut window = LineWindow::new(plan.offset, plan.limit);
    let mut i: usize = 0;
    while i < lines.len() && window.wants_more()
        invariant
            0 <= i <= lines.len(),
            all == views(lines@),
            window.wf(),
            window.spec_offset() == plan.offset,
            window.spec_limit() == plan.limit,
            window.spec_fed() == all.take(i as int),
            !window.spec_ended(),
        decreases lines.len() - i,
    {
        window.feed(Some(lines[i].clone()));
        assert(all.take(i as int).push(lines@[i as int]@) =~= all.take(i + 1));
        i = i + 1;
    }
    if window.wants_more() {
        assert(all.take(i as int) =~= all);
        window.feed(None);
    }
    assert(window.consistent(all)) by {
        assert(all.subrange(0, window.spec_fed().len() as int) =~= window.spec_fed());
    }
    Ok(window.finish(params.path.clone()))
}

/// Whether `c` ends a line.
fn is_newline(c: char) -> (res: bool)
    ensures
        res == (c == '\n'),
{
    c == '\n'
}

/// The lines of `text`.
pub fn split_lines(text: &str) -> (res: Vec<String>)
    ensures
        views(res@) == text_lines(text@),
{
    let chars = crate::text::chars_of(text);
    let mut done: Vec<String> = Vec::new();
    let mut cur: Vec<char> = Vec::new();
    let mut i: usize = 0;
    while i < chars.len()
        invariant
            0 <= i <= chars.len(),
            chars@ == text@,
            views(done@) == line_state(text@.take(i as int)).0,
            cur@ == line_state(text@.take(i as int)).1,
        decreases chars.len() - i,
    {
        assert(text@.take(i + 1).drop_last() =~= text@.take(i as int));
        assert(text@.take(i + 1).last() == text@[i as int]);
        let c = chars[i];
        if is_newline(c) {
            if cur.len() > 0 && cur[cur.len() - 1] == '\r' {
                cur.pop();
            }
            let ghost old_done = views(done@);
            done.push(crate::text::string_from_chars(&cur));
            assert(views(done@) =~= old_done.push(cur@));
            cur = Vec::new();
        } else {
            cur.push(c);
        }
        i = i + 1;
    }
    assert(text@.take(i as int) =~= text@);
    if cur.len() > 0 {
        let ghost old_done = views(done@);
        done.push(crate::text::string_from_chars(&cur));
        assert(views(done@) =~= old_done.push(cur@));
    }
    done
}

/// The window of the lines of `text` that `params` asks for.
pub fn read_text(params: &ReadFileParams, text: &str) -> (res: Result<ReadFileResult, ReadFileError>)
    ensures
        match plan_of(*params) {
            Err(e) => res == Err::<ReadFileResult, ReadFileError>(e),
            Ok(p) => res matches Ok(r) && is_window(r, params.path@, text_lines(text@), p.offset as nat, p.limit as nat),
        },
{
    let lines = split_lines(text);
    read_window(params, &lines)
}

} // verus!

//! `process/exec` and `process/shell`: what to run, and what a finished run
//! reports.
//!
//! A run's output is returned inline up to `limit` bytes. Larger output is
//! spilled to a file whose path the result carries, and the inline text is a
//! preview: standard output first, then standard error, `limit` bytes in all.

use std::collections::BTreeMap;

use vstd::prelude::*;
use vstd::utf8::{decode_utf8, valid_utf8};

use crate::path::{has_root, is_absolute};
use crate::read_window::ErrorKind;
use crate::text::{concat, is_blank, is_blank_text};

verus! {

/// Output bytes returned inline when the request names no limit.
pub const DEFAULT_MAX_OUTPUT: usize = 65536;

pub open spec fn default_shell() -> Seq<char> {
    "sh"@
}

/// The shell a script runs in when the request names none.
pub fn default_shell_name() -> (res: &'static str)
    ensures
        res@ == default_shell(),
{
    "sh"
}

/// Parameters of `process/exec`.
#[derive(Debug, Clone, PartialEq, Eq)]
pub struct ExecParams {
    /// The executable; a bare name is looked up on `PATH`.
    pub command: String,
    /// Arguments, in order; none when absent.
    pub args: Option<Vec<String>>,
    /// Absolute working directory; the server's own when absent.
    pub cwd: Option<String>,
    /// Variables set on top of the server's environment.
    pub env: Option<BTreeMap<String, String>>,
    /// Most output bytes returned inline; [`DEFAULT_MAX_OUTPUT`] when absent.
    pub limit: Option<usize>,
}

/// Parameters of `process/shell`.
#[derive(Debug, Clone, PartialEq, Eq)]
pub struct ShellParams {
    /// The script, passed to the shell with `-c`.
    pub script: String,
    pub cwd: Option<String>,
    pub env: Option<BTreeMap<String, String>>,
    /// The shell; `sh` when absent.
    pub shell: Option<String>,
    pub limit: Option<usize>,
}

/// What a finished run reports.
#[derive(Debug, Clone, PartialEq, Eq)]
pub struct ExecResult {
    /// The exit status, absent when a signal ended the run.
    pub exit_code: Option<i32>,
    pub stdout: String,
    pub stderr: String,
    /// Whether the output went over the limit and was spilled.
    pub truncated: bool,
    /// The file holding the whole output, standard output then standard
    /// error; present only when `truncated`.
    pub output_path: Option<String>,
}

/// Why a run failed.
#[derive(Debug, Clone, PartialEq, Eq)]
pub enum ExecError {
    EmptyCommand,
    EmptyScript,
    EmptyShell,
    /// `cwd` was present but not absolute.
    RelativeCwd(String),
    ZeroLimit,
    /// The command could not be started.
    Spawn { command: String, source: String },
    /// Output could not be captured or spilled.
    Io(String),
}

pub open spec fn exec_error_kind(e: ExecError) -> ErrorKind {
    match e {
        ExecError::Io(_) => ErrorKind::Internal,
        _ => ErrorKind::Invalid,
    }
}

pub open spec fn exec_error_message(e: ExecError) -> Seq<char> {
    match e {
        ExecError::EmptyCommand => "command must not be empty"@,
        ExecError::EmptyScript => "script must not be empty"@,
        ExecError::EmptyShell => "shell must not be empty"@,
        ExecError::RelativeCwd(p) => "cwd must be absolute: "@ + p@,
        ExecError::ZeroLimit => "limit must be at least 1"@,
        ExecError::Spawn { command, source } => "failed to run `"@ + command@ + "`: "@ + source@,
        ExecError::Io(m) => "failed to capture command output: "@ + m@,
    }
}

impl ExecError {
    /// A command or directory that cannot be started is the caller's fault;
    /// only a failure to capture output is the server's.
    pub fn kind(&self) -> (res: ErrorKind)
        ensures
            res == exec_error_kind(*self),
    {
        match self {
            ExecError::Io(_) => ErrorKind::Internal,
            _ => ErrorKind::Invalid,
        }
    }

    /// The text a client sees.
    pub fn message(&self) -> (res: String)
        ensures
            res@ == exec_error_message(*self),
    {
        match self {
            ExecError::EmptyCommand => String::from_str("command must not be empty"),
            ExecError::EmptyScript => String::from_str("script must not be empty"),
            ExecError::EmptyShell => String::from_str("shell must not be empty"),
            ExecError::RelativeCwd(p) => concat("cwd must be absolute: ", p),
            ExecError::ZeroLimit => String::from_str("limit must be at least 1"),
            ExecError::Spawn { command, source } => {
                let head = concat("failed to run `", command);
                let mid = concat(&head, "`: ");
                concat(&mid, source)
            },
            ExecError::Io(m) => concat("failed to capture command output: ", m),
        }
    }
}

pub open spec fn cwd_check(cwd: Option<Seq<char>>) -> bool {
    match cwd {
        Some(c) => has_root(c),
        None => true,
    }
}

/// A given working directory must be absolute; it is handed back unchanged.
pub fn validated_cwd(cwd: Option<&str>) -> (res: Result<Option<&str>, ExecError>)
    ensures
        match cwd {
            Some(c) => if has_root(c@) {
                res == Ok::<Option<&str>, ExecError>(Some(c))
            } else {
                res matches Err(ExecError::RelativeCwd(p)) && p@ == c@
            },
            None => res == Ok::<Option<&str>, ExecError>(None),
        },
{
    match cwd {
        Some(c) => {
            if !is_absolute(c) {
                return Err(ExecError::RelativeCwd(String::from_str(c)));
            }
            Ok(Some(c))
        },
        None => Ok(None),
    }
}

pub open spec fn limit_of(limit: Option<usize>) -> usize {
    match limit {
        Some(l) => l,
        None => DEFAULT_MAX_OUTPUT,
    }
}

/// The inline limit, [`DEFAULT_MAX_OUTPUT`] when absent; zero is refused.
pub fn validated_limit(limit: Option<usize>) -> (res: Result<usize, ExecError>)
    ensures
        limit_of(limit) == 0 ==> res == Err::<usize, ExecError>(ExecError::ZeroLimit),
        limit_of(limit) != 0 ==> res == Ok::<usize, ExecError>(limit_of(limit)),
{
    let l = match limit {
        Some(l) => l,
        None => DEFAULT_MAX_OUTPUT,
    };
    if l == 0 {
        return Err(ExecError::ZeroLimit);
    }
    Ok(l)
}

/// What to start, after the request was checked.
#[derive(Debug, Clone, PartialEq, Eq)]
pub struct CommandPlan {
    pub program: String,
    pub args: Vec<String>,
    pub cwd: Option<String>,
    pub limit: usize,
}

pub open spec fn opt_view(s: Option<String>) -> Option<Seq<char>> {
    match s {
        Some(v) => Some(v@),
        None => None,
    }
}

/// The views of a vector of strings.
pub open spec fn string_views(v: Seq<String>) -> Seq<Seq<char>> {
    v.map_values(|s: String| s@)
}

/// The first problem of an exec request, in the order they are checked.
pub open spec fn exec_problem(p: ExecParams) -> Option<ExecError> {
    if is_blank_text(p.command@) {
        Some(ExecError::EmptyCommand)
    } else if !cwd_check(opt_view(p.cwd)) {
        Some(ExecError::RelativeCwd(p.cwd->0))
    } else if limit_of(p.limit) == 0 {
        Some(ExecError::ZeroLimit)
    } else {
        None
    }
}

fn clone_cwd(cwd: &Option<String>) -> (res: Option<String>)
    ensures
        res == *cwd,
{
    match cwd {
        Some(c) => Some(c.clone()),
        None => None,
    }
}

/// Checks an exec request and says what to start: the command with its
/// arguments, in the given directory.
pub fn exec_plan(params: &ExecParams) -> (res: Result<CommandPlan, ExecError>)
    ensures
        match exec_problem(*params) {
            Some(e) => match e {
                ExecError::RelativeCwd(p) => res matches Err(ExecError::RelativeCwd(q)) && q@ == p@,
                _ => res == Err::<CommandPlan, ExecError>(e),
            },
            None => res matches Ok(plan) && {
                &&& plan.program@ == params.command@
                &&& plan.args@ == match params.args {
                    Some(a) => a@,
                    None => Seq::<String>::empty(),
                }
                &&& plan.cwd == params.cwd
                &&& plan.limit == limit_of(params.limit)
            },
        },
{
    if is_blank(&params.command) {
        return Err(ExecError::EmptyCommand);
    }
    match &params.cwd {
        Some(c) => {
            if !is_absolute(c) {
                return Err(ExecError::RelativeCwd(c.clone()));
            }
        },
        None => {},
    }
    let limit = match validated_limit(params.limit) {
        Ok(l) => l,
        Err(e) => return Err(e),
    };
    let args = match &params.args {
        Some(a) => {
            let c = a.clone();
            assert(c@ =~= a@);
            c
        },
        None => Vec::new(),
    };
    Ok(CommandPlan { program: params.command.clone(), args, cwd: clone_cwd(&params.cwd), limit })
}

pub open spec fn shell_of(p: ShellParams) -> Seq<char> {
    match p.shell {
        Some(s) => s@,
        None => default_shell(),
    }
}

/// The first problem of a shell request, in the order they are checked.
pub open spec fn shell_problem(p: ShellParams) -> Option<ExecError> {
    if is_blank_text(p.script@) {
        Some(ExecError::EmptyScript)
    } else if is_blank_text(shell_of(p)) {
        Some(ExecError::EmptyShell)
    } else if !cwd_check(opt_view(p.cwd)) {
        Some(ExecError::RelativeCwd(p.cwd->0))
    } else if limit_of(p.limit) == 0 {
        Some(ExecError::ZeroLimit)
    } else {
        None
    }
}

/// Checks a shell request and says what to start: the shell with `-c` and
/// the script.
pub fn shell_plan(params: &ShellParams) -> (res: Result<CommandPlan, ExecError>)
    ensures
        match shell_problem(*params) {
            Some(e) => match e {
                ExecError::RelativeCwd(p) => res matches Err(ExecError::RelativeCwd(q)) && q@ == p@,
                _ => res == Err::<CommandPlan, ExecError>(e),
            },
            None => res matches Ok(plan) && {
                &&& plan.program@ == shell_of(*params)
                &&& string_views(plan.args@) == seq!["-c"@, params.script@]
                &&& plan.cwd == params.cwd
                &&& plan.limit == limit_of(params.limit)
            },
        },
{
    if is_blank(&params.script) {
        return Err(ExecError::EmptyScript);
    }
    let shell = match &params.shell {
        Some(s) => s.clone(),
        None => String::from_str(default_shell_name()),
    };
    if is_blank(&shell) {
        return Err(ExecError::EmptyShell);
    }
    match &params.cwd {
        Some(c) => {
            if !is_absolute(c) {
                return Err(ExecError::RelativeCwd(c.clone()));
            }
        },
        None => {},
    }
    let limit = match validated_limit(params.limit) {
        Ok(l) => l,
        Err(e) => return Err(e),
    };
    let mut args: Vec<String> = Vec::new();
    args.push(String::from_str("-c"));
    args.push(params.script.clone());
    assert(string_views(args@) =~= seq!["-c"@, params.script@]);
    Ok(CommandPlan { program: shell, args, cwd: clone_cwd(&params.cwd), limit })
}

/// The text that lossy UTF-8 decoding makes of `bytes`.
pub uninterp spec fn lossy_text(bytes: Seq<u8>) -> Seq<char>;

/// `text` is what lossy decoding makes of `bytes`: exactly the characters
/// they encode when they are valid UTF-8.
pub open spec fn lossy_decoded(text: Seq<char>, bytes: Seq<u8>) -> bool {
    &&& text == lossy_text(bytes)
    &&& valid_utf8(bytes) ==> text == decode_utf8(bytes)
}

/// `String::from_utf8_lossy`: decodes `bytes`, putting U+FFFD in place of
/// each invalid sequence. The result is named; valid UTF-8 decodes exactly.
#[verifier::external_body]
pub(crate) fn utf8_lossy(bytes: &[u8]) -> (res: String)
    ensures
        res@ == lossy_text(bytes@),
        valid_utf8(bytes@) ==> res@ == decode_utf8(bytes@),
{
    String::from_utf8_lossy(bytes).into_owned()
}

pub open spec fn min_nat(a: nat, b: nat) -> nat {
    if a <= b {
        a
    } else {
        b
    }
}

/// Decodes at most `budget` bytes of `bytes`, taking what it used off the
/// budget.
pub fn take_preview(bytes: &[u8], budget: &mut usize) -> (res: String)
    ensures
        *final(budget) == *old(budget) - min_nat(bytes@.len(), *old(budget) as nat),
        lossy_decoded(res@, bytes@.take(min_nat(bytes@.len(), *old(budget) as nat) as int)),
{
    let taken = if bytes.len() < *budget {
        bytes.len()
    } else {
        *budget
    };
    *budget = *budget - taken;
    let head = vstd::slice::slice_subrange(bytes, 0, taken);
    assert(head@ =~= bytes@.take(taken as int));
    utf8_lossy(head)
}

/// `res` reports a run with these outputs and exit code: inline when they fit
/// in `limit` bytes together, else a preview with the spill file's path.
pub open spec fn is_summary(
    res: ExecResult,
    stdout: Seq<u8>,
    stderr: Seq<u8>,
    exit_code: Option<i32>,
    limit: nat,
    output_path: Option<String>,
) -> bool {
    &&& res.exit_code == exit_code
    &&& if stdout.len() + stderr.len() <= limit {
        &&& lossy_decoded(res.stdout@, stdout)
        &&& lossy_decoded(res.stderr@, stderr)
        &&& !res.truncated
        &&& res.output_path is None
    } else {
        let first = min_nat(stdout.len(), limit);
        let second = min_nat(stderr.len(), (limit - first) as nat);
        &&& lossy_decoded(res.stdout@, stdout.take(first as int))
        &&& lossy_decoded(res.stderr@, stderr.take(second as int))
        &&& res.truncated
        &&& res.output_path == output_path
    }
}

/// Whether the outputs fit inline; when they do not, the caller spills them
/// before it summarizes.
pub fn fits_inline(stdout: &[u8], stderr: &[u8], limit: usize) -> (res: bool)
    ensures
        res == (stdout@.len() + stderr@.len() <= limit),
{
    stdout.len() <= limit && stderr.len() <= limit - stdout.len()
}

/// The result of a finished run. `output_path` names the spill file, and is
/// reported only when the output did not fit.
pub fn summarize(
    stdout: &[u8],
    stderr: &[u8],
    exit_code: Option<i32>,
    limit: usize,
    output_path: Option<String>,
) -> (res: ExecResult)
    ensures
        is_summary(res, stdout@, stderr@, exit_code, limit as nat, output_path),
{
    if fits_inline(stdout, stderr, limit) {
        assert(stdout@.take(stdout@.len() as int) =~= stdout@);
        return ExecResult {
            exit_code,
            stdout: utf8_lossy(stdout),
            stderr: utf8_lossy(stderr),
            truncated: false,
            output_path: None,
        };
    }
    let mut budget = limit;
    let out = take_preview(stdout, &mut budget);
    let err = take_preview(stderr, &mut budget);
    ExecResult { exit_code, stdout: out, stderr: err, truncated: true, output_path }
}

} // verus!

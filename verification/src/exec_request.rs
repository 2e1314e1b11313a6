//! `exec`: one executable, or a script under a shell, started with no shell
//! re-parsing its arguments; what it is started with, and the status that
//! ends its frame stream.

use vstd::prelude::*;

use crate::resolve::PathError;
use crate::text::{chars_of, concat, is_blank, is_blank_text};

verus! {

pub open spec fn default_shell() -> Seq<char> {
    "sh"@
}

/// What exec and shell requests share.
#[derive(Debug, Clone, PartialEq, Eq)]
pub struct ExecCommon {
    /// The working directory: relative to the workspace root in workspace
    /// mode, absolute in direct mode.
    pub cwd: Option<String>,
    /// Variables set on top of the inherited environment.
    pub env: Vec<(String, String)>,
    /// How long to wait for the command.
    pub wait: u64,
}

/// A request to run a command.
#[derive(Debug, Clone, PartialEq, Eq)]
pub enum ExecRequest {
    Exec { command: String, args: Vec<String>, common: ExecCommon },
    /// A script run with `-c` by `shell`, `sh` when absent.
    Shell { script: String, shell: Option<String>, common: ExecCommon },
}

impl ExecRequest {
    pub fn wait(&self) -> (res: u64)
        ensures
            res == match *self {
                ExecRequest::Exec { common, .. } => common.wait,
                ExecRequest::Shell { common, .. } => common.wait,
            },
    {
        match self {
            ExecRequest::Exec { common, .. } => common.wait,
            ExecRequest::Shell { common, .. } => common.wait,
        }
    }
}

/// Why a command could not be run.
#[derive(Debug, Clone, PartialEq, Eq)]
pub enum ExecError {
    EmptyCommand,
    /// The reason is for humans only.
    InvalidCwd { cwd: String, reason: String },
    Spawn { command: String, source: String },
    PtySpawn { command: String, message: String },
}

pub open spec fn exec_error_message(e: ExecError) -> Seq<char> {
    match e {
        ExecError::EmptyCommand => "command must not be empty"@,
        ExecError::InvalidCwd { cwd, reason } => "invalid cwd `"@ + cwd@ + "`: "@ + reason@,
        ExecError::Spawn { command, source } => "failed to run `"@ + command@ + "`: "@ + source@,
        ExecError::PtySpawn { command, message } => "failed to start a pty for `"@ + command@ + "`: "@ + message@,
    }
}

fn quoted(head: &str, name: &String, tail: &String) -> (res: String)
    ensures
        res@ == head@ + name@ + "`: "@ + tail@,
{
    let a = concat(head, name);
    let b = concat(&a, "`: ");
    concat(&b, tail)
}

impl ExecError {
    pub fn message(&self) -> (res: String)
        ensures
            res@ == exec_error_message(*self),
    {
        match self {
            ExecError::EmptyCommand => String::from_str("command must not be empty"),
            ExecError::InvalidCwd { cwd, reason } => quoted("invalid cwd `", cwd, reason),
            ExecError::Spawn { command, source } => quoted("failed to run `", command, source),
            ExecError::PtySpawn { command, message } => quoted("failed to start a pty for `", command, message),
        }
    }
}

/// The program and its arguments: the command and its arguments as given,
/// or the shell with `-c` and the script.
pub open spec fn invocation_of(request: ExecRequest) -> Option<(Seq<char>, Seq<Seq<char>>)> {
    match request {
        ExecRequest::Exec { command, args, .. } => if is_blank_text(command@) {
            None
        } else {
            Some((command@, args@.map_values(|a: String| a@)))
        },
        ExecRequest::Shell { script, shell, .. } => Some(
            (
                match shell {
                    Some(s) => s@,
                    None => default_shell(),
                },
                seq!["-c"@, script@],
            ),
        ),
    }
}

pub open spec fn string_views(v: Seq<String>) -> Seq<Seq<char>> {
    v.map_values(|s: String| s@)
}

/// What to start for `request`: an exec request with a blank command is
/// refused; a shell request never is.
pub fn invocation(request: &ExecRequest) -> (res: Result<(String, Vec<String>), ExecError>)
    ensures
        match invocation_of(*request) {
            None => res == Err::<(String, Vec<String>), ExecError>(ExecError::EmptyCommand),
            Some((program, args)) => res matches Ok((p, a)) && p@ == program && string_views(a@) == args,
        },
{
    match request {
        ExecRequest::Exec { command, args, .. } => {
            if is_blank(command) {
                return Err(ExecError::EmptyCommand);
            }
            let a = args.clone();
            assert(a@ =~= args@);
            Ok((command.clone(), a))
        },
        ExecRequest::Shell { script, shell, .. } => {
            let program = match shell {
                Some(s) => s.clone(),
                None => String::from_str("sh"),
            };
            let mut a: Vec<String> = Vec::new();
            a.push(String::from_str("-c"));
            a.push(script.clone());
            assert(string_views(a@) =~= seq!["-c"@, script@]);
            Ok((program, a))
        },
    }
}

/// The directory a command runs in when the request names none: the
/// workspace root, or `.`, the server's own, in direct mode.
pub fn default_cwd(root: Option<&str>) -> (res: String)
    ensures
        res@ == match root {
            Some(r) => r@,
            None => "."@,
        },
{
    match root {
        Some(r) => String::from_str(r),
        None => String::from_str("."),
    }
}

pub open spec fn cwd_reason(e: PathError) -> Seq<char> {
    match e {
        PathError::InvalidPath { reason, .. } => reason@,
        PathError::NotFound(_) => "cwd must be an existing directory"@,
        PathError::Io(m) => m@,
    }
}

/// The directory a named `cwd` resolved to, which must be a directory; a
/// failed resolution is reported against the `cwd` as given.
pub fn checked_cwd(cwd: &str, resolved: Result<String, PathError>, is_dir: bool) -> (res: Result<String, ExecError>)
    ensures
        match resolved {
            Err(e) => res matches Err(ExecError::InvalidCwd { cwd: c, reason }) && c@ == cwd@ && reason@
                == cwd_reason(e),
            Ok(p) => if is_dir {
                res matches Ok(q) && q@ == p@
            } else {
                res matches Err(ExecError::InvalidCwd { cwd: c, reason }) && c@ == cwd@ && reason@
                    == "cwd must be a directory"@
            },
        },
{
    match resolved {
        Err(e) => {
            let reason = match e {
                PathError::InvalidPath { reason, .. } => reason,
                PathError::NotFound(_) => String::from_str("cwd must be an existing directory"),
                PathError::Io(m) => m,
            };
            Err(ExecError::InvalidCwd { cwd: String::from_str(cwd), reason })
        },
        Ok(p) => {
            if !is_dir {
                return Err(
                    ExecError::InvalidCwd {
                        cwd: String::from_str(cwd),
                        reason: String::from_str("cwd must be a directory"),
                    },
                );
            }
            Ok(p)
        },
    }
}

pub open spec fn pair_views(v: Seq<(String, String)>) -> Seq<(Seq<char>, Seq<char>)> {
    v.map_values(|p: (String, String)| (p.0@, p.1@))
}

/// The value `name` has in a list of assignments: the last one wins.
pub open spec fn env_get(env: Seq<(Seq<char>, Seq<char>)>, name: Seq<char>) -> Option<Seq<char>>
    decreases env.len(),
{
    if env.len() == 0 {
        None
    } else if env.last().0 == name {
        Some(env.last().1)
    } else {
        env_get(env.drop_last(), name)
    }
}

proof fn lemma_env_get_concat(a: Seq<(Seq<char>, Seq<char>)>, b: Seq<(Seq<char>, Seq<char>)>, name: Seq<char>)
    ensures
        env_get(a + b, name) == match env_get(b, name) {
            Some(v) => Some(v),
            None => env_get(a, name),
        },
    decreases b.len(),
{
    if b.len() == 0 {
        assert(a + b =~= a);
    } else {
        assert((a + b).drop_last() =~= a + b.drop_last());
        assert((a + b).last() == b.last());
        lemma_env_get_concat(a, b.drop_last(), name);
    }
}

fn clone_pairs(v: &Vec<(String, String)>) -> (res: Vec<(String, String)>)
    ensures
        pair_views(res@) == pair_views(v@),
{
    let mut out: Vec<(String, String)> = Vec::new();
    let mut i: usize = 0;
    while i < v.len()
        invariant
            0 <= i <= v.len(),
            pair_views(out@) == pair_views(v@.take(i as int)),
        decreases v.len() - i,
    {
        let ghost before = out@;
        let p = (v[i].0.clone(), v[i].1.clone());
        assert(p.0@ == v@[i as int].0@ && p.1@ == v@[i as int].1@);
        out.push(p);
        assert(pair_views(out@) =~= pair_views(before).push((v@[i as int].0@, v@[i as int].1@)));
        assert(v@.take(i + 1) =~= v@.take(i as int).push(v@[i as int]));
        assert(pair_views(v@.take(i + 1)) =~= pair_views(v@.take(i as int)).push((v@[i as int].0@, v@[i as int].1@)));
        i = i + 1;
    }
    assert(v@.take(i as int) =~= v@);
    out
}

/// The workspace variables followed by the request's, so a request variable
/// overrides a workspace one of the same name.
pub fn merge_env(workspace_env: &Vec<(String, String)>, request_env: &Vec<(String, String)>) -> (res: Vec<
    (String, String),
>)
    ensures
        pair_views(res@) == pair_views(workspace_env@) + pair_views(request_env@),
        forall|name: Seq<char>|
            env_get(pair_views(res@), name) == match env_get(pair_views(request_env@), name) {
                Some(v) => Some(v),
                None => env_get(pair_views(workspace_env@), name),
            },
{
    let mut out = clone_pairs(workspace_env);
    let mut extra = clone_pairs(request_env);
    let ghost a = pair_views(out@);
    let ghost b = pair_views(extra@);
    let ghost oa = out@;
    let ghost ob = extra@;
    out.append(&mut extra);
    assert(out@ =~= oa + ob);
    assert(pair_views(out@) =~= a + b);
    assert forall|name: Seq<char>|
        env_get(pair_views(out@), name) == match env_get(pair_views(request_env@), name) {
            Some(v) => Some(v),
            None => env_get(pair_views(workspace_env@), name),
        } by {
        lemma_env_get_concat(a, b, name);
    }
    out
}

/// The search path a command gets: the binaries directory first, then the
/// inherited path. Without a binaries directory, or when it cannot be joined
/// (it holds a `:`), the inherited path alone.
pub open spec fn search_path_of(materialized: Option<Seq<char>>, inherited: Option<Seq<char>>) -> Seq<char> {
    let inherited_text = match inherited {
        Some(p) => p,
        None => Seq::empty(),
    };
    match materialized {
        None => inherited_text,
        Some(dir) => if inherited_text.len() == 0 {
            dir
        } else if dir.contains(':') {
            inherited_text
        } else {
            dir + seq![':'] + inherited_text
        },
    }
}

pub open spec fn opt_view(s: Option<&str>) -> Option<Seq<char>> {
    match s {
        Some(v) => Some(v@),
        None => None,
    }
}

pub fn search_path(materialized: Option<&str>, inherited: Option<&str>) -> (res: String)
    ensures
        res@ == search_path_of(opt_view(materialized), opt_view(inherited)),
{
    let inherited_text = match inherited {
        Some(p) => String::from_str(p),
        None => String::new(),
    };
    match materialized {
        None => inherited_text,
        Some(dir) => {
            if chars_of(&inherited_text).len() == 0 {
                return String::from_str(dir);
            }
            let d = chars_of(dir);
            let mut i: usize = 0;
            while i < d.len()
                invariant
                    0 <= i <= d.len(),
                    d@ == dir@,
                    materialized == Some(dir),
                    inherited_text@.len() != 0,
                    inherited_text@ == match opt_view(inherited) {
                        Some(p) => p,
                        None => Seq::<char>::empty(),
                    },
                    forall|k: int| 0 <= k < i ==> d@[k] != ':',
                decreases d.len() - i,
            {
                if d[i] == ':' {
                    assert(dir@.contains(':')) by {
                        assert(dir@[i as int] == ':');
                    }
                    assert(inherited_text@.len() != 0);
                    assert(inherited_text@ == match opt_view(inherited) {
                        Some(p) => p,
                        None => Seq::<char>::empty(),
                    });
                    return inherited_text;
                }
                i = i + 1;
            }
            assert(!dir@.contains(':'));
            let head = concat(dir, ":");
            proof {
                reveal_strlit(":");
            }
            concat(&head, &inherited_text)
        },
    }
}

/// The environment of a pty child: the inherited variables, then the
/// command's, then `PATH` set to the search path.
pub fn child_environment(inherited: &Vec<(String, String)>, env: &Vec<(String, String)>, path: String) -> (res: Vec<
    (String, String),
>)
    ensures
        pair_views(res@) == pair_views(inherited@) + pair_views(env@) + seq![("PATH"@, path@)],
{
    let mut out = merge_env(inherited, env);
    let ghost before = pair_views(out@);
    out.push((String::from_str("PATH"), path));
    assert(pair_views(out@) =~= before.push(("PATH"@, path@)));
    out
}

/// A command ready to start.
#[derive(Debug, Clone, PartialEq, Eq)]
pub struct CommandSpec {
    pub program: String,
    pub args: Vec<String>,
    /// Always concrete; `.` inherits the server's directory.
    pub cwd: String,
    pub env: Vec<(String, String)>,
}

impl CommandSpec {
    /// The command with its directory and environment: the workspace
    /// variables, overridden by the request's.
    pub fn resolve(
        program: String,
        args: Vec<String>,
        cwd: String,
        env: &Vec<(String, String)>,
        environment: &Vec<(String, String)>,
    ) -> (res: Self)
        ensures
            res.program == program,
            res.args == args,
            res.cwd == cwd,
            pair_views(res.env@) == pair_views(environment@) + pair_views(env@),
    {
        CommandSpec { program, args, cwd, env: merge_env(environment, env) }
    }
}

/// How a command ended, as its final frame reports it.
#[derive(Debug, Clone, PartialEq, Eq)]
pub enum Status {
    Exited { exit_code: i32 },
    Failed { message: String },
}

/// The status of a finished command: its exit code, or a failure when a
/// signal ended it.
pub fn exit_status(code: Option<i32>) -> (res: Status)
    ensures
        match code {
            Some(c) => res == Status::Exited { exit_code: c },
            None => res matches Status::Failed { message } && message@ == "terminated by a signal"@,
        },
{
    match code {
        Some(c) => Status::Exited { exit_code: c },
        None => Status::Failed { message: String::from_str("terminated by a signal") },
    }
}

/// Whether `s` is the status that ends a stream: a failure to read either
/// output makes the output incomplete, which the status reports in place of
/// the exit.
pub open spec fn is_final_status(
    s: Status,
    waited: Result<Option<i32>, String>,
    stdout_failure: Option<String>,
    stderr_failure: Option<String>,
) -> bool {
    match stdout_failure {
        Some(m) => s == Status::Failed { message: m },
        None => match stderr_failure {
            Some(m) => s == Status::Failed { message: m },
            None => match waited {
                Ok(code) => match code {
                    Some(c) => s == Status::Exited { exit_code: c },
                    None => s matches Status::Failed { message } && message@ == "terminated by a signal"@,
                },
                Err(m) => s == Status::Failed { message: m },
            },
        },
    }
}

/// The status that ends the stream.
pub fn final_status(waited: Result<Option<i32>, String>, stdout_failure: Option<String>, stderr_failure: Option<String>) -> (res: Status)
    ensures
        is_final_status(res, waited, stdout_failure, stderr_failure),
{
    match stdout_failure {
        Some(m) => Status::Failed { message: m },
        None => match stderr_failure {
            Some(m) => Status::Failed { message: m },
            None => match waited {
                Ok(code) => exit_status(code),
                Err(m) => Status::Failed { message: m },
            },
        },
    }
}

/// An exec request runs its command with exactly its arguments, in order;
/// a blank command runs nothing. Neither depends on the working directory,
/// environment or wait.
pub proof fn an_exec_runs_its_command_with_its_arguments(
    command: String,
    args: Vec<String>,
    common: ExecCommon,
    other: ExecCommon,
)
    ensures
        is_blank_text(command@) ==> invocation_of(ExecRequest::Exec { command, args, common }) is None,
        !is_blank_text(command@) ==> (invocation_of(ExecRequest::Exec { command, args, common }) matches Some((p, a))
            && p == command@ && a.len() == args@.len() && forall|i: int| 0 <= i < a.len() ==> a[i] == (
        #[trigger] args@[i])@),
        invocation_of(ExecRequest::Exec { command, args, common }) == invocation_of(
            ExecRequest::Exec { command, args, common: other },
        ),
{
}

/// A shell request runs its shell, `sh` when none is named, with `-c` and
/// the script as its only arguments.
pub proof fn a_shell_runs_its_script_with_c(script: String, shell: Option<String>, common: ExecCommon)
    ensures
        invocation_of(ExecRequest::Shell { script, shell, common }) matches Some((p, a)) && a.len() == 2 && a[0]
            == "-c"@ && a[1] == script@ && p == match shell {
            Some(s) => s@,
            None => "sh"@,
        },
{
}

} // verus!

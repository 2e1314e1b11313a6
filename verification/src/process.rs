//! The terminal outcome and geometry of a spawned process.

use vstd::prelude::*;

verus! {

/// A signal a caller may ask a process backend to deliver.
#[derive(Clone, Copy, Debug, PartialEq, Eq)]
pub enum ProcessSignal {
    Interrupt,
}

/// Why a signal cannot be delivered by a backend without signal support.
pub fn unsupported_signal(signal: ProcessSignal) -> (res: String)
    ensures
        res@ == "process interrupt is not supported by this process backend"@,
{
    match signal {
        ProcessSignal::Interrupt => String::from_str(
            "process interrupt is not supported by this process backend",
        ),
    }
}

/// Terminal outcome of a spawned process. A signal-terminated process keeps
/// the backend's fallback exit code, so callers tell a real exit from a kill by
/// `signal`.
#[derive(Clone, Debug, PartialEq, Eq)]
pub struct ProcessExit {
    pub exit_code: i32,
    pub signal: Option<String>,
}

impl ProcessExit {
    pub fn exited(exit_code: i32) -> (res: Self)
        ensures
            res.exit_code == exit_code,
            res.signal is None,
    {
        ProcessExit { exit_code, signal: None }
    }

    pub fn signaled(exit_code: i32, signal: String) -> (res: Self)
        ensures
            res.exit_code == exit_code,
            (res.signal matches Some(s) && s@ == signal@),
    {
        ProcessExit { exit_code, signal: Some(signal) }
    }
}

/// The outcome an exit status reports: a terminating signal `n` (named `name`)
/// becomes exit code `128 + n`, and an exit without a code becomes `-1`.
pub fn process_exit_from_status(signal: Option<(i32, String)>, code: Option<i32>) -> (res: ProcessExit)
    requires
        signal matches Some((n, _)) ==> n <= i32::MAX - 128,
    ensures
        match signal {
            Some((n, name)) => res.exit_code == 128 + n && (res.signal matches Some(s) && s@ == name@),
            None => res.signal is None && res.exit_code == match code {
                Some(c) => c as int,
                None => -1int,
            },
        },
{
    match signal {
        Some((n, name)) => ProcessExit::signaled(128 + n, name),
        None => ProcessExit::exited(
            match code {
                Some(c) => c,
                None => -1,
            },
        ),
    }
}

/// Terminal geometry in character cells.
#[derive(Clone, Copy, Debug, PartialEq, Eq)]
pub struct TerminalSize {
    pub rows: u16,
    pub cols: u16,
}

impl Default for TerminalSize {
    fn default() -> (res: Self)
        ensures
            res.rows == 24,
            res.cols == 80,
    {
        TerminalSize { rows: 24, cols: 80 }
    }
}

/// The program name a terminal session starts: `arg0` when given, else the
/// program itself. An empty program is refused before anything is opened.
pub fn terminal_program(program: &str, arg0: &Option<String>) -> (res: Result<String, String>)
    ensures
        program@.len() == 0 ==> (res matches Err(m) && m@ == "missing program for PTY spawn"@),
        program@.len() > 0 ==> match arg0 {
            Some(a) => res matches Ok(p) && p@ == a@,
            None => res matches Ok(p) && p@ == program@,
        },
{
    if program.unicode_len() == 0 {
        return Err(String::from_str("missing program for PTY spawn"));
    }
    match arg0 {
        Some(a) => Ok(a.clone()),
        None => Ok(String::from_str(program)),
    }
}

} // verus!

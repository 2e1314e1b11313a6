//! The order of an exec stream: output frames as they are read, then one
//! status once the process was waited for and both pipes are drained, then
//! nothing more.

use vstd::prelude::*;

use bytes::Bytes;

use crate::exec_frame::Frame;
use crate::exec_request::{final_status, is_final_status, Status};

verus! {

/// What a running command reports.
#[derive(Debug, PartialEq, Eq)]
pub enum RunEvent {
    /// A chunk read from stdout, or from stderr.
    Output { stderr: bool, chunk: Bytes },
    /// A pipe reached its end, or reading it failed with the message.
    Drained { stderr: bool, failure: Option<String> },
    /// The process was waited for: its exit code, none when a signal ended
    /// it, or why waiting failed.
    Exited(Result<Option<i32>, String>),
}

/// What to do with an event.
#[derive(Debug, PartialEq, Eq)]
pub enum RunAction {
    /// Send this frame.
    Send(Frame),
    /// Send this status as the last frame.
    Finish(Status),
    Nothing,
}

/// The kind of a [`RunAction`].
#[derive(Debug, Clone, Copy, PartialEq, Eq)]
pub enum ActionKind {
    Send,
    Finish,
    Nothing,
}

/// What is known of a run so far: each report once it came, and whether the
/// status was sent.
pub struct ExecRun {
    pub exit: Option<Result<Option<i32>, String>>,
    pub stdout: Option<Option<String>>,
    pub stderr: Option<Option<String>>,
    pub finished: bool,
}

pub open spec fn initial_run() -> ExecRun {
    ExecRun { exit: None, stdout: None, stderr: None, finished: false }
}

/// Whether the exit and both pipes have been reported.
pub open spec fn complete(run: ExecRun) -> bool {
    run.exit is Some && run.stdout is Some && run.stderr is Some
}

/// The run with the report of `event` recorded.
pub open spec fn recorded(run: ExecRun, event: RunEvent) -> ExecRun {
    match event {
        RunEvent::Output { .. } => run,
        RunEvent::Drained { stderr, failure } => if stderr {
            ExecRun { exit: run.exit, stdout: run.stdout, stderr: Some(failure), finished: run.finished }
        } else {
            ExecRun { exit: run.exit, stdout: Some(failure), stderr: run.stderr, finished: run.finished }
        },
        RunEvent::Exited(r) => ExecRun { exit: Some(r), stdout: run.stdout, stderr: run.stderr, finished: run.finished },
    }
}

/// The run after `event`: a finished run and an output chunk change nothing;
/// a report is recorded, and the run finishes when it is complete.
pub open spec fn next_run(run: ExecRun, event: RunEvent) -> ExecRun {
    if run.finished || event is Output {
        run
    } else {
        let r = recorded(run, event);
        ExecRun { exit: r.exit, stdout: r.stdout, stderr: r.stderr, finished: complete(r) }
    }
}

/// What `event` makes the run do: forward output until the status is sent,
/// and send the status on the report that completes the run.
pub open spec fn step_kind(run: ExecRun, event: RunEvent) -> ActionKind {
    if run.finished {
        ActionKind::Nothing
    } else if event is Output {
        ActionKind::Send
    } else if complete(recorded(run, event)) {
        ActionKind::Finish
    } else {
        ActionKind::Nothing
    }
}

pub open spec fn action_kind(a: RunAction) -> ActionKind {
    match a {
        RunAction::Send(_) => ActionKind::Send,
        RunAction::Finish(_) => ActionKind::Finish,
        RunAction::Nothing => ActionKind::Nothing,
    }
}

/// The run after each of `events` in turn, from the start.
pub open spec fn run_after(events: Seq<RunEvent>) -> ExecRun
    decreases events.len(),
{
    if events.len() == 0 {
        initial_run()
    } else {
        next_run(run_after(events.drop_last()), events.last())
    }
}

/// What the run does with the event at `i`.
pub open spec fn kind_at(events: Seq<RunEvent>, i: int) -> ActionKind {
    step_kind(run_after(events.take(i)), events[i])
}

fn copy_failure(f: &Option<String>) -> (res: Option<String>)
    ensures
        res == *f,
{
    match f {
        Some(m) => Some(m.clone()),
        None => None,
    }
}

fn copy_exit(e: &Result<Option<i32>, String>) -> (res: Result<Option<i32>, String>)
    ensures
        res == *e,
{
    match e {
        Ok(c) => Ok(*c),
        Err(m) => Err(m.clone()),
    }
}

impl ExecRun {
    pub fn new() -> (res: Self)
        ensures
            res == initial_run(),
    {
        ExecRun { exit: None, stdout: None, stderr: None, finished: false }
    }

    /// Takes one event and says what to send: the chunk of an output event
    /// on its channel, or, on the report that completes the run, its status.
    pub fn step(&mut self, event: RunEvent) -> (res: RunAction)
        ensures
            *final(self) == next_run(*old(self), event),
            action_kind(res) == step_kind(*old(self), event),
            res matches RunAction::Send(f) ==> match event {
                RunEvent::Output { stderr, chunk } => f == (if stderr {
                    Frame::Stderr(chunk)
                } else {
                    Frame::Stdout(chunk)
                }),
                _ => false,
            },
            res matches RunAction::Finish(s) ==> is_final_status(
                s,
                final(self).exit->0,
                final(self).stdout->0,
                final(self).stderr->0,
            ),
    {
        if self.finished {
            return RunAction::Nothing;
        }
        match event {
            RunEvent::Output { stderr, chunk } => {
                if stderr {
                    RunAction::Send(Frame::Stderr(chunk))
                } else {
                    RunAction::Send(Frame::Stdout(chunk))
                }
            },
            RunEvent::Drained { stderr, failure } => {
                if stderr {
                    self.stderr = Some(failure);
                } else {
                    self.stdout = Some(failure);
                }
                self.settle()
            },
            RunEvent::Exited(r) => {
                self.exit = Some(r);
                self.settle()
            },
        }
    }

    fn settle(&mut self) -> (res: RunAction)
        requires
            !old(self).finished,
        ensures
            final(self).exit == old(self).exit,
            final(self).stdout == old(self).stdout,
            final(self).stderr == old(self).stderr,
            final(self).finished == complete(*old(self)),
            complete(*old(self)) ==> (res matches RunAction::Finish(s) && is_final_status(
                s,
                old(self).exit->0,
                old(self).stdout->0,
                old(self).stderr->0,
            )),
            !complete(*old(self)) ==> res is Nothing,
    {
        match (&self.exit, &self.stdout, &self.stderr) {
            (Some(e), Some(o), Some(r)) => {
                let status = final_status(copy_exit(e), copy_failure(o), copy_failure(r));
                self.finished = true;
                RunAction::Finish(status)
            },
            _ => RunAction::Nothing,
        }
    }
}

/// Whether `e` reports that the process was waited for.
pub open spec fn reports_exit(e: RunEvent) -> bool {
    e is Exited
}

/// Whether `e` reports the end of stderr (`err`) or of stdout.
pub open spec fn reports_pipe(e: RunEvent, err: bool) -> bool {
    e matches RunEvent::Drained { stderr, .. } && stderr == err
}

proof fn lemma_take_step(events: Seq<RunEvent>, i: int)
    requires
        0 <= i < events.len(),
    ensures
        run_after(events.take(i + 1)) == next_run(run_after(events.take(i)), events[i]),
{
    assert(events.take(i + 1).drop_last() =~= events.take(i));
    assert(events.take(i + 1).last() == events[i]);
}

proof fn lemma_finished_stays(events: Seq<RunEvent>, i: int, j: int)
    requires
        0 <= i <= j <= events.len(),
        run_after(events.take(i)).finished,
    ensures
        run_after(events.take(j)).finished,
    decreases j - i,
{
    if i < j {
        lemma_take_step(events, i);
        lemma_finished_stays(events, i + 1, j);
    }
}

/// A run is finished exactly when it is complete.
proof fn lemma_finished_iff_complete(events: Seq<RunEvent>, k: int)
    requires
        0 <= k <= events.len(),
    ensures
        run_after(events.take(k)).finished == complete(run_after(events.take(k))),
    decreases k,
{
    if k == 0 {
        assert(events.take(0) =~= Seq::<RunEvent>::empty());
    } else {
        lemma_finished_iff_complete(events, k - 1);
        lemma_take_step(events, k - 1);
    }
}

/// Each field is known only after an event that reports it.
proof fn lemma_fields_come_from_reports(events: Seq<RunEvent>, k: int)
    requires
        0 <= k <= events.len(),
    ensures
        run_after(events.take(k)).exit is Some ==> exists|e: int| 0 <= e < k && reports_exit(#[trigger] events[e]),
        run_after(events.take(k)).stdout is Some ==> exists|o: int| 0 <= o < k && reports_pipe(#[trigger] events[o], false),
        run_after(events.take(k)).stderr is Some ==> exists|r: int| 0 <= r < k && reports_pipe(#[trigger] events[r], true),
    decreases k,
{
    if k == 0 {
        assert(events.take(0) =~= Seq::<RunEvent>::empty());
    } else {
        lemma_fields_come_from_reports(events, k - 1);
        lemma_take_step(events, k - 1);
        let ev = events[k - 1];
        if reports_exit(ev) {
            assert(reports_exit(events[k - 1]));
        }
        if reports_pipe(ev, false) {
            assert(reports_pipe(events[k - 1], false));
        }
        if reports_pipe(ev, true) {
            assert(reports_pipe(events[k - 1], true));
        }
    }
}

/// Each report, once made, stays known.
proof fn lemma_reports_are_kept(events: Seq<RunEvent>, k: int)
    requires
        0 <= k <= events.len(),
    ensures
        (exists|e: int| 0 <= e < k && reports_exit(#[trigger] events[e])) ==> run_after(events.take(k)).exit is Some,
        (exists|o: int| 0 <= o < k && reports_pipe(#[trigger] events[o], false)) ==> run_after(events.take(k)).stdout is Some,
        (exists|r: int| 0 <= r < k && reports_pipe(#[trigger] events[r], true)) ==> run_after(events.take(k)).stderr is Some,
    decreases k,
{
    if k > 0 {
        lemma_reports_are_kept(events, k - 1);
        lemma_take_step(events, k - 1);
        lemma_finished_iff_complete(events, k - 1);
        if exists|e: int| 0 <= e < k && reports_exit(#[trigger] events[e]) {
            let e = choose|e: int| 0 <= e < k && reports_exit(#[trigger] events[e]);
            if e < k - 1 {
                assert(exists|e: int| 0 <= e < k - 1 && reports_exit(#[trigger] events[e]));
            }
        }
        if exists|o: int| 0 <= o < k && reports_pipe(#[trigger] events[o], false) {
            let o = choose|o: int| 0 <= o < k && reports_pipe(#[trigger] events[o], false);
            if o < k - 1 {
                assert(exists|o: int| 0 <= o < k - 1 && reports_pipe(#[trigger] events[o], false));
            }
        }
        if exists|r: int| 0 <= r < k && reports_pipe(#[trigger] events[r], true) {
            let r = choose|r: int| 0 <= r < k && reports_pipe(#[trigger] events[r], true);
            if r < k - 1 {
                assert(exists|r: int| 0 <= r < k - 1 && reports_pipe(#[trigger] events[r], true));
            }
        }
    }
}

/// A finished run sent its status on one of the events so far.
proof fn lemma_finish_was_sent(events: Seq<RunEvent>, k: int)
    requires
        0 <= k <= events.len(),
        run_after(events.take(k)).finished,
    ensures
        exists|i: int| 0 <= i < k && kind_at(events, i) == ActionKind::Finish,
    decreases k,
{
    if k == 0 {
        assert(events.take(0) =~= Seq::<RunEvent>::empty());
    } else {
        lemma_take_step(events, k - 1);
        if run_after(events.take(k - 1)).finished {
            lemma_finish_was_sent(events, k - 1);
            let i = choose|i: int| 0 <= i < k - 1 && kind_at(events, i) == ActionKind::Finish;
            assert(0 <= i < k && kind_at(events, i) == ActionKind::Finish);
        } else {
            assert(kind_at(events, k - 1) == ActionKind::Finish);
        }
    }
}

/// The status is the last thing a run sends: after the event that sends it,
/// every event is ignored, so it is sent at most once.
pub proof fn status_is_last(events: Seq<RunEvent>, i: int, j: int)
    requires
        0 <= i < j < events.len(),
        kind_at(events, i) == ActionKind::Finish,
    ensures
        kind_at(events, j) == ActionKind::Nothing,
{
    lemma_take_step(events, i);
    lemma_finished_stays(events, i + 1, j);
}

/// The status is sent only once the exit and both pipes were reported.
pub proof fn status_waits_for_every_report(events: Seq<RunEvent>, i: int)
    requires
        0 <= i < events.len(),
        kind_at(events, i) == ActionKind::Finish,
    ensures
        exists|e: int| 0 <= e <= i && reports_exit(#[trigger] events[e]),
        exists|o: int| 0 <= o <= i && reports_pipe(#[trigger] events[o], false),
        exists|r: int| 0 <= r <= i && reports_pipe(#[trigger] events[r], true),
{
    lemma_take_step(events, i);
    lemma_fields_come_from_reports(events, i + 1);
}

/// Once the exit and both pipes were reported, the status has been sent.
pub proof fn status_follows_every_report(events: Seq<RunEvent>, e: int, o: int, r: int)
    requires
        0 <= e < events.len(),
        0 <= o < events.len(),
        0 <= r < events.len(),
        reports_exit(events[e]),
        reports_pipe(events[o], false),
        reports_pipe(events[r], true),
    ensures
        exists|i: int| 0 <= i < events.len() && kind_at(events, i) == ActionKind::Finish,
{
    let n = events.len() as int;
    lemma_reports_are_kept(events, n);
    lemma_finished_iff_complete(events, n);
    lemma_finish_was_sent(events, n);
}

} // verus!

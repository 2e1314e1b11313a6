use bytes::Bytes;
use sandbox_toolkit::api::AppError;
use sandbox_toolkit::exec_frame::Frame;
use sandbox_toolkit::exec_run::{ExecRun, RunAction, RunEvent};
use sandbox_toolkit::exec_request::{
    checked_cwd, child_environment, default_cwd, exit_status, final_status, invocation, merge_env, search_path,
    CommandSpec, ExecCommon, ExecError, ExecRequest, Status,
};
use sandbox_toolkit::process::{process_exit_from_status, unsupported_signal, ProcessExit, ProcessSignal};
use sandbox_toolkit::process_api::{
    direct_result, request_format, websocket_accept, FormatField, ProbeStep, RequestFormat, ResponseProbe,
};
use sandbox_toolkit::process_group::{
    after_group_signal, kill_outcome, order_members, process_group_id, tally_members, GroupOutcome, GroupStep, MemberOutcome,
    SignalError, ChildKill,
};
use sandbox_toolkit::resolve::PathError;

fn common() -> ExecCommon {
    ExecCommon { cwd: None, env: Vec::new(), wait: 5 }
}

fn pairs(items: &[(&str, &str)]) -> Vec<(String, String)> {
    items.iter().map(|(k, v)| (k.to_string(), v.to_string())).collect()
}

#[test]
fn exec_rejects_an_empty_command() {
    let request = ExecRequest::Exec { command: " ".to_string(), args: Vec::new(), common: common() };
    assert_eq!(invocation(&request), Err(ExecError::EmptyCommand));
    assert_eq!(ExecError::EmptyCommand.message(), "command must not be empty");
}

#[test]
fn a_shell_request_runs_its_script_with_dash_c() {
    let request = ExecRequest::Shell { script: "echo hi".to_string(), shell: None, common: common() };
    assert_eq!(
        invocation(&request),
        Ok(("sh".to_string(), vec!["-c".to_string(), "echo hi".to_string()]))
    );
    assert_eq!(request.wait(), 5);
    let custom = ExecRequest::Shell { script: "x".to_string(), shell: Some("bash".to_string()), common: common() };
    assert_eq!(invocation(&custom).unwrap().0, "bash");
}

#[test]
fn a_request_variable_overrides_the_workspace_one() {
    let merged = merge_env(
        &pairs(&[("WORKSPACE_DOCS", "/srv/docs"), ("A", "1")]),
        &pairs(&[("WORKSPACE_DOCS", "override")]),
    );
    let last = merged.iter().rev().find(|(k, _)| k == "WORKSPACE_DOCS").unwrap();
    assert_eq!(last.1, "override");
    let spec = CommandSpec::resolve(
        "env".to_string(),
        Vec::new(),
        default_cwd(Some("/srv/docs")),
        &pairs(&[("B", "2")]),
        &pairs(&[("A", "1")]),
    );
    assert_eq!(spec.cwd, "/srv/docs");
    assert_eq!(spec.env, pairs(&[("A", "1"), ("B", "2")]));
    assert_eq!(default_cwd(None), ".");
}

#[test]
fn the_child_path_puts_the_binaries_first() {
    assert_eq!(search_path(Some("/home/u/bin"), Some("/usr/bin")), "/home/u/bin:/usr/bin");
    assert_eq!(search_path(Some("/home/u/bin"), None), "/home/u/bin");
    assert_eq!(search_path(Some("/home/u/bin"), Some("")), "/home/u/bin");
    assert_eq!(search_path(None, Some("/usr/bin")), "/usr/bin");
    assert_eq!(search_path(Some("/a:b"), Some("/usr/bin")), "/usr/bin");
    let env = child_environment(&pairs(&[("HOME", "/h")]), &pairs(&[("X", "1")]), "/p".to_string());
    assert_eq!(env, pairs(&[("HOME", "/h"), ("X", "1"), ("PATH", "/p")]));
}

#[test]
fn rejects_a_cwd_that_escapes_the_workspace() {
    let escaped = PathError::InvalidPath { path: "..".to_string(), reason: "path escapes workspace".to_string() };
    assert_eq!(
        checked_cwd("..", Err(escaped), false),
        Err(ExecError::InvalidCwd { cwd: "..".to_string(), reason: "path escapes workspace".to_string() })
    );
    assert_eq!(
        checked_cwd("gone", Err(PathError::NotFound("gone".to_string())), false),
        Err(ExecError::InvalidCwd {
            cwd: "gone".to_string(),
            reason: "cwd must be an existing directory".to_string()
        })
    );
    assert_eq!(
        checked_cwd("f", Ok("/ws/f".to_string()), false),
        Err(ExecError::InvalidCwd { cwd: "f".to_string(), reason: "cwd must be a directory".to_string() })
    );
    assert_eq!(checked_cwd("d", Ok("/ws/d".to_string()), true), Ok("/ws/d".to_string()));
}

#[test]
fn the_final_status_reports_incomplete_output() {
    assert_eq!(exit_status(Some(3)), Status::Exited { exit_code: 3 });
    assert_eq!(
        exit_status(None),
        Status::Failed { message: "terminated by a signal".to_string() }
    );
    assert_eq!(
        final_status(Ok(Some(0)), None, Some("read failed".to_string())),
        Status::Failed { message: "read failed".to_string() }
    );
    assert_eq!(
        final_status(Err("wait failed".to_string()), None, None),
        Status::Failed { message: "wait failed".to_string() }
    );
    assert_eq!(final_status(Ok(Some(4)), None, None), Status::Exited { exit_code: 4 });
}

#[test]
fn a_signal_is_reported_with_its_exit_code() {
    let exit = process_exit_from_status(Some((9, "Killed".to_string())), None);
    assert_eq!(exit, ProcessExit::signaled(137, "Killed".to_string()));
    assert_eq!(process_exit_from_status(None, None), ProcessExit::exited(-1));
    assert_eq!(process_exit_from_status(None, Some(2)).exit_code, 2);
    assert_eq!(
        unsupported_signal(ProcessSignal::Interrupt),
        "process interrupt is not supported by this process backend"
    );
}

#[test]
fn the_format_defaults_to_exec() {
    assert_eq!(request_format(&FormatField::Absent), Ok(RequestFormat::Exec));
    assert_eq!(request_format(&FormatField::Text("shell".to_string())), Ok(RequestFormat::Shell));
    assert_eq!(
        request_format(&FormatField::Text("pty".to_string())),
        Err(AppError::UnsupportedType("pty".to_string()))
    );
    assert_eq!(
        request_format(&FormatField::Other),
        Err(AppError::InvalidRequest("`format` must be a string".to_string()))
    );
}

#[test]
fn a_fast_run_is_answered_directly() {
    let mut probe = ResponseProbe::new(10);
    assert!(matches!(probe.on_frame(Frame::Stdout(Bytes::from_static(b"out"))), ProbeStep::Continue));
    assert!(matches!(probe.on_frame(Frame::Stderr(Bytes::from_static(b"err"))), ProbeStep::Continue));
    assert!(matches!(
        probe.on_frame(Frame::Status(Bytes::from_static(b"{\"status\":\"exited\",\"exit_code\":0}"))),
        ProbeStep::Direct
    ));
    let frames = probe.into_frames();
    let result = direct_result(&frames).unwrap();
    assert_eq!(result.stdout, "out");
    assert_eq!(result.stderr, "err");
    assert_eq!(result.status, b"{\"status\":\"exited\",\"exit_code\":0}".to_vec());
}

#[test]
fn too_much_output_turns_into_a_stream() {
    let mut probe = ResponseProbe::new(4);
    assert!(matches!(probe.on_frame(Frame::Stdout(Bytes::from_static(b"abcd"))), ProbeStep::Continue));
    assert!(matches!(probe.on_frame(Frame::Stdout(Bytes::from_static(b"e"))), ProbeStep::Stream));
    assert!(matches!(probe.on_timeout(), ProbeStep::Stream));
    assert!(matches!(probe.on_end(), ProbeStep::MissingStatus));
    assert_eq!(probe.into_frames().len(), 2);
}

#[test]
fn a_direct_answer_needs_a_status() {
    let frames = vec![Frame::Stdout(Bytes::from_static(b"x"))];
    assert_eq!(
        direct_result(&frames),
        Err(AppError::Internal("the command stream ended without a terminal status".to_string()))
    );
}

#[test]
fn the_handshake_answers_the_sample_key() {
    assert_eq!(websocket_accept(b"dGhlIHNhbXBsZSBub25jZQ=="), "s3pPLMBiTxaQ9kYGzzhZRbK+xOo=");
}

#[test]
fn a_refused_group_signal_falls_back_to_members() {
    assert_eq!(after_group_signal(GroupOutcome::Signalled(true)), GroupStep::Done(Ok(true)));
    assert_eq!(after_group_signal(GroupOutcome::PermissionDenied), GroupStep::SignalMembers);
    assert_eq!(process_group_id(0), Err("invalid process group ID".to_string()));
    assert_eq!(process_group_id(u32::MAX), Err("invalid process group ID".to_string()));
    assert_eq!(process_group_id(42), Ok(42));
}

#[test]
fn the_group_leader_is_signalled_last() {
    assert_eq!(order_members(7, &vec![7, 3, 0, -1, 9, 7]), vec![3, 9, 7, 7]);
}

#[test]
fn any_delivered_member_is_success() {
    let error = SignalError { errno: Some(1), message: "denied".to_string() };
    assert_eq!(
        tally_members(&vec![MemberOutcome::Failed(error.clone()), MemberOutcome::Signalled(true)]),
        Ok(true)
    );
    assert_eq!(
        tally_members(&vec![
            MemberOutcome::Skipped,
            MemberOutcome::Failed(error.clone()),
            MemberOutcome::LookupFailed(SignalError { errno: None, message: "later".to_string() }),
        ]),
        Err(error)
    );
    assert_eq!(tally_members(&vec![MemberOutcome::Signalled(false)]), Ok(false));
    assert_eq!(tally_members(&Vec::new()), Ok(false));
}

#[test]
fn a_terminal_kill_tries_the_group_and_the_child() {
    let denied = SignalError { errno: Some(1), message: "denied".to_string() };
    let gone = SignalError { errno: Some(3), message: "gone".to_string() };
    assert_eq!(kill_outcome(Some(Ok(())), ChildKill::Killed), Ok(()));
    assert_eq!(kill_outcome(Some(Err(denied.clone())), ChildKill::Killed), Ok(()));
    assert_eq!(kill_outcome(Some(Err(denied.clone())), ChildKill::Gone(gone.clone())), Err(denied.clone()));
    assert_eq!(kill_outcome(Some(Ok(())), ChildKill::Gone(gone.clone())), Ok(()));
    assert_eq!(kill_outcome(Some(Ok(())), ChildKill::Failed(gone.clone())), Ok(()));
    assert_eq!(kill_outcome(Some(Err(denied.clone())), ChildKill::Failed(gone.clone())), Err(gone.clone()));
    assert_eq!(kill_outcome(None, ChildKill::Gone(gone.clone())), Err(gone.clone()));
    assert_eq!(kill_outcome(None, ChildKill::Killed), Ok(()));
}

#[test]
fn a_run_sends_output_then_one_status_last() {
    let mut run = ExecRun::new();
    let out = |text: &str| RunEvent::Output { stderr: false, chunk: Bytes::from(text.to_string()) };
    assert_eq!(run.step(out("a")), RunAction::Send(Frame::Stdout(Bytes::from("a"))));
    assert_eq!(run.step(RunEvent::Exited(Ok(Some(0)))), RunAction::Nothing);
    assert_eq!(run.step(RunEvent::Drained { stderr: false, failure: None }), RunAction::Nothing);
    assert_eq!(
        run.step(RunEvent::Output { stderr: true, chunk: Bytes::from("b") }),
        RunAction::Send(Frame::Stderr(Bytes::from("b")))
    );
    assert!(!run.finished);
    assert_eq!(
        run.step(RunEvent::Drained { stderr: true, failure: Some("read failed".to_string()) }),
        RunAction::Finish(Status::Failed { message: "read failed".to_string() })
    );
    assert!(run.finished);
    assert_eq!(run.step(out("late")), RunAction::Nothing);
    assert_eq!(run.step(RunEvent::Exited(Ok(Some(1)))), RunAction::Nothing);
}

#[test]
fn a_run_reports_the_exit_once_the_pipes_are_drained() {
    let mut run = ExecRun::new();
    assert_eq!(run.step(RunEvent::Drained { stderr: true, failure: None }), RunAction::Nothing);
    assert_eq!(run.step(RunEvent::Drained { stderr: false, failure: None }), RunAction::Nothing);
    assert_eq!(run.step(RunEvent::Exited(Ok(Some(3)))), RunAction::Finish(Status::Exited { exit_code: 3 }));

    let mut killed = ExecRun::new();
    killed.step(RunEvent::Exited(Ok(None)));
    killed.step(RunEvent::Drained { stderr: false, failure: None });
    assert_eq!(
        killed.step(RunEvent::Drained { stderr: true, failure: None }),
        RunAction::Finish(Status::Failed { message: "terminated by a signal".to_string() })
    );
}

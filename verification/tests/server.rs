use sandbox_toolkit::command::{
    exec_plan, fits_inline, shell_plan, summarize, take_preview, validated_cwd, validated_limit, ExecError, ExecParams,
    ShellParams, DEFAULT_MAX_OUTPUT,
};
use sandbox_toolkit::jsonrpc::{RequestId, Version, METHOD_NOT_FOUND};
use sandbox_toolkit::plugins::{
    analyze, check_body, entry_path, strip_single_root, PluginError, PluginMcpStatus, PluginTransport, MAX_ARCHIVE_BYTES,
};
use sandbox_toolkit::read_window::{
    opened_file, read_plan, read_text, read_window, split_lines, OpenOutcome, ErrorKind, LineWindow, ReadFileError, ReadFileParams, TextLine,
    DEFAULT_LIMIT,
};
use sandbox_toolkit::tools::{all_tools, bundled, describe_named_tool, find, health_result, DescribeToolParams};

fn params(path: &str, offset: Option<usize>, limit: Option<usize>) -> ReadFileParams {
    ReadFileParams { path: path.to_string(), offset, limit }
}

#[test]
fn file_reads_a_window_and_reports_more() {
    let result = read_text(&params("/f", Some(1), Some(2)), "a\nb\nc\nd\ne\n").unwrap();

    assert_eq!(
        result.lines,
        vec![
            TextLine { number: 2, text: "b".into() },
            TextLine { number: 3, text: "c".into() },
        ]
    );
    assert!(result.truncated);
    assert_eq!(result.next_offset, Some(3));
}

#[test]
fn file_final_window_is_not_truncated() {
    let result = read_text(&params("/f", Some(3), Some(10)), "a\nb\nc\nd\ne\n").unwrap();

    assert_eq!(
        result.lines.iter().map(|line| &line.text).collect::<Vec<_>>(),
        vec!["d", "e"]
    );
    assert!(!result.truncated);
    assert_eq!(result.next_offset, None);
}

#[test]
fn file_offset_is_zero_based_and_numbers_are_one_based() {
    let result = read_text(&params("/f", None, None), "first\nsecond\n").unwrap();

    assert_eq!(result.lines[0].number, 1);
    assert_eq!(result.lines[0].text, "first");
    assert_eq!(result.lines[1].number, 2);
    assert_eq!(result.lines[1].text, "second");
    assert!(!result.truncated);
}

#[test]
fn file_offset_past_eof_yields_an_empty_window() {
    let result = read_text(&params("/f", Some(5), None), "only\n").unwrap();

    assert!(result.lines.is_empty());
    assert!(!result.truncated);
    assert_eq!(result.next_offset, None);
}

#[test]
fn file_crlf_newlines_are_stripped() {
    let result = read_text(&params("/f", None, None), "a\r\nb\r\n").unwrap();

    assert_eq!(result.lines[0].text, "a");
    assert_eq!(result.lines[1].text, "b");
}

#[test]
fn file_relative_paths_are_rejected() {
    let error = read_text(&params("Cargo.toml", None, None), "").unwrap_err();

    assert!(matches!(error, ReadFileError::RelativePath(_)));
    assert_eq!(error.message(), "path must be absolute: Cargo.toml");
    assert_eq!(error.kind(), ErrorKind::Invalid);
}

#[test]
fn file_zero_limit_is_rejected() {
    let error = read_text(&params("/f", None, Some(0)), "a\n").unwrap_err();

    assert!(matches!(error, ReadFileError::ZeroLimit));
    assert_eq!(error.kind().status(), 400);
}

#[test]
fn read_errors_map_to_their_class() {
    assert_eq!(ReadFileError::NotFound("/x".into()).kind().status(), 404);
    assert_eq!(ReadFileError::NotAFile("/x".into()).kind().status(), 400);
    assert_eq!(ReadFileError::Io("disk".into()).kind().status(), 500);
    assert_eq!(ReadFileError::NotFound("/x".into()).message(), "file not found: /x");
}

#[test]
fn lines_split_like_a_line_reader() {
    assert_eq!(split_lines("a\nb"), vec!["a", "b"]);
    assert_eq!(split_lines("a\n\nb\n"), vec!["a", "", "b"]);
    assert_eq!(split_lines("a\r"), vec!["a\r"]);
    assert_eq!(split_lines("\r\n"), vec![""]);
    assert!(split_lines("").is_empty());
}

#[test]
fn the_plan_defaults_offset_and_limit() {
    let plan = read_plan(&params("/f", None, None)).unwrap();
    assert_eq!(plan.offset, 0);
    assert_eq!(plan.limit, DEFAULT_LIMIT);
}

#[test]
fn a_streamed_window_stops_after_one_line_past_it() {
    let mut window = LineWindow::new(1, 2);
    let mut fed = 0;
    for line in ["a", "b", "c", "d", "e"] {
        if !window.wants_more() {
            break;
        }
        window.feed(Some(line.to_string()));
        fed += 1;
    }
    assert_eq!(fed, 4, "the fourth line tells the window is truncated");
    let result = window.finish("/f".to_string());
    assert_eq!(result.lines.len(), 2);
    assert!(result.truncated);
    assert_eq!(result.next_offset, Some(3));
}

#[test]
fn a_window_over_lines_matches_one_over_text() {
    let lines: Vec<String> = ["x", "y", "z"].iter().map(|s| s.to_string()).collect();
    assert_eq!(
        read_window(&params("/f", Some(2), Some(5)), &lines).unwrap(),
        read_text(&params("/f", Some(2), Some(5)), "x\ny\nz").unwrap()
    );
}

fn exec_params(command: &str) -> ExecParams {
    ExecParams { command: command.to_string(), args: None, cwd: None, env: None, limit: None }
}

fn shell_params(script: &str) -> ShellParams {
    ShellParams { script: script.to_string(), cwd: None, env: None, shell: None, limit: None }
}

#[test]
fn process_rejects_an_empty_command() {
    assert_eq!(exec_plan(&exec_params("  ")), Err(ExecError::EmptyCommand));
}

#[test]
fn rejects_a_relative_cwd() {
    let mut params = exec_params("true");
    params.cwd = Some("relative/dir".to_string());
    assert_eq!(
        exec_plan(&params),
        Err(ExecError::RelativeCwd("relative/dir".to_string()))
    );
}

#[test]
fn rejects_a_zero_limit() {
    let mut params = exec_params("true");
    params.limit = Some(0);
    assert_eq!(exec_plan(&params), Err(ExecError::ZeroLimit));
}

#[test]
fn an_exec_plan_keeps_the_command_and_arguments() {
    let mut params = exec_params("printf");
    params.args = Some(vec!["%s".to_string(), "x".to_string()]);
    params.cwd = Some("/tmp".to_string());
    let plan = exec_plan(&params).unwrap();
    assert_eq!(plan.program, "printf");
    assert_eq!(plan.args, vec!["%s", "x"]);
    assert_eq!(plan.cwd, Some("/tmp".to_string()));
    assert_eq!(plan.limit, DEFAULT_MAX_OUTPUT);
}

#[test]
fn shell_defaults_to_sh() {
    let plan = shell_plan(&shell_params("printf hello")).unwrap();
    assert_eq!(plan.program, "sh");
    assert_eq!(plan.args, vec!["-c", "printf hello"]);
}

#[test]
fn shell_honors_a_custom_shell() {
    let mut params = shell_params("printf %s \"$0\"");
    params.shell = Some("/bin/sh".to_string());
    assert_eq!(shell_plan(&params).unwrap().program, "/bin/sh");
}

#[test]
fn shell_rejects_an_empty_script() {
    assert_eq!(shell_plan(&shell_params("  ")), Err(ExecError::EmptyScript));
}

#[test]
fn shell_rejects_an_empty_shell() {
    let mut params = shell_params("printf hello");
    params.shell = Some("  ".to_string());
    assert_eq!(shell_plan(&params), Err(ExecError::EmptyShell));
}

#[test]
fn shell_rejects_a_relative_cwd() {
    let mut params = shell_params("printf hello");
    params.cwd = Some("relative/dir".to_string());
    assert!(matches!(shell_plan(&params), Err(ExecError::RelativeCwd(_))));
}

#[test]
fn shell_rejects_a_zero_limit() {
    let mut params = shell_params("printf hello");
    params.limit = Some(0);
    assert_eq!(shell_plan(&params), Err(ExecError::ZeroLimit));
}

#[test]
fn cwd_and_limit_are_checked_on_their_own() {
    assert_eq!(validated_cwd(Some("/tmp")), Ok(Some("/tmp")));
    assert_eq!(validated_cwd(None), Ok(None));
    assert_eq!(validated_limit(None), Ok(DEFAULT_MAX_OUTPUT));
    assert_eq!(validated_limit(Some(3)), Ok(3));
}

#[test]
fn output_at_the_limit_is_returned_inline() {
    let out = "x".repeat(10);
    let result = summarize(out.as_bytes(), b"", Some(0), 10, Some("/tmp/spill".to_string()));
    assert!(!result.truncated);
    assert_eq!(result.stdout, out);
    assert_eq!(result.output_path, None);
    assert!(fits_inline(out.as_bytes(), b"", 10));
}

#[test]
fn output_over_limit_is_previewed_stdout_first() {
    let out = "x".repeat(500);
    assert!(!fits_inline(out.as_bytes(), b"err", 10));
    let result = summarize(out.as_bytes(), b"err", Some(1), 10, Some("/tmp/spill".to_string()));
    assert!(result.truncated);
    assert_eq!(result.stdout, "x".repeat(10));
    assert_eq!(result.stderr, "");
    assert_eq!(result.exit_code, Some(1));
    assert_eq!(result.output_path, Some("/tmp/spill".to_string()));

    let result = summarize(b"abc", b"defgh", None, 5, None);
    assert_eq!(result.stdout, "abc");
    assert_eq!(result.stderr, "de");
}

#[test]
fn a_preview_spends_the_budget() {
    let mut budget = 4;
    assert_eq!(take_preview(b"hello", &mut budget), "hell");
    assert_eq!(budget, 0);
    let mut budget = 9;
    assert_eq!(take_preview(b"hi", &mut budget), "hi");
    assert_eq!(budget, 7);
    let mut budget = 2;
    assert_eq!(take_preview(b"\xffa", &mut budget), "\u{fffd}a");
}

#[test]
fn exec_errors_map_to_their_class() {
    assert_eq!(ExecError::Io("x".into()).kind(), ErrorKind::Internal);
    assert_eq!(
        ExecError::Spawn { command: "x".into(), source: "gone".into() }.kind(),
        ErrorKind::Invalid
    );
    assert_eq!(
        ExecError::Spawn { command: "x".into(), source: "gone".into() }.message(),
        "failed to run `x`: gone"
    );
}

#[test]
fn bundled_tools_are_found_by_name() {
    let names: Vec<&str> = bundled().iter().map(|tool| tool.name).collect();
    assert_eq!(names, vec!["fd", "rg"]);
    assert_eq!(find("rg").map(|tool| tool.name), Some("rg"));
    assert_eq!(find("jq"), None);
    assert_eq!(all_tools().tools.len(), 2);
    let described = describe_named_tool(&DescribeToolParams { name: "fd".to_string() }).unwrap();
    assert_eq!(described.name, "fd");
    let missing = describe_named_tool(&DescribeToolParams { name: "nope".to_string() }).unwrap_err();
    assert_eq!(missing.message(), "unknown tool: nope");
    assert_eq!(missing.status(), 404);
}

#[test]
fn health_reports_ok_and_uptime() {
    let health = health_result(42);
    assert_eq!(health.status, "ok");
    assert_eq!(health.uptime_seconds, 42);
}

#[test]
fn rejects_an_empty_body() {
    let error = analyze(b"").unwrap_err();
    assert!(matches!(error, PluginError::EmptyBody));
    assert_eq!(check_body(0), Err(PluginError::EmptyBody));
    assert_eq!(check_body(MAX_ARCHIVE_BYTES + 1), Err(PluginError::TooLarge));
    assert_eq!(check_body(MAX_ARCHIVE_BYTES), Ok(()));
    assert_eq!(PluginError::TooLarge.status(), 413);
}

#[test]
fn rejects_absolute_entry_paths() {
    let mut builder = tar::Builder::new(Vec::new());
    let mut header = tar::Header::new_gnu();
    header.set_size(0);
    header.set_mode(0o644);
    header.set_path_absolute("/evil").expect("absolute fixture path");
    header.set_cksum();
    builder.append(&header, &b""[..]).expect("appending fixture entry failed");
    let mut encoder = flate2::write::GzEncoder::new(Vec::new(), flate2::Compression::default());
    std::io::Write::write_all(&mut encoder, &builder.into_inner().unwrap()).unwrap();
    let bytes = encoder.finish().unwrap();
    match analyze(&bytes).unwrap_err() {
        PluginError::InvalidArchive(message) => assert!(message.contains("absolute path")),
        other => panic!("expected an invalid archive, got {other:?}"),
    }
    match entry_path("/evil") {
        Err(PluginError::InvalidArchive(message)) => assert!(message.contains("absolute path")),
        other => panic!("expected an invalid archive, got {other:?}"),
    }
    match entry_path("a/../../b") {
        Err(PluginError::InvalidArchive(message)) => assert!(message.contains("escapes the plugin root")),
        other => panic!("expected an invalid archive, got {other:?}"),
    }
    assert_eq!(entry_path("./a/./b").unwrap(), Some("a/b".to_string()));
    assert_eq!(entry_path(".").unwrap(), None);
}

#[test]
fn strips_a_single_top_level_directory() {
    let bytes = targz(&[("demo-plugin/plugin.json", MANIFEST), ("demo-plugin/skills/greet/SKILL.md", SKILL)]);
    let report = analyze(&bytes).expect("a wrapped package should parse");
    assert!(report.valid);
    assert_eq!(report.manifest.expect("manifest").name, "demo-plugin");
    assert_eq!(report.skills.len(), 1);

    let files = vec![
        ("demo-plugin/plugin.json".to_string(), b"{}".to_vec()),
        ("demo-plugin/skills/greet/SKILL.md".to_string(), b"x".to_vec()),
    ];
    let stripped = strip_single_root(files);
    let paths: Vec<&str> = stripped.iter().map(|(path, _)| path.as_str()).collect();
    assert_eq!(paths, vec!["plugin.json", "skills/greet/SKILL.md"]);
}

#[test]
fn keeps_paths_without_a_single_root_holding_the_manifest() {
    let two_roots = vec![("a/plugin.json".to_string(), vec![]), ("b/x".to_string(), vec![])];
    assert_eq!(strip_single_root(two_roots.clone()), two_roots);
    let top_file = vec![("a/plugin.json".to_string(), vec![]), ("README".to_string(), vec![])];
    assert_eq!(strip_single_root(top_file.clone()), top_file);
    let no_manifest = vec![("a/x".to_string(), vec![1u8])];
    assert_eq!(strip_single_root(no_manifest.clone()), no_manifest);
}

#[test]
fn json_rpc_values() {
    assert_eq!(Version::V2.as_str(), "2.0");
    assert_ne!(RequestId::Number(1), RequestId::String("1".to_string()));
    assert_eq!(METHOD_NOT_FOUND, -32601);
}

#[test]
fn a_read_tells_a_missing_path_from_one_that_is_not_a_file() {
    assert_eq!(opened_file("/a", OpenOutcome::Missing), Err(ReadFileError::NotFound("/a".to_string())));
    assert_eq!(
        opened_file("/d", OpenOutcome::Opened { is_file: false }),
        Err(ReadFileError::NotAFile("/d".to_string()))
    );
    assert_eq!(opened_file("/f", OpenOutcome::Opened { is_file: true }), Ok(()));
    assert_eq!(
        opened_file("/f", OpenOutcome::Failed("denied".to_string())),
        Err(ReadFileError::Io("denied".to_string()))
    );
}

#[test]
fn output_over_the_limit_is_previewed() {
    let out = "x".repeat(500);
    let result = summarize(out.as_bytes(), b"", Some(0), 10, Some("/tmp/spill".to_string()));
    assert!(result.truncated);
    assert_eq!(result.stdout, "x".repeat(10));
    assert_eq!(result.stderr, "");
    assert_eq!(result.output_path, Some("/tmp/spill".to_string()));
}

const MANIFEST: &[u8] = br#"{
    "$schema": "https://agent-plugins.org/schemas/1.0.0/plugin.schema.json",
    "name": "demo-plugin",
    "version": "1.2.3"
}"#;

const MANIFEST_WITH_UNKNOWN_FIELD: &[u8] = br#"{
    "$schema": "https://agent-plugins.org/schemas/1.0.0/plugin.schema.json",
    "name": "demo-plugin",
    "hooks": {}
}"#;

const SKILL: &[u8] = b"---\nname: greet\ndescription: Greets. Use when greeting.\n---\nSay hi.\n";

const MCP: &[u8] = br#"{
    "$schema": "https://agent-plugins.org/schemas/1.0.0/mcp.schema.json",
    "mcpServers": { "echo": { "type": "stdio", "command": "npx" } }
}"#;

fn targz(entries: &[(&str, &[u8])]) -> Vec<u8> {
    let mut builder = tar::Builder::new(Vec::new());
    for (path, contents) in entries {
        let mut header = tar::Header::new_gnu();
        header.set_size(contents.len() as u64);
        header.set_mode(0o644);
        header.set_path(path).expect("fixture path is valid");
        header.set_cksum();
        builder.append_data(&mut header, path, *contents).expect("appending fixture entry failed");
    }
    let mut encoder = flate2::write::GzEncoder::new(Vec::new(), flate2::Compression::default());
    std::io::Write::write_all(&mut encoder, &builder.into_inner().expect("finishing fixture tar failed"))
        .expect("compressing fixture tar failed");
    encoder.finish().expect("finishing fixture gzip failed")
}

#[test]
fn loads_a_plugin_with_skills_and_mcp() {
    let bytes = targz(&[("plugin.json", MANIFEST), ("skills/greet/SKILL.md", SKILL), ("mcp.json", MCP)]);

    let report = analyze(&bytes).expect("a valid archive should parse");

    assert!(report.valid);
    assert!(report.rejection.is_none());

    let manifest = report.manifest.expect("a valid plugin has a manifest");
    assert_eq!(manifest.name, "demo-plugin");
    assert_eq!(manifest.spec_version, "1.0.0");
    assert_eq!(manifest.version.as_deref(), Some("1.2.3"));

    assert_eq!(report.skills.len(), 1);
    assert_eq!(report.skills[0].name, "greet");
    assert_eq!(report.skills[0].path, "skills/greet");

    let mcp = report.mcp.expect("a valid plugin has an MCP outcome");
    assert_eq!(mcp.status, PluginMcpStatus::Configured);
    assert_eq!(mcp.servers.len(), 1);
    assert_eq!(mcp.servers[0].name, "echo");
    assert_eq!(mcp.servers[0].transport, PluginTransport::Stdio);

    assert!(report.diagnostics.is_empty());
}

#[test]
fn reports_non_fatal_diagnostics() {
    let bytes = targz(&[("plugin.json", MANIFEST_WITH_UNKNOWN_FIELD)]);

    let report = analyze(&bytes).expect("an unknown field is not fatal");

    assert!(report.valid);
    assert_eq!(report.diagnostics.len(), 1);
    assert_eq!(report.diagnostics[0].rule, "unknown-manifest-field");
    assert_eq!(report.diagnostics[0].section, "§5.2");
    assert_eq!(report.diagnostics[0].origin, "plugin.json");
}

#[test]
fn rejects_an_archive_without_a_manifest() {
    let bytes = targz(&[("README.md", b"hello")]);

    let report = analyze(&bytes).expect("the archive itself is well-formed");

    assert!(!report.valid);
    let rejection = report.rejection.expect("a rejection is reported");
    assert_eq!(rejection.code, "manifest-missing");
    assert!(report.manifest.is_none());
    assert!(report.mcp.is_none());
    assert!(report.skills.is_empty());
}

#[test]
fn rejects_non_gzip_bodies() {
    let error = analyze(b"definitely not a gzip archive").unwrap_err();
    assert!(matches!(error, PluginError::InvalidArchive(_)));
}

#[test]
fn a_plugin_without_mcp_reports_it_absent() {
    let report = analyze(&targz(&[("plugin.json", MANIFEST)])).unwrap();
    assert!(report.valid);
    let mcp = report.mcp.expect("a valid plugin has an MCP outcome");
    assert_eq!(mcp.status, PluginMcpStatus::Absent);
    assert!(mcp.servers.is_empty());
    assert_eq!(report.manifest.unwrap().spec_version, "1.0.0");
}

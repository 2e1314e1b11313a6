use sandbox_toolkit::api::AppError;
use sandbox_toolkit::content::{
    check_read_target, file_target, lines_of_text, read_error_response, read_lines, read_range, ReadFileError,
    ReadFileRequest,
};
use sandbox_toolkit::listing::{
    create_error, creation_start, entry_address, parent_checked, resource_entry, window, CreateFailure, CreateStart,
    DirWalk, DirectoryError, EntryInfo, ListWindow, Presence, SearchFilter, SearchWalk,
};
use sandbox_toolkit::metadata::{
    check_symlink_target, decimal_text, describe, etag, mode_text, name_of, parse_mode, resource_kind, EntryFacts,
    ResourceKind,
};
use sandbox_toolkit::file_ops::{
    deletion_step, deletion_target, effective_access, require_absent, require_file, symlink_checks, text_content,
    write_target, Access, DeleteStep, EntryLookup, FileError,
};
use sandbox_toolkit::resolve::PathError;
use sandbox_toolkit::target::TargetFile;
use sandbox_toolkit::workspace::{Workspace, WorkspaceProperties, WorkspaceRegistry};

fn request(offset: usize, limit: Option<usize>) -> ReadFileRequest {
    ReadFileRequest { offset, limit }
}

#[test]
fn reads_a_range_of_lines_with_their_breaks() {
    let text = "one\ntwo\r\nthree\rfour";
    assert_eq!(read_lines(text, request(1, Some(2))), "two\r\nthree\r");
    assert_eq!(read_lines(text, request(0, None)), text);
    assert_eq!(read_lines(text, request(3, None)), "four");
    assert_eq!(read_lines(text, request(9, Some(1))), "");
    assert_eq!(read_lines("a\n", request(1, None)), "");
    assert_eq!(read_lines("a\u{2028}b", request(1, Some(1))), "b");
}

#[test]
fn a_read_target_must_be_a_file_inside_the_workspace() {
    assert_eq!(check_read_target("/ws/a", false, Some("/ws")), Ok(()));
    assert_eq!(
        check_read_target("/ws", true, None),
        Err(ReadFileError::InvalidFile("read target is a directory".to_string()))
    );
    assert_eq!(
        check_read_target("/etc/passwd", false, Some("/ws")),
        Err(ReadFileError::InvalidFile("path escapes workspace".to_string()))
    );
    assert_eq!(
        read_error_response(ReadFileError::NotFound("/x".to_string())),
        AppError::NotFound("/x".to_string())
    );
}

#[test]
fn a_query_range_must_fit() {
    assert_eq!(read_range(None, None).unwrap(), request(0, None));
    assert_eq!(read_range(Some(3), Some(4)).unwrap(), request(3, Some(4)));
}

#[test]
fn file_routes_name_their_target() {
    let mut registry = WorkspaceRegistry::new();
    registry
        .register("docs", "/srv/docs".to_string(), WorkspaceProperties::default())
        .unwrap();
    match file_target(&registry, Some("docs"), "a/b.txt").unwrap() {
        TargetFile::Workspace { workspace, relative_path } => {
            assert_eq!(workspace.id(), "docs");
            assert_eq!(relative_path, "a/b.txt");
        }
        other => panic!("expected a workspace target, got {other:?}"),
    }
    assert_eq!(
        file_target(&registry, None, "srv/x").unwrap(),
        TargetFile::Absolute("/srv/x".to_string())
    );
    assert_eq!(
        file_target(&registry, None, ""),
        Err(AppError::BadRequest("file path must not be empty".to_string()))
    );
    assert_eq!(
        file_target(&registry, Some("docs"), "../outside.txt"),
        Err(AppError::BadRequest("path must be normalized".to_string()))
    );
    assert!(matches!(
        file_target(&registry, Some("missing"), "a"),
        Err(AppError::NotFound(_))
    ));
}

#[test]
fn the_lines_operation_pages_through_a_file() {
    let page = lines_of_text("a\nb\nc\n", Some(1), Some(1)).unwrap();
    assert_eq!(page.lines, vec!["b"]);
    assert_eq!(page.offset, 1);
    assert!(page.truncated);
    let page = lines_of_text("a\nb\nc\n", Some(7), None).unwrap();
    assert!(page.lines.is_empty());
    assert_eq!(page.offset, 3);
    assert!(!page.truncated);
    assert_eq!(
        lines_of_text("a", None, Some(0)),
        Err(AppError::BadRequest("`limit` must be positive".to_string()))
    );
}

#[test]
fn quotes_the_length_and_the_modification_time() {
    let tag = etag(5, 1_700_000_000_123_456_789);
    assert!(tag.starts_with("\"5-"));
    assert!(tag.ends_with('"'));
    assert_eq!(tag, "\"5-1700000000123456789\"");
    assert_eq!(etag(0, 0), "\"0-0\"");
}

#[test]
fn numbers_are_written_in_decimal() {
    assert_eq!(decimal_text(0), "0");
    assert_eq!(decimal_text(10), "10");
    assert_eq!(decimal_text(u128::MAX), u128::MAX.to_string());
}

#[test]
fn modes_are_four_octal_digits() {
    assert_eq!(mode_text(0o100644), "0644");
    assert_eq!(mode_text(0o4755), "4755");
    assert_eq!(mode_text(0), "0000");
    assert_eq!(parse_mode("0o755"), Ok(0o755));
    assert_eq!(parse_mode("644"), Ok(0o644));
    assert_eq!(parse_mode("+7"), Ok(7));
    assert_eq!(parse_mode("8"), Err("invalid mode: 8".to_string()));
    assert_eq!(parse_mode(""), Err("invalid mode: ".to_string()));
    assert_eq!(parse_mode("0o"), Err("invalid mode: 0o".to_string()));
    assert_eq!(parse_mode("77777777777"), Err("invalid mode: 77777777777".to_string()));
    assert_eq!(parse_mode("37777777777"), Ok(u32::MAX));
}

#[test]
fn metadata_reports_the_kind_and_size() {
    assert_eq!(resource_kind(true, true), ResourceKind::Symlink);
    assert_eq!(resource_kind(false, true), ResourceKind::Directory);
    assert_eq!(resource_kind(false, false), ResourceKind::File);
    let facts = EntryFacts {
        is_symlink: false,
        is_dir: false,
        is_file: true,
        len: 5,
        modified_nanos: 7,
        modified_at: "2024-01-01T00:00:00+00:00".to_string(),
        accessed_at: None,
        birthtime: None,
        target: Some("ignored".to_string()),
        mode: 0o100600,
        uid: 1,
        gid: 2,
        inode: 3,
        links: 1,
        device: 9,
        device_type: 0,
        block_size: 4096,
        blocks: 8,
    };
    let described = describe("notes/a.txt", facts);
    assert_eq!(described.name, "a.txt");
    assert_eq!(described.path, "notes/a.txt");
    assert_eq!(described.size, 5);
    assert_eq!(described.etag, "\"5-7\"");
    assert_eq!(described.mode, Some("0600".to_string()));
    assert_eq!(described.target, None);
    assert_eq!(name_of(""), "");
}

#[test]
fn a_symlink_in_a_workspace_must_point_inside_it() {
    assert_eq!(check_symlink_target("/ws/dir/link", "/ws", "../other"), Ok(()));
    assert_eq!(
        check_symlink_target("/ws/dir/link", "/ws", "../../etc"),
        Err("symlink target escapes the workspace: ../../etc".to_string())
    );
    assert_eq!(
        check_symlink_target("/ws/link", "/ws", "/etc/passwd"),
        Err("symlink target escapes the workspace: /etc/passwd".to_string())
    );
    assert_eq!(check_symlink_target("/ws/link", "/ws", "/ws/x"), Ok(()));
}

#[test]
fn windows_a_listing() {
    let mut window_of = ListWindow::new(0, 2);
    assert!(window_of.offer("a"));
    assert!(window_of.offer("b"));
    assert!(!window_of.offer("c"));
    let (entries, truncated) = window_of.finish();
    assert_eq!(entries, vec!["a", "b"]);
    assert!(truncated);

    let mut skipped = ListWindow::new(2, 5);
    for item in [1, 2, 3] {
        assert!(skipped.offer(item));
    }
    assert_eq!(skipped.finish(), (vec![3], false));
}

#[test]
fn the_page_size_is_clamped() {
    assert_eq!(window(None), 1000);
    assert_eq!(window(Some(5)), 5);
    assert_eq!(window(Some(5000)), 1000);
}

#[test]
fn entries_keep_the_request_prefix() {
    assert_eq!(entry_address("docs", "a/b.txt"), "docs/a/b.txt");
    assert_eq!(entry_address("", "a"), "a");
    let info = EntryInfo {
        name: "b.txt".to_string(),
        is_dir: false,
        is_file: true,
        is_symlink: false,
        len: 3,
        modified_nanos: 1,
        modified_at: "t".to_string(),
    };
    let entry = resource_entry(info, "docs", "a/b.txt").unwrap();
    assert_eq!(entry.path, "docs/a/b.txt");
    assert_eq!(entry.kind, ResourceKind::File);
    assert_eq!(entry.size, 3);
    let odd = EntryInfo {
        name: "fifo".to_string(),
        is_dir: false,
        is_file: false,
        is_symlink: false,
        len: 0,
        modified_nanos: 0,
        modified_at: "t".to_string(),
    };
    assert_eq!(
        resource_entry(odd, "", "fifo"),
        Err(DirectoryError::Io("unsupported directory entry type".to_string()))
    );
}

#[test]
fn a_walk_reads_the_last_queued_directory_first() {
    let mut walk = DirWalk::new();
    assert_eq!(walk.next_dir(), Some(String::new()));
    walk.push_dir("a".to_string());
    walk.push_dir("b".to_string());
    assert_eq!(walk.next_dir(), Some("b".to_string()));
    assert_eq!(walk.next_dir(), Some("a".to_string()));
    assert_eq!(walk.next_dir(), None);
}

#[test]
fn creation_races_and_file_components_are_conflicts() {
    assert_eq!(
        create_error("/x", CreateFailure::AlreadyExists, "e".to_string()),
        DirectoryError::AlreadyExists("/x".to_string())
    );
    assert_eq!(
        create_error("/x", CreateFailure::NotADirectory, "e".to_string()),
        DirectoryError::ParentNotFound("/x".to_string())
    );
    assert_eq!(
        create_error("/x", CreateFailure::Other, "e".to_string()),
        DirectoryError::Io("e".to_string())
    );
    assert_eq!(
        DirectoryError::NotDirectory("d".to_string()).message(),
        "target is not a directory: d"
    );
}

#[test]
fn a_search_lists_matches_and_prunes_exclusions() {
    let filter = SearchFilter::compile("**/*.rs", &vec!["target".to_string()]).unwrap();
    let visit = filter.visit("src/main.rs", false);
    assert!(visit.listed);
    assert!(!visit.descend);
    let visit = filter.visit("src", true);
    assert!(!visit.listed);
    assert!(visit.descend);
    let visit = filter.visit("target", true);
    assert!(!visit.listed);
    assert!(!visit.descend);
    // `*` stays within one component.
    let shallow = SearchFilter::compile("*.rs", &Vec::new()).unwrap();
    assert!(!shallow.visit("src/main.rs", false).listed);
    assert!(shallow.visit("main.rs", false).listed);
}

#[test]
fn an_invalid_pattern_is_reported() {
    assert!(matches!(
        SearchFilter::compile("a[", &Vec::new()),
        Err(DirectoryError::InvalidPattern(_))
    ));
    assert!(matches!(
        SearchFilter::compile("*.rs", &vec!["{".to_string()]),
        Err(DirectoryError::InvalidPattern(_))
    ));
}

#[test]
fn text_reads_demand_utf8() {
    assert_eq!(text_content(b"caf\xc3\xa9".to_vec()), Ok("café".to_string()));
    assert_eq!(text_content(vec![0xff, 0x00]), Err(FileError::NotUtf8));
    assert_eq!(
        FileError::NotUtf8.message().unwrap(),
        "file content is not valid UTF-8; use `QUERY ?type=stream` for binary data"
    );
    assert_eq!(require_file("a.txt", true), Ok(()));
    assert_eq!(require_file("dir", false), Err(FileError::NotAFile("dir".to_string())));
    assert_eq!(require_absent("link", true), Err(FileError::AlreadyExists("link".to_string())));
    assert_eq!(require_absent("link", false), Ok(()));
}

#[test]
fn a_read_only_workspace_reports_nothing_writable() {
    let all = Access { readable: true, writable: true, executable: true };
    let read_only = Workspace::managed("skill-x".to_string(), "/skills/x".to_string());
    let read_write = Workspace::new("docs".to_string(), "/docs".to_string(), WorkspaceProperties::default());
    assert_eq!(
        effective_access(all, Some(&read_only)),
        Access { readable: true, writable: false, executable: true }
    );
    assert_eq!(effective_access(all, Some(&read_write)), all);
    assert_eq!(effective_access(all, None), all);
}

#[test]
fn writes_and_deletes_follow_the_entry_found() {
    assert_eq!(write_target("a", EntryLookup::Missing("gone".to_string())), Ok(true));
    assert_eq!(write_target("a", EntryLookup::NotDirectory), Ok(false));
    assert_eq!(write_target("d", EntryLookup::Directory), Err(FileError::NotAFile("d".to_string())));

    assert_eq!(
        deletion_target(Err(PathError::NotFound("x".to_string())), Some(true)),
        Ok(None)
    );
    assert_eq!(
        deletion_target(Err(PathError::NotFound("x".to_string())), None),
        Err(FileError::Path(PathError::NotFound("x".to_string())))
    );
    assert_eq!(deletion_target(Ok("/w/x".to_string()), None), Ok(Some("/w/x".to_string())));

    assert_eq!(deletion_step("d", EntryLookup::Directory, None, Some(true)), Ok(DeleteStep::RemoveTree));
    assert_eq!(
        deletion_step("d", EntryLookup::Directory, Some(true), None),
        Err(FileError::NotAFile("d".to_string()))
    );
    assert_eq!(deletion_step("f", EntryLookup::NotDirectory, None, None), Ok(DeleteStep::RemoveFile));
    assert_eq!(
        deletion_step("f", EntryLookup::Missing("gone".to_string()), Some(true), None),
        Ok(DeleteStep::Nothing)
    );
    assert_eq!(
        deletion_step("f", EntryLookup::Missing("gone".to_string()), None, None),
        Err(FileError::Io("gone".to_string()))
    );
}

fn info(name: &str, is_dir: bool, is_file: bool, is_symlink: bool) -> EntryInfo {
    EntryInfo {
        name: name.to_string(),
        is_dir,
        is_file,
        is_symlink,
        len: 1,
        modified_nanos: 0,
        modified_at: "1970-01-01T00:00:00+00:00".to_string(),
    }
}

fn run_search(offset: u64, limit: usize) -> (Vec<String>, bool, Vec<String>) {
    let filter = SearchFilter::compile("**/*.rs", &vec!["target".to_string()]).unwrap();
    let mut walk = SearchWalk::new(filter, String::new(), offset, limit);
    let mut read = Vec::new();
    while let Some(dir) = walk.next_dir() {
        let listing = match dir.as_str() {
            "" => vec![
                info("a.rs", false, true, false),
                info("src", true, false, false),
                info("target", true, false, false),
                info("x.rs", false, false, true),
            ],
            "src" => vec![info("main.rs", false, true, false), info("deep", true, false, false)],
            _ => Vec::new(),
        };
        read.push(dir.clone());
        walk.take_listing(&dir, listing).unwrap();
    }
    let (entries, truncated) = walk.finish();
    (entries.into_iter().map(|e| e.path).collect(), truncated, read)
}

#[test]
fn a_search_walks_the_tree_and_prunes_exclusions() {
    let (paths, truncated, read) = run_search(0, 10);
    assert_eq!(paths, vec!["a.rs", "x.rs", "src/main.rs"]);
    assert!(!truncated);
    assert_eq!(read, vec!["", "src", "src/deep"]);

    let (paths, truncated, _) = run_search(1, 1);
    assert_eq!(paths, vec!["x.rs"]);
    assert!(truncated);
}

#[test]
fn a_search_refuses_an_unsupported_entry() {
    let filter = SearchFilter::compile("*", &Vec::new()).unwrap();
    let mut walk = SearchWalk::new(filter, String::new(), 0, 10);
    let dir = walk.next_dir().unwrap();
    assert_eq!(
        walk.take_listing(&dir, vec![info("fifo", false, false, false)]),
        Err(DirectoryError::Io("unsupported directory entry type".to_string()))
    );
}

#[test]
fn creating_a_directory_starts_by_looking_at_its_path() {
    assert_eq!(creation_start("/w/a/b", Presence::Missing, Some(true)), Ok(CreateStart::CreateAll));
    assert_eq!(
        creation_start("/w/a/b", Presence::Missing, None),
        Ok(CreateStart::CheckParent("/w/a".to_string()))
    );
    assert_eq!(
        creation_start("/w/a/b", Presence::Directory, Some(true)),
        Err(DirectoryError::AlreadyExists("/w/a/b".to_string()))
    );
    assert_eq!(
        creation_start("/w/a/b", Presence::Other, None),
        Err(DirectoryError::AlreadyExists("/w/a/b".to_string()))
    );
    assert_eq!(
        creation_start("/w/a/b", Presence::Failed("denied".to_string()), None),
        Err(DirectoryError::Io("denied".to_string()))
    );
    assert_eq!(
        creation_start("/", Presence::Missing, Some(false)),
        Err(DirectoryError::ParentNotFound("/".to_string()))
    );
}

#[test]
fn a_plain_creation_needs_a_directory_as_parent() {
    assert_eq!(parent_checked("/w/a", Presence::Directory), Ok(()));
    assert_eq!(parent_checked("/w/a", Presence::Missing), Err(DirectoryError::ParentNotFound("/w/a".to_string())));
    assert_eq!(parent_checked("/w/a", Presence::Other), Err(DirectoryError::ParentNotFound("/w/a".to_string())));
    assert_eq!(
        parent_checked("/w/a", Presence::Failed("denied".to_string())),
        Err(DirectoryError::Io("denied".to_string()))
    );
}

#[test]
fn a_symlink_stays_inside_its_workspace() {
    assert_eq!(
        symlink_checks("/w/l", "/w/l", true, Some("/w"), "t"),
        Err(FileError::AlreadyExists("/w/l".to_string()))
    );
    assert_eq!(symlink_checks("/w/l", "/w/l", false, Some("/w"), "sub/t"), Ok(()));
    assert_eq!(symlink_checks("/w/l", "/w/l", false, Some("/w"), "/w/x"), Ok(()));
    assert_eq!(
        symlink_checks("/w/l", "/w/l", false, Some("/w"), "../etc/passwd"),
        Err(FileError::BadRequest("symlink target escapes the workspace: ../etc/passwd".to_string()))
    );
    assert_eq!(symlink_checks("/tmp/l", "/tmp/l", false, None, "/etc/passwd"), Ok(()));
}

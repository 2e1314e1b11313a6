use sandbox_toolkit::address::{decode_absolute, decode_relative};
use sandbox_toolkit::path::{file_name, is_absolute, join, normalize, parent, starts_with};
use sandbox_toolkit::resolve::{
    canonicalized, entry_checked, entry_plan, resolve_candidate, resolve_checked, resolve_new, Canonical, EntryPlan,
    PathError,
};

#[test]
fn decodes_relative_addresses() {
    assert_eq!(decode_relative(""), "");
    assert_eq!(decode_relative("a/b.txt"), "a/b.txt");
    assert_eq!(decode_relative("a%20b/c"), "a b/c", "a percent escape decodes once");
}

#[test]
fn decodes_absolute_addresses() {
    assert_eq!(decode_absolute(""), "/");
    assert_eq!(decode_absolute("srv/project/a.txt"), "/srv/project/a.txt");
}

#[test]
fn a_percent_escape_is_not_decoded_twice() {
    assert_eq!(decode_relative("a%2520b"), "a%20b");
    assert_eq!(decode_absolute("x%2Fy"), "/x/y");
}

#[test]
fn normalizes_dots_lexically() {
    assert_eq!(normalize("/a/./b/../c"), "/a/c");
    assert_eq!(normalize("/../a"), "/a");
    assert_eq!(normalize("a/../../b"), "b");
    assert_eq!(normalize("./a//b/"), "a/b");
    assert_eq!(normalize(""), "");
    assert_eq!(normalize("/"), "/");
}

#[test]
fn normalizing_twice_changes_nothing() {
    for path in ["/a/./b/../c", "a/../../b", "./x/y/./", "/..", "a//b///c/.."] {
        let once = normalize(path);
        assert_eq!(normalize(&once), once);
    }
}

#[test]
fn joins_like_a_path_buffer() {
    assert_eq!(join("/root", "a/b"), "/root/a/b");
    assert_eq!(join("/root/", "a"), "/root/a");
    assert_eq!(join("/root", "/etc"), "/etc");
    assert_eq!(join("", "a"), "a");
}

#[test]
fn prefixes_are_whole_components() {
    assert!(starts_with("/srv/data/file", "/srv/data"));
    assert!(starts_with("/srv/data", "/srv/data/"));
    assert!(!starts_with("/srv/database", "/srv/data"));
    assert!(starts_with("/srv//data", "/srv/data"));
    assert!(!starts_with("srv/data", "/srv"));
}

#[test]
fn names_and_parents() {
    assert_eq!(file_name("/a/b.txt"), Some("b.txt".to_string()));
    assert_eq!(file_name("/a/b/"), Some("b".to_string()));
    assert_eq!(file_name("/"), None);
    assert_eq!(file_name("a/.."), None);
    assert_eq!(parent("/a/b"), Some("/a".to_string()));
    assert_eq!(parent("a"), Some("".to_string()));
    assert_eq!(parent("/"), None);
    assert!(is_absolute("/x"));
    assert!(!is_absolute("x/"));
}

#[test]
fn the_addressing_mode_decides_which_paths_are_accepted() {
    assert_eq!(resolve_candidate(Some("/ws"), "a/b").unwrap(), "/ws/a/b");
    assert_eq!(resolve_candidate(None, "/abs").unwrap(), "/abs");
    assert!(matches!(
        resolve_candidate(Some("/ws"), "/abs"),
        Err(PathError::InvalidPath { .. })
    ));
    assert!(matches!(
        resolve_candidate(None, "rel"),
        Err(PathError::InvalidPath { .. })
    ));
}

#[test]
fn a_canonical_target_must_stay_in_the_workspace() {
    assert_eq!(
        resolve_checked(Some("/ws"), "a", Canonical::Resolved("/ws/a".to_string())).unwrap(),
        "/ws/a"
    );
    match resolve_checked(Some("/ws"), "link", Canonical::Resolved("/etc/passwd".to_string())) {
        Err(PathError::InvalidPath { path, reason }) => {
            assert_eq!(path, "link");
            assert_eq!(reason, "path escapes workspace");
        }
        other => panic!("expected an escape, got {other:?}"),
    }
    assert_eq!(
        resolve_checked(None, "/x", Canonical::Missing),
        Err(PathError::NotFound("/x".to_string()))
    );
    assert_eq!(
        canonicalized(Canonical::Failed("boom".to_string()), "/x"),
        Err(PathError::Io("boom".to_string()))
    );
}

#[test]
fn an_entry_is_resolved_through_its_parent() {
    match entry_plan(Some("/ws"), "dir/link").unwrap() {
        EntryPlan::Parent { parent, name } => {
            assert_eq!(parent, "/ws/dir");
            assert_eq!(name, "link");
        }
        other => panic!("expected a parent plan, got {other:?}"),
    }
    assert_eq!(entry_plan(Some("/ws"), "").unwrap(), EntryPlan::Resolve);
    assert_eq!(
        entry_checked(Some("/ws"), "dir/link", "link", Canonical::Resolved("/ws/dir".to_string())).unwrap(),
        "/ws/dir/link"
    );
}

#[test]
fn a_new_path_is_normalized_and_confined() {
    assert_eq!(resolve_new(Some("/ws"), "a/./b").unwrap(), "/ws/a/b");
    assert!(matches!(
        resolve_new(Some("/ws"), "../outside"),
        Err(PathError::InvalidPath { .. })
    ));
    assert_eq!(resolve_new(None, "/x/../y").unwrap(), "/y");
}

#[test]
fn an_entry_stays_under_the_root_its_parent_resolved_in() {
    assert_eq!(
        entry_checked(Some("/ws"), "a/b", "b", Canonical::Resolved("/ws/a/".to_string())).unwrap(),
        "/ws/a/b"
    );
    assert!(entry_checked(Some("/ws"), "a/b", "b", Canonical::Resolved("/etc".to_string())).is_err());
    assert!(entry_checked(Some("/ws"), "a/b", "b", Canonical::Resolved("/wsx".to_string())).is_err());
    assert_eq!(
        entry_checked(None, "/a/b", "b", Canonical::Resolved("/a".to_string())).unwrap(),
        "/a/b"
    );
}

use sandbox_toolkit::binaries::{checked_payload, digest_matches, digest_of, dir_under, is_current, BinaryError};
use sandbox_toolkit::metadata::{parse_modified, stream_facts, timestamp, EpochTime, ResourceKind};
use sandbox_toolkit::ordering::sort_by_key;
use sandbox_toolkit::plugins::{analyze, plugin_files, raw_entry_path, PluginError};
use sandbox_toolkit::server_fs::{
    absolute, check_empty, ensure_distinct, millis, mkdir_check, remove_step, resource_from, transfer_checks, transfer_plan,
    write_check, FsError, RemoveStep, ResourceFacts, SourceLookup, Transfer,
};
use sandbox_toolkit::skills::{is_not_found, mount_error, SkillError};
use sandbox_toolkit::workspace::{checked_root, RootCheck, WorkspaceError};

#[test]
fn materialized_dir_is_under_home() {
    assert_eq!(
        dir_under(Some("/home/example".into())).unwrap(),
        "/home/example/.sandbox-toolkit/bin"
    );
    assert!(matches!(dir_under(None), Err(BinaryError::MissingHome)));
    assert!(matches!(dir_under(Some("".into())), Err(BinaryError::MissingHome)));
}

#[test]
fn digests_come_from_the_manifest() {
    let manifest = vec![("fd".to_string(), [1u8; 32]), ("rg".to_string(), [2u8; 32])];
    assert_eq!(digest_of(&manifest, "rg"), Ok([2u8; 32]));
    assert_eq!(
        digest_of(&manifest, "jq"),
        Err(BinaryError::MissingDigest { binary: "jq".to_string() })
    );
    assert!(digest_matches(Some([2u8; 32]), &[2u8; 32]));
    assert!(!digest_matches(Some([3u8; 32]), &[2u8; 32]));
    assert!(!digest_matches(None, &[2u8; 32]));
    assert_eq!(
        BinaryError::Corrupt { binary: "fd".to_string() }.message(),
        "the embedded payload for `fd` does not match its manifest digest"
    );
}

#[test]
fn server_paths_must_be_absolute() {
    assert_eq!(absolute("  "), Err(FsError::EmptyPath));
    assert_eq!(absolute("a/b"), Err(FsError::RelativePath("a/b".to_string())));
    assert_eq!(absolute("/a/b"), Ok("/a/b".to_string()));
    assert_eq!(FsError::RelativePath("a".to_string()).message(), "path must be absolute: a");
}

#[test]
fn a_copy_onto_itself_is_refused() {
    assert_eq!(ensure_distinct("/a/b", "/a/b/"), Err(FsError::SamePath("/a/b".to_string())));
    assert_eq!(ensure_distinct("/a/b", "/a/c"), Ok(()));
}

#[test]
fn transfers_respect_the_tree() {
    assert_eq!(
        transfer_plan(Transfer::Copy, "/a", "/a/b", false, None),
        Err(FsError::DestinationInsideSource("/a/b".to_string()))
    );
    assert_eq!(transfer_plan(Transfer::Move, "/a", "/a/b", false, None), Ok(false));
    assert_eq!(
        transfer_plan(Transfer::Copy, "/a", "/b", true, None),
        Err(FsError::AlreadyExists("/b".to_string()))
    );
    assert_eq!(
        transfer_plan(Transfer::Move, "/b/c", "/b", true, Some(true)),
        Err(FsError::SourceInsideDestination("/b".to_string()))
    );
    assert_eq!(transfer_plan(Transfer::Copy, "/a", "/b", true, Some(true)), Ok(true));
}

#[test]
fn removal_and_creation_rules() {
    assert_eq!(remove_step(true, Some(true)), RemoveStep::RemoveTree);
    assert_eq!(remove_step(true, None), RemoveStep::RemoveEmptyDirectory);
    assert_eq!(remove_step(false, Some(true)), RemoveStep::RemoveFile);
    assert_eq!(check_empty("/d", false), Err(FsError::DirectoryNotEmpty("/d".to_string())));
    assert_eq!(mkdir_check("/d", None, true), Err(FsError::AlreadyExists("/d".to_string())));
    assert_eq!(mkdir_check("/d", Some(true), true), Ok(true));
    assert_eq!(write_check("/d", true), Err(FsError::IsADirectory("/d".to_string())));
    assert_eq!(millis(Some(5)), Some(5));
    assert_eq!(millis(Some(u128::MAX)), None);
}

#[test]
fn resources_report_links_and_times() {
    let facts = ResourceFacts {
        is_symlink: true,
        is_dir: false,
        len: 4,
        modified_ms: Some(1000),
        created_ms: None,
        read_only: false,
        link_target: Some("/t".to_string()),
    };
    let resource = resource_from("/a/link", facts);
    assert_eq!(resource.name, "link");
    assert_eq!(resource.kind, ResourceKind::Symlink);
    assert_eq!(resource.target, Some("/t".to_string()));
    assert_eq!(resource.modified_at, Some(1000));
}

#[test]
fn listings_sort_by_name_and_keep_ties_in_order() {
    let items = vec![
        ("b".to_string(), 1),
        ("a".to_string(), 2),
        ("b".to_string(), 3),
        ("ab".to_string(), 4),
    ];
    let sorted: Vec<i32> = sort_by_key(items).into_iter().map(|(_, v)| v).collect();
    assert_eq!(sorted, vec![2, 4, 1, 3]);
}

fn tar_gz(entries: &[(&[u8], &[u8])]) -> Vec<u8> {
    let mut builder = tar::Builder::new(Vec::new());
    for (path, contents) in entries {
        let mut header = tar::Header::new_gnu();
        header.as_old_mut().name[..path.len()].copy_from_slice(path);
        header.set_size(contents.len() as u64);
        header.set_mode(0o644);
        header.set_entry_type(tar::EntryType::Regular);
        header.set_cksum();
        builder.append(&header, *contents).unwrap();
    }
    let tar = builder.into_inner().unwrap();
    let mut encoder = flate2::write::GzEncoder::new(Vec::new(), flate2::Compression::default());
    std::io::Write::write_all(&mut encoder, &tar).unwrap();
    encoder.finish().unwrap()
}

#[test]
fn an_archive_is_read_within_its_limits() {
    let archive = tar_gz(&[
        (b"pkg/plugin.json", b"{}"),
        (b"pkg/./skills/a/SKILL.md", b"body"),
        (b"pkg/plugin.json", b"{\"name\":\"x\"}"),
    ]);
    assert_eq!(
        plugin_files(&archive),
        Ok(vec![
            ("plugin.json".to_string(), b"{\"name\":\"x\"}".to_vec()),
            ("skills/a/SKILL.md".to_string(), b"body".to_vec()),
        ])
    );
    assert!(analyze(&archive).is_ok());

    assert_eq!(
        plugin_files(&tar_gz(&[(b"../evil", b"x")])),
        Err(PluginError::InvalidArchive("archive entry escapes the plugin root: ../evil".to_string()))
    );
    assert_eq!(
        plugin_files(&tar_gz(&[(b"/etc/passwd", b"x")])),
        Err(PluginError::InvalidArchive("archive entry uses an absolute path: /etc/passwd".to_string()))
    );
    assert_eq!(
        plugin_files(&tar_gz(&[(b"bad\xff", b"x")])),
        Err(PluginError::InvalidArchive("archive entry path is not valid UTF-8: bad\u{fffd}".to_string()))
    );
    assert_eq!(plugin_files(b""), Err(PluginError::EmptyBody));
    assert!(matches!(plugin_files(b"not a gzip stream"), Err(PluginError::InvalidArchive(_))));
    assert!(matches!(analyze(b""), Err(PluginError::EmptyBody)));
}

#[test]
fn roots_are_checked_before_registration() {
    assert_eq!(checked_root("/srv", RootCheck::Canonical("/real/srv".to_string())), Ok("/real/srv".to_string()));
    assert_eq!(
        checked_root("srv", RootCheck::Canonical("/x".to_string())),
        Err(WorkspaceError::InvalidRoot { root: "srv".to_string(), reason: "must be an absolute path".to_string() })
    );
    assert_eq!(
        checked_root("/srv", RootCheck::NotDirectory),
        Err(WorkspaceError::InvalidRoot { root: "/srv".to_string(), reason: "must be a directory".to_string() })
    );
}

#[test]
fn mount_failures_read_as_skill_errors() {
    assert_eq!(
        mount_error("docs", &WorkspaceError::NotFound { id: "docs".to_string() }),
        SkillError::WorkspaceNotFound("docs".to_string())
    );
    assert_eq!(
        mount_error("docs", &WorkspaceError::ReadOnly { id: "docs".to_string() }),
        SkillError::InvalidWorkspaceId("docs".to_string())
    );
    assert!(is_not_found(&SkillError::SkillNotFound("x".to_string())));
    assert!(!is_not_found(&SkillError::BadRequest("x".to_string())));
}

#[test]
fn a_copy_is_current_only_when_it_hashes_to_the_digest() {
    let digest = *blake3::hash(b"#!/bin/sh\n").as_bytes();
    assert!(is_current(Some(b"#!/bin/sh\n"), &digest));
    assert!(!is_current(Some(b"#!/bin/bash\n"), &digest));
    assert!(!is_current(Some(b""), &digest));
    assert!(!is_current(None, &digest));
}

#[test]
fn a_payload_is_decompressed_and_checked_against_its_digest() {
    let tool = b"the tool's bytes".to_vec();
    let payload = zstd::stream::encode_all(&tool[..], 0).unwrap();
    let digest = *blake3::hash(&tool).as_bytes();

    assert_eq!(checked_payload("fd", "/bin/fd", &payload, &digest), Ok(tool));
    assert_eq!(
        checked_payload("fd", "/bin/fd", &payload, &[0u8; 32]),
        Err(BinaryError::Corrupt { binary: "fd".to_string() })
    );
    assert!(matches!(
        checked_payload("fd", "/bin/fd", b"not zstd", &digest),
        Err(BinaryError::Materialize { binary, destination, .. }) if binary == "fd" && destination == "/bin/fd"
    ));
}

#[test]
fn timestamps_are_written_and_read_as_rfc3339() {
    assert_eq!(
        timestamp(EpochTime { secs: 0, nanos: 0 }),
        Some("1970-01-01T00:00:00+00:00".to_string())
    );
    assert_eq!(
        timestamp(EpochTime { secs: 1704164645, nanos: 500_000_000 }),
        Some("2024-01-02T03:04:05.500+00:00".to_string())
    );
    assert_eq!(timestamp(EpochTime { secs: i64::MAX, nanos: 0 }), None);
    assert_eq!(
        parse_modified("2024-01-02T03:04:05Z"),
        Ok(EpochTime { secs: 1704164645, nanos: 0 })
    );
    assert_eq!(
        parse_modified("2024-01-02T05:04:05+02:00"),
        Ok(EpochTime { secs: 1704164645, nanos: 0 })
    );
    assert_eq!(parse_modified("yesterday"), Err("invalid modified_at: yesterday".to_string()));
}

#[test]
fn a_stream_carries_its_validator_and_guessed_type() {
    let facts = stream_facts("/data/notes.txt", 5, 7);
    assert_eq!(facts.size, 5);
    assert_eq!(facts.etag, "\"5-7\"");
    assert_eq!(facts.content_type, "text/plain");
    assert_eq!(stream_facts("/data/archive.zzzunknown", 0, 0).content_type, "application/octet-stream");
    assert_eq!(stream_facts("/data/page.html", 0, 0).content_type, "text/html");
}

#[test]
fn a_transfer_checks_its_paths_in_order() {
    let copy = Transfer::Copy;
    assert_eq!(transfer_checks(copy, " ", "/b", SourceLookup::Found, false, None), Err(FsError::EmptyPath));
    assert_eq!(
        transfer_checks(copy, "a", "/b", SourceLookup::Found, false, None),
        Err(FsError::RelativePath("a".to_string()))
    );
    assert_eq!(transfer_checks(copy, "/a", "", SourceLookup::Found, false, None), Err(FsError::EmptyPath));
    assert_eq!(
        transfer_checks(copy, "/a", "b", SourceLookup::Found, false, None),
        Err(FsError::RelativePath("b".to_string()))
    );
    assert_eq!(
        transfer_checks(copy, "/a", "/a/", SourceLookup::Found, false, None),
        Err(FsError::SamePath("/a".to_string()))
    );
    assert_eq!(
        transfer_checks(copy, "/a", "/b", SourceLookup::Missing, false, None),
        Err(FsError::NotFound("/a".to_string()))
    );
    assert_eq!(
        transfer_checks(copy, "/a", "/b", SourceLookup::Failed("denied".to_string()), false, None),
        Err(FsError::Io("denied".to_string()))
    );
    assert_eq!(
        transfer_checks(copy, "/a", "/a/b", SourceLookup::Found, false, None),
        Err(FsError::DestinationInsideSource("/a/b".to_string()))
    );
    assert_eq!(
        transfer_checks(Transfer::Move, "/a", "/b", SourceLookup::Found, true, None),
        Err(FsError::AlreadyExists("/b".to_string()))
    );
    assert_eq!(transfer_checks(Transfer::Move, "/a", "/b", SourceLookup::Found, true, Some(true)), Ok(true));
    assert_eq!(transfer_checks(copy, "/a", "/b", SourceLookup::Found, false, None), Ok(false));
}

#[test]
fn the_first_bad_component_of_an_entry_path_decides() {
    assert_eq!(
        plugin_files(&tar_gz(&[(b"../\xff", b"x")])),
        Err(PluginError::InvalidArchive("archive entry escapes the plugin root: ../\u{fffd}".to_string()))
    );
    assert_eq!(
        plugin_files(&tar_gz(&[(b"/\xff", b"x")])),
        Err(PluginError::InvalidArchive("archive entry uses an absolute path: /\u{fffd}".to_string()))
    );
    assert_eq!(
        raw_entry_path(&b"a/\xfe/../b".to_vec()),
        Err(PluginError::InvalidArchive("archive entry path is not valid UTF-8: a/\u{fffd}/../b".to_string()))
    );
    assert_eq!(raw_entry_path(&b"./a//b/./c/".to_vec()), Ok(Some("a/b/c".to_string())));
    assert_eq!(raw_entry_path(&"d\u{e9}j\u{e0}/x".as_bytes().to_vec()), Ok(Some("d\u{e9}j\u{e0}/x".to_string())));
    assert_eq!(raw_entry_path(&b"./.".to_vec()), Ok(None));
}

use sandbox_toolkit::api::{parse_depth, parse_type, validate_path, AppError, FileDepth, FsMethod, FsOperation, FsTarget};
use sandbox_toolkit::target::TargetFile;
use sandbox_toolkit::workspace::{
    env_name, require_absolute_root, validate_id, Workspace, WorkspaceAccess, WorkspaceError, WorkspaceProperties,
    WorkspaceRegistry,
};

fn name_of(id: &str) -> String {
    Workspace::new(id.to_string(), String::new(), WorkspaceProperties::default()).env().0
}

#[test]
fn derives_environment_variable_names_from_ids() {
    for (id, name) in [
        ("docs", "WORKSPACE_DOCS"),
        ("my-project", "WORKSPACE_MY_PROJECT"),
        ("a1", "WORKSPACE_A1"),
    ] {
        assert_eq!(name_of(id), name);
    }

    assert_ne!(name_of("a-b"), name_of("ab"));
}

#[test]
fn ids_follow_the_shared_rule() {
    for id in ["docs", "a1", "my-project", "x-1-y"] {
        assert_eq!(validate_id(id), Ok(()));
    }
    for id in ["", "-a", "a-", "a--b", "Docs", "a_b", "a b", "é"] {
        assert_eq!(
            validate_id(id),
            Err(WorkspaceError::InvalidId { id: id.to_string() })
        );
    }
    assert_eq!(env_name("x-1"), "WORKSPACE_X_1");
}

#[test]
fn a_registered_workspace_is_found_again() {
    let mut registry = WorkspaceRegistry::new();
    let handle = registry
        .register("docs", "/srv/docs".to_string(), WorkspaceProperties::default())
        .unwrap();
    assert_eq!(handle.id(), "docs");
    assert_eq!(handle.properties().access, WorkspaceAccess::ReadWrite);

    let workspace = registry.workspace("docs").unwrap();
    assert_eq!(workspace.id(), "docs");
    assert_eq!(workspace.root(), "/srv/docs");
    assert_eq!(registry.get("docs").unwrap().id(), "docs");
    assert_eq!(
        registry.get("missing"),
        Err(WorkspaceError::NotFound { id: "missing".to_string() })
    );
}

#[test]
fn a_duplicate_or_invalid_id_is_refused_and_changes_nothing() {
    let mut registry = WorkspaceRegistry::new();
    registry
        .register("docs", "/a".to_string(), WorkspaceProperties::default())
        .unwrap();
    assert_eq!(
        registry.register("docs", "/b".to_string(), WorkspaceProperties::default()),
        Err(WorkspaceError::AlreadyExists { id: "docs".to_string() })
    );
    assert_eq!(
        registry.register("Bad", "/b".to_string(), WorkspaceProperties::default()),
        Err(WorkspaceError::InvalidId { id: "Bad".to_string() })
    );
    assert_eq!(registry.list().len(), 1);
    assert_eq!(registry.workspace("docs").unwrap().root(), "/a");
}

#[test]
fn listings_and_variables_come_in_id_order() {
    let mut registry = WorkspaceRegistry::new();
    for id in ["zeta", "alpha", "mid"] {
        registry
            .register(id, format!("/srv/{id}"), WorkspaceProperties::default())
            .unwrap();
    }
    let ids: Vec<String> = registry.list().iter().map(|h| h.id().to_string()).collect();
    assert_eq!(ids, vec!["alpha", "mid", "zeta"]);
    assert_eq!(
        registry.env(),
        vec![
            ("WORKSPACE_ALPHA".to_string(), "/srv/alpha".to_string()),
            ("WORKSPACE_MID".to_string(), "/srv/mid".to_string()),
            ("WORKSPACE_ZETA".to_string(), "/srv/zeta".to_string()),
        ]
    );
}

#[test]
fn a_removed_workspace_is_gone() {
    let mut registry = WorkspaceRegistry::default();
    registry
        .register("docs", "/a".to_string(), WorkspaceProperties::default())
        .unwrap();
    assert_eq!(registry.remove("docs"), Ok(()));
    assert!(registry.workspace("docs").is_err());
    assert_eq!(
        registry.remove("docs"),
        Err(WorkspaceError::NotFound { id: "docs".to_string() })
    );
}

#[test]
fn a_read_only_workspace_refuses_mutations() {
    let sealed = Workspace::new(
        "sealed".to_string(),
        "/s".to_string(),
        WorkspaceProperties { access: WorkspaceAccess::ReadOnly },
    );
    assert_eq!(
        sealed.require_writable(),
        Err(WorkspaceError::ReadOnly { id: "sealed".to_string() })
    );
    let managed = Workspace::managed("skill-x".to_string(), "/m".to_string());
    assert_eq!(managed.access(), WorkspaceAccess::ReadOnly);
    let target = FsTarget { workspace: Some(sealed) };
    assert_eq!(
        target.require_writable(),
        Err(AppError::ReadOnlyWorkspace("sealed".to_string()))
    );
    assert_eq!(FsTarget { workspace: None }.require_writable(), Ok(()));
}

#[test]
fn roots_must_be_absolute() {
    assert_eq!(require_absolute_root("/srv"), Ok(()));
    assert!(matches!(
        require_absolute_root("srv"),
        Err(WorkspaceError::InvalidRoot { .. })
    ));
}

#[test]
fn target_target_files_keep_their_addressing_mode() {
    let mut registry = WorkspaceRegistry::new();
    registry
        .register("docs", "/srv/docs".to_string(), WorkspaceProperties::default())
        .unwrap();

    let workspace = TargetFile::workspace(&registry, "docs", "notes/todo.txt".to_string()).unwrap();
    assert_eq!(workspace.address(), "notes/todo.txt");
    assert_eq!(workspace.path(), "/srv/docs/notes/todo.txt");
    assert_eq!(workspace.workspace_root(), Some("/srv/docs"));

    let absolute = TargetFile::Absolute("/tmp/notes/todo.txt".to_string());
    assert_eq!(absolute.address(), "/tmp/notes/todo.txt");
    assert_eq!(absolute.path(), "/tmp/notes/todo.txt");
    assert_eq!(absolute.workspace_root(), None);

    assert_eq!(
        TargetFile::workspace(&registry, "missing", String::new()),
        Err(WorkspaceError::NotFound { id: "missing".to_owned() })
    );
}

#[test]
fn target_mutations_require_a_writable_workspace() {
    let mut registry = WorkspaceRegistry::new();
    registry
        .register("docs", "/srv".to_string(), WorkspaceProperties::default())
        .unwrap();
    registry
        .register("sealed", "/srv".to_string(), WorkspaceProperties { access: WorkspaceAccess::ReadOnly })
        .unwrap();

    let writable = TargetFile::workspace(&registry, "docs", "note.txt".to_string()).unwrap();
    assert_eq!(writable.require_writable(), Ok(()));

    let sealed = TargetFile::workspace(&registry, "sealed", "note.txt".to_string()).unwrap();
    assert_eq!(
        sealed.require_writable(),
        Err(WorkspaceError::ReadOnly { id: "sealed".to_owned() })
    );

    assert_eq!(TargetFile::Absolute("/srv".to_owned()).require_writable(), Ok(()));
}

#[test]
fn errors_carry_a_status_code_and_message() {
    let error = AppError::from_workspace_error(WorkspaceError::NotFound { id: "x".to_string() });
    assert_eq!(error, AppError::NotFound("workspace `x`".to_string()));
    assert_eq!(error.status(), 404);
    assert_eq!(error.code(), "not_found");
    assert_eq!(error.message(), "not found: workspace `x`");
    assert_eq!(AppError::Internal("boom".to_string()).status(), 500);
    assert_eq!(AppError::ReadOnlyWorkspace("d".to_string()).status(), 403);
    assert_eq!(AppError::UnsupportedType("t".to_string()).status(), 422);
}

#[test]
fn workspace_paths_must_be_relative_and_normalized() {
    assert_eq!(validate_path("a/b.txt"), Ok("a/b.txt".to_string()));
    assert_eq!(
        validate_path("/etc"),
        Err(AppError::BadRequest("workspace path must be relative".to_string()))
    );
    assert_eq!(
        validate_path("a/../b"),
        Err(AppError::BadRequest("path must be normalized".to_string()))
    );
    assert_eq!(
        validate_path("a\0b"),
        Err(AppError::BadRequest("path must not contain NUL".to_string()))
    );
}

#[test]
fn the_type_selects_an_operation_of_the_method() {
    assert_eq!(parse_type(Some("content"), FsMethod::Query), Ok(FsOperation::Content));
    assert!(matches!(
        parse_type(Some("content"), FsMethod::Put),
        Err(AppError::MethodNotAllowed(_))
    ));
    assert_eq!(
        parse_type(Some("nope"), FsMethod::Query),
        Err(AppError::UnsupportedType("nope".to_string()))
    );
    assert!(matches!(parse_type(None, FsMethod::Post), Err(AppError::UnsupportedType(_))));
}

#[test]
fn depth_is_zero_or_one() {
    assert_eq!(parse_depth(None), Ok(FileDepth::Zero));
    assert_eq!(parse_depth(Some(b"1")), Ok(FileDepth::One));
    assert_eq!(
        parse_depth(Some(b"infinity")),
        Err(AppError::BadRequest("Depth must be 0 or 1".to_string()))
    );
}

#[test]
fn removing_what_was_registered_restores_the_registry() {
    let mut registry = WorkspaceRegistry::new();
    registry.register("alpha", "/srv/alpha".to_string(), WorkspaceProperties::default()).unwrap();
    registry
        .register("gamma", "/srv/gamma".to_string(), WorkspaceProperties { access: WorkspaceAccess::ReadOnly })
        .unwrap();
    let before = registry.list();
    let env_before = registry.env();

    registry.register("beta", "/srv/beta".to_string(), WorkspaceProperties::default()).unwrap();
    assert_eq!(registry.list().len(), 3);
    registry.remove("beta").unwrap();

    assert_eq!(registry.list(), before);
    assert_eq!(registry.env(), env_before);
    assert!(registry.get("beta").is_err());
}

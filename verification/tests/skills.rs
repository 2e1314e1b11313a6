use sandbox_toolkit::skills::{
    derived_candidates, derived_workspace_id, is_plain_name, page, skill_uri, sort_longest_first, strip_prefix,
    validate_skill_id, discover, SkillEntry, SkillError,
};

#[test]
fn derives_the_workspace_id_from_the_mount() {
    assert_eq!(derived_workspace_id(None, "deploy"), "skill-deploy");
    assert_eq!(derived_workspace_id(Some("docs"), "deploy"), "skill-docs-deploy");
}

#[test]
fn skill_ids_are_short_valid_ids() {
    assert_eq!(validate_skill_id("deploy"), Ok(()));
    assert_eq!(
        validate_skill_id("Deploy"),
        Err(SkillError::InvalidSkillId("Deploy".to_string()))
    );
    let long = "a".repeat(65);
    assert_eq!(validate_skill_id(&long), Err(SkillError::InvalidSkillId(long.clone())));
    assert_eq!(validate_skill_id(&"a".repeat(64)), Ok(()));
}

#[test]
fn skills_are_served_under_their_mount() {
    assert_eq!(skill_uri(None, "deploy"), "/skills/deploy");
    assert_eq!(skill_uri(Some("docs"), "deploy"), "/workspaces/docs/skills/deploy");
}

#[test]
fn a_listing_page_clamps_its_offset() {
    let items = vec![1, 2, 3, 4, 5];
    assert_eq!(page(items.clone(), Some(1), Some(2)).unwrap(), vec![2, 3]);
    assert_eq!(page(items.clone(), Some(9), None).unwrap(), Vec::<i32>::new());
    assert_eq!(page(items.clone(), None, None).unwrap(), items);
    assert_eq!(page(items.clone(), Some(4), Some(10)).unwrap(), vec![5]);
    assert_eq!(
        page(items, None, Some(0)),
        Err(SkillError::BadRequest("`limit` must be positive".to_string()))
    );
}

#[test]
fn a_derived_id_lists_its_mounts_longest_workspace_first() {
    let workspaces = vec!["docs".to_string(), "docs-api".to_string(), "other".to_string()];
    let candidates = derived_candidates("skill-docs-api-deploy", &workspaces).unwrap();
    assert_eq!(candidates.global_skill, "docs-api-deploy");
    assert_eq!(
        candidates.mounts,
        vec![
            ("docs-api".to_string(), "deploy".to_string()),
            ("docs".to_string(), "api-deploy".to_string()),
        ]
    );
    assert_eq!(derived_candidates("skill-", &workspaces), None);
    assert_eq!(derived_candidates("docs", &workspaces), None);
    let global = derived_candidates("skill-deploy", &workspaces).unwrap();
    assert_eq!(global.global_skill, "deploy");
    assert!(global.mounts.is_empty());
}

#[test]
fn longer_ids_sort_first_and_ties_keep_their_order() {
    let ids: Vec<String> = ["b", "ccc", "a", "dd", "eee"].iter().map(|s| s.to_string()).collect();
    assert_eq!(sort_longest_first(&ids), vec!["ccc", "eee", "dd", "b", "a"]);
}

#[test]
fn prefixes_are_stripped_only_when_present() {
    assert_eq!(strip_prefix("skill-x", "skill-"), Some("x".to_string()));
    assert_eq!(strip_prefix("skil", "skill-"), None);
    assert_eq!(strip_prefix("abc", ""), Some("abc".to_string()));
}

#[test]
fn names_that_are_not_one_component_are_rejected() {
    for name in ["", ".", "..", "../secret", "a/b", "a\\b"] {
        assert!(!is_plain_name(name), "{name:?} was not rejected");
    }
    assert!(is_plain_name("greet"));
    assert!(is_plain_name("..."));
}

#[test]
fn skill_errors_read_as_sentences() {
    assert_eq!(
        SkillError::SkillNotFound("x".to_string()).message(),
        "skill `x` does not exist"
    );
    assert_eq!(
        SkillError::InvalidWorkspaceId("W".to_string()).message(),
        "invalid workspace id `W`"
    );
}

fn skill_entry(name: &str, is_dir: bool, text: Option<&str>, root: Option<&str>) -> SkillEntry {
    SkillEntry {
        name: name.to_string(),
        is_dir,
        bytes: text.map(|t| t.as_bytes().to_vec()),
        root: root.map(str::to_string),
    }
}

#[test]
fn discovery_keeps_the_valid_skills_in_id_order() {
    let zeta = "---\nname: zeta\ndescription: Last.\n---\nZeta body.\n";
    let alpha = "---\nname: alpha\ndescription: First.\nlicense: MIT\n---\nAlpha body.\n";
    let found = discover(vec![
        skill_entry("zeta", true, Some(zeta), Some("/s/zeta")),
        skill_entry("alpha", true, Some(alpha), Some("/s/alpha")),
        skill_entry("notes.md", false, None, None),
        skill_entry("broken", true, Some("no frontmatter"), Some("/s/broken")),
        skill_entry("mismatch", true, Some(alpha), Some("/s/mismatch")),
        skill_entry("unread", true, None, Some("/s/unread")),
    ]);
    let ids: Vec<&str> = found.iter().map(|(id, _)| id.as_str()).collect();
    assert_eq!(ids, vec!["alpha", "zeta"]);
    assert_eq!(found[0].1.root, "/s/alpha");
    assert_eq!(found[0].1.doc.description, "First.");
    assert_eq!(found[0].1.doc.license, Some("MIT".to_string()));
    assert!(found[0].1.doc.body.contains("Alpha body."));
}

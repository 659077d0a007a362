use ralph::cli::skills::{
    execute, execute_list, execute_load, find_default_skills_dir, find_workspace_root,
    format_source, resolve_configured_skills_dir, resolve_root, settle_skill_dirs, Dir, ListArgs,
    LoadArgs, OutputFormat, SkillArgs, SkillCommands, SkillEntry, SkillListItem, SkillOutput,
    SkillSource,
};
use ralph::cli::workspace::{
    default_config_path, discover_workspace_root, resolve_marker_target,
    resolve_path_from_workspace, resolve_workspace_root, urgent_steer_path_from_workspace,
    WorkspaceDir,
};

fn make_skill(name: &str, source: SkillSource) -> SkillEntry {
    SkillEntry {
        name: name.to_string(),
        description: "A test skill".to_string(),
        content: "body".to_string(),
        source,
        hats: vec!["builder".to_string()],
        backends: vec!["gemini".to_string()],
        tags: vec!["t1".to_string(), "t2".to_string()],
        auto_inject: true,
    }
}

fn dirs(answers: &[(&str, bool)]) -> Vec<Dir> {
    answers
        .iter()
        .map(|(path, hit)| Dir {
            path: path.to_string(),
            hit: *hit,
        })
        .collect()
}

#[test]
fn test_format_source_builtin() {
    let skill = make_skill("s", SkillSource::BuiltIn);
    assert_eq!(format_source(&skill), "built-in");
}

#[test]
fn test_format_source_file() {
    let skill = make_skill("s", SkillSource::File("/tmp/skills/test.md".to_string()));
    assert_eq!(format_source(&skill), "/tmp/skills/test.md");
}

#[test]
fn test_skill_list_item_from_builtin() {
    let skill = make_skill("my-skill", SkillSource::BuiltIn);
    let item = SkillListItem::from(&skill);

    assert_eq!(item.name, "my-skill");
    assert_eq!(item.description, "A test skill");
    assert_eq!(item.source, "built-in");
    assert_eq!(item.path, None);
    assert_eq!(item.hats, vec!["builder".to_string()]);
    assert_eq!(item.backends, vec!["gemini".to_string()]);
    assert_eq!(item.tags, vec!["t1".to_string(), "t2".to_string()]);
    assert!(item.auto_inject);
}

#[test]
fn test_skill_list_item_from_file() {
    let skill = make_skill("my-skill", SkillSource::File("/tmp/skills/my.md".to_string()));
    let item = SkillListItem::from(&skill);

    assert_eq!(item.source, "file");
    assert_eq!(item.path.as_deref(), Some("/tmp/skills/my.md"));
}

#[test]
fn test_resolve_root_with_explicit_path() {
    let resolved = resolve_root(Some("/some/path"), "/cwd", &dirs(&[("/cwd", true)]));
    assert_eq!(resolved, "/some/path");
}

#[test]
fn test_resolve_root_without_explicit_returns_path() {
    assert_eq!(resolve_root(None, "/cwd", &dirs(&[("/cwd", false), ("/", true)])), "/");
    assert_eq!(resolve_root(None, "/cwd", &dirs(&[("/cwd", false)])), "/cwd");
}

#[test]
fn test_find_workspace_root_finds_ralph_yml_in_start_dir() {
    let found = find_workspace_root(&dirs(&[("/tmp/x", true), ("/tmp", false)])).expect("found");
    assert_eq!(found, "/tmp/x");
}

#[test]
fn test_find_workspace_root_walks_up_to_find_config() {
    let found = find_workspace_root(&dirs(&[
        ("/tmp/x/a/b/c", false),
        ("/tmp/x/a/b", false),
        ("/tmp/x/a", false),
        ("/tmp/x", true),
        ("/tmp", true),
    ]))
    .expect("found");
    assert_eq!(found, "/tmp/x");
}

#[test]
fn test_find_workspace_root_returns_none_when_no_config() {
    assert_eq!(
        find_workspace_root(&dirs(&[("/tmp/x", false), ("/tmp", false), ("/", false)])),
        None
    );
}

#[test]
fn test_resolve_configured_skills_dir_absolute_path_returned_as_is() {
    let resolved =
        resolve_configured_skills_dir("/tmp/x", "/tmp/x/abs-skills", &dirs(&[("/tmp/x", true)]));
    assert_eq!(resolved, "/tmp/x/abs-skills");
}

#[test]
fn test_resolve_configured_skills_dir_relative_under_root() {
    let resolved = resolve_configured_skills_dir("/tmp/x", "skills", &dirs(&[("/tmp/x", true)]));
    assert_eq!(resolved, "/tmp/x/skills");
}

#[test]
fn test_resolve_configured_skills_dir_walks_up_to_parent() {
    let resolved = resolve_configured_skills_dir(
        "/tmp/x/child",
        "shared-skills",
        &dirs(&[("/tmp/x/child", false), ("/tmp/x", true)]),
    );
    assert_eq!(resolved, "/tmp/x/shared-skills");
}

#[test]
fn test_resolve_configured_skills_dir_missing_returns_candidate() {
    let resolved = resolve_configured_skills_dir(
        "/tmp/x",
        "does-not-exist-skills",
        &dirs(&[("/tmp/x", false), ("/tmp", false)]),
    );
    assert_eq!(resolved, "/tmp/x/does-not-exist-skills");
}

#[test]
fn test_find_default_skills_dir_finds_in_root() {
    let found = find_default_skills_dir("/tmp/x", "kiro", true, None, &vec![]).expect("found");
    assert_eq!(found, "/tmp/x/.kiro/skills");
}

#[test]
fn test_find_default_skills_dir_none_when_missing() {
    assert_eq!(
        find_default_skills_dir("/tmp/x", "kiro", false, Some(&dirs(&[("/tmp/x", false)])), &vec![]),
        None
    );
    // Directories above count only where the current directory is in the workspace.
    assert_eq!(
        find_default_skills_dir("/tmp/x", "kiro", false, None, &dirs(&[("/tmp", true)])),
        None
    );
    assert_eq!(
        find_default_skills_dir(
            "/tmp/x",
            "kiro",
            false,
            Some(&dirs(&[("/tmp/x/a", false)])),
            &dirs(&[("/tmp", true)])
        ),
        Some("/tmp/.kiro/skills".to_string())
    );
}

#[test]
fn configured_directories_of_skills_take_the_place_of_the_default_one() {
    assert_eq!(
        settle_skill_dirs(&vec![], &vec![], "/w", "kiro", true, None, &vec![]),
        vec!["/w/.kiro/skills"]
    );
    assert_eq!(
        settle_skill_dirs(
            &vec!["a".to_string(), "/b".to_string()],
            &vec![dirs(&[("/w", false), ("/", true)]), vec![]],
            "/w",
            "kiro",
            true,
            None,
            &vec![]
        ),
        vec!["/a", "/b"]
    );
}

#[test]
fn test_output_format_default_is_table() {
    assert_eq!(OutputFormat::default(), OutputFormat::Table);
}

#[test]
fn test_output_format_values_distinct() {
    assert_ne!(OutputFormat::Table, OutputFormat::Json);
    assert_ne!(OutputFormat::Json, OutputFormat::Quiet);
    assert_ne!(OutputFormat::Table, OutputFormat::Quiet);
}

#[test]
fn skills_are_listed_by_name() {
    let skills = vec![
        make_skill("zeta", SkillSource::BuiltIn),
        make_skill("alpha", SkillSource::File("/a.md".to_string())),
        make_skill("mid", SkillSource::BuiltIn),
    ];
    match execute_list(OutputFormat::Quiet, &skills) {
        SkillOutput::Names(names) => assert_eq!(names, vec!["alpha", "mid", "zeta"]),
        other => panic!("unexpected output: {other:?}"),
    }
    match execute_list(OutputFormat::Json, &skills) {
        SkillOutput::Items(items) => {
            assert_eq!(items[0].name, "alpha");
            assert_eq!(items[0].source, "file");
            assert_eq!(items[2].name, "zeta");
        }
        other => panic!("unexpected output: {other:?}"),
    }
    assert!(matches!(
        execute_list(OutputFormat::Table, &vec![]),
        SkillOutput::NoSkills
    ));
    let args = SkillArgs {
        command: SkillCommands::List(ListArgs {
            format: OutputFormat::Quiet,
        }),
        root: None,
    };
    assert!(matches!(
        execute(&args, &skills, None),
        SkillOutput::Names(_)
    ));
}

#[test]
fn missing_skills_are_told_with_those_that_there_are() {
    let skills = vec![
        make_skill("zeta", SkillSource::BuiltIn),
        make_skill("alpha", SkillSource::BuiltIn),
    ];
    match execute_load("nope", None, &skills) {
        SkillOutput::Missing(lines) => {
            assert_eq!(lines[0], "Error: skill 'nope' not found");
            assert!(lines[1].contains("alpha, zeta"), "lines: {lines:?}");
        }
        other => panic!("unexpected output: {other:?}"),
    }
    let args = SkillArgs {
        command: SkillCommands::Load(LoadArgs {
            name: "alpha".to_string(),
        }),
        root: None,
    };
    match execute(&args, &skills, Some("body")) {
        SkillOutput::Content(content) => assert_eq!(content, "body"),
        other => panic!("unexpected output: {other:?}"),
    }
}

fn marked(path: &str, has_ralph: bool, has_git: bool) -> WorkspaceDir {
    WorkspaceDir {
        path: path.to_string(),
        has_ralph,
        has_git,
    }
}

#[test]
fn test_resolve_workspace_root_discovers_ancestor_ralph_dir() {
    let dirs = vec![
        marked("/tmp/x/a/b/c", false, false),
        marked("/tmp/x/a/b", false, false),
        marked("/tmp/x/a", false, false),
        marked("/tmp/x", true, false),
    ];
    assert_eq!(discover_workspace_root(&dirs), Some("/tmp/x".to_string()));
    assert_eq!(
        resolve_workspace_root(None, None, Some("/tmp/x/a/b/c"), &dirs),
        "/tmp/x"
    );
}

#[test]
fn workspaces_are_given_or_set_or_found() {
    let dirs = vec![marked("/c", false, true)];
    assert_eq!(resolve_workspace_root(Some("/a"), Some("/b"), Some("/c"), &dirs), "/a");
    assert_eq!(resolve_workspace_root(None, Some("/b"), Some("/c"), &dirs), "/b");
    assert_eq!(resolve_workspace_root(None, Some(" "), Some("/c"), &dirs), "/c");
    assert_eq!(resolve_workspace_root(None, None, Some("/d"), &vec![]), "/d");
    assert_eq!(resolve_workspace_root(None, None, None, &vec![]), ".");
    assert_eq!(discover_workspace_root(&dirs), Some("/c".to_string()));
    assert_eq!(default_config_path(None), "ralph.yml");
    assert_eq!(default_config_path(Some("  ")), "ralph.yml");
    assert_eq!(default_config_path(Some("x.yml")), "x.yml");
    assert_eq!(resolve_path_from_workspace("a/b", "/w"), "/w/a/b");
    assert_eq!(resolve_path_from_workspace("/a", "/w"), "/a");
    assert_eq!(urgent_steer_path_from_workspace("/w"), "/w/.ralph/urgent-steer.json");
    assert_eq!(resolve_marker_target("/w", " .ralph/e.jsonl\n"), "/w/.ralph/e.jsonl");
}

use moon_cache::config::{is_package_manager, is_version_triple, projects_from_glob_list, validate_projects, ProjectIssue};
use moon_cache::errors::{ProjectError, TargetError, TokenError};
use moon_cache::strutil::{
    get_assert_output, get_assert_stderr_output, get_fixtures_dir, output_to_string,
    replace_fixtures_dir, wrap_glob,
};

#[test]
fn validates_a_plain_projects_map() {
    let projects = vec![
        (String::from("app"), String::from("apps/app")),
        (String::from("foo"), String::from("./packages/foo")),
    ];
    assert!(validate_projects(&projects).is_ok());
}

#[test]
fn rejects_absolute_project_paths() {
    let projects = vec![
        (String::from("app"), String::from("/apps/app")),
        (String::from("foo"), String::from("packages/foo")),
    ];
    assert_eq!(validate_projects(&projects), Err((0, ProjectIssue::AbsolutePath)));
}

#[test]
fn rejects_parent_relative_project_paths() {
    let projects = vec![
        (String::from("app"), String::from("../apps/app")),
        (String::from("foo"), String::from("packages/foo")),
    ];
    assert_eq!(validate_projects(&projects), Err((0, ProjectIssue::ParentRelativePath)));
}

#[test]
fn rejects_an_invalid_project_id() {
    let projects = vec![(String::from("bad id"), String::from("apps/app"))];
    assert_eq!(validate_projects(&projects), Err((0, ProjectIssue::InvalidId)));
}

#[test]
fn accepts_any_paths_under_the_glob_flag() {
    let projects = vec![
        (String::from("A"), String::from("apps/*")),
        (String::from("globs"), String::from("true")),
    ];
    assert!(validate_projects(&projects).is_ok());
}

#[test]
fn supports_globs() {
    let globs = vec![String::from("apps/*"), String::from("packages/*")];
    let projects = projects_from_glob_list(&globs);
    assert_eq!(
        projects,
        vec![
            (String::from("A"), String::from("apps/*")),
            (String::from("B"), String::from("packages/*")),
            (String::from("globs"), String::from("true")),
        ]
    );
    assert!(validate_projects(&projects).is_ok());
}

#[test]
fn output_to_string_decodes_utf8() {
    assert_eq!(output_to_string(b"hello".to_vec()), "hello");
    assert_eq!(output_to_string(vec![]), "");
}

#[test]
fn output_to_string_falls_back_to_empty_on_invalid_bytes() {
    assert_eq!(output_to_string(vec![0xff, 0xfe]), "");
}

#[test]
fn fixtures_dir_is_joined_below_the_root() {
    assert_eq!(get_fixtures_dir("/tmp/fixtures", "cases"), "/tmp/fixtures/cases");
}

#[test]
fn wrap_glob_standardizes_separators() {
    assert_eq!(wrap_glob("a\\b\\c"), "a/b/c");
    assert_eq!(wrap_glob("already/fine"), "already/fine");
}

#[test]
fn replace_fixtures_dir_blots_out_the_directory() {
    let out = replace_fixtures_dir("saw /w/f/a and /w/f/b here", "/w/f");
    assert_eq!(out, "saw <WORKSPACE>/a and <WORKSPACE>/b here");
}

#[test]
fn replace_fixtures_dir_handles_backslashed_directories() {
    let out = replace_fixtures_dir("saw w\\f\\a and w/f/b", "w\\f");
    assert_eq!(out, "saw <WORKSPACE>\\a and <WORKSPACE>/b");
}

#[test]
fn stderr_output_drops_log_and_env_lines() {
    let raw = "[error] boom\nhello\n  MOON_LOG=trace\nworld";
    assert_eq!(get_assert_stderr_output(raw), "hello\nworld\n");
}

#[test]
fn stderr_output_keeps_ordinary_lines_with_newlines() {
    let raw = "a\nb\n";
    // The final empty line after the trailing newline is kept too.
    assert_eq!(get_assert_stderr_output(raw), "a\nb\n\n");
}

#[test]
fn assert_output_is_stdout_then_filtered_stderr() {
    let out = get_assert_output("out!", "[trace] t\nerr line");
    assert_eq!(out, "out!err line\n");
}

#[test]
fn target_error_messages_name_the_target() {
    assert_eq!(
        TargetError::IdOnly(String::from("foo:bar")).message(),
        "Target <target>foo:bar</target> requires literal project and task identifiers, found a scope."
    );
    assert_eq!(
        TargetError::InvalidFormat(String::from("x")).message(),
        "Invalid target <target>x</target>, must be in the format of \"project_id:task_id\"."
    );
    assert_eq!(
        TargetError::TooWild.message(),
        "Target <target>:</target> encountered. Wildcard project and task not supported."
    );
}

#[test]
fn token_error_messages_carry_their_indexes() {
    assert_eq!(
        TokenError::InvalidInIndex(String::from("@in"), 3).message(),
        "Input index 3 doesn't exist for token <symbol>@in</symbol>."
    );
    assert_eq!(
        TokenError::UnknownFileGroup(String::from("@group"), String::from("srcs")).message(),
        "Unknown file group <id>srcs</> used in token <symbol>@group</symbol>."
    );
    assert_eq!(
        TokenError::UnknownTokenFunc(String::from("@nope")).message(),
        "Unknown token function <symbol>@nope</symbol>."
    );
}

#[test]
fn project_error_messages_splice_their_payloads() {
    assert_eq!(
        ProjectError::UnconfiguredTask(String::from("build"), String::from("app")).message(),
        "Task <id>build</id> has not been configured for project <id>app</id>."
    );
    assert_eq!(
        ProjectError::Target(TargetError::NoProjectDepsInRunContext).message(),
        "Project dependencies scope (^:) is not supported in run contexts."
    );
    assert_eq!(
        ProjectError::MissingProject(String::from("apps/web")).message(),
        "No project exists at path <file>apps/web</file>."
    );
}

#[test]
fn version_triples_are_exactly_major_minor_patch() {
    assert!(is_version_triple("16.13.0"));
    assert!(is_version_triple("4.5.6"));
    assert!(is_version_triple("0.0.0"));
    assert!(!is_version_triple(""));
    assert!(!is_version_triple("foo bar"));
    assert!(!is_version_triple("16"));
    assert!(!is_version_triple("16.13"));
    assert!(!is_version_triple("16.13."));
    assert!(!is_version_triple("16..0"));
    assert!(!is_version_triple(".13.0"));
    assert!(!is_version_triple("16.13.0.1"));
}

#[test]
fn package_managers_are_the_three_supported_ones() {
    assert!(is_package_manager("npm"));
    assert!(is_package_manager("pnpm"));
    assert!(is_package_manager("yarn"));
    assert!(!is_package_manager("what"));
    assert!(!is_package_manager(""));
}

use moon_cache::engine::CacheEngine;
use moon_cache::errors::CacheError;
use moon_cache::item::parent_dir;
use moon_cache::mode::CacheMode;
use moon_cache::state::{ProjectsState, RunTargetState, StateRecord, WorkspaceState};

fn root_of(dir: &tempfile::TempDir) -> String {
    dir.path().to_str().unwrap().to_string()
}

fn on_disk(path: &str) -> bool {
    fs_err::metadata(path).is_ok()
}

fn sub(root: &str, rel: &str) -> String {
    format!("{}/{}", root, rel)
}

#[test]
fn creates_dirs() {
    let dir = tempfile::TempDir::new().unwrap();
    let root = root_of(&dir);

    CacheEngine::create(&root, CacheMode::Full).unwrap();

    assert!(on_disk(&sub(&root, ".moon/cache")));
    assert!(on_disk(&sub(&root, ".moon/cache/hashes")));
    assert!(on_disk(&sub(&root, ".moon/cache/runs")));
    assert!(on_disk(&sub(&root, ".moon/cache/out")));
}

#[test]
fn create_is_idempotent_in_every_mode() {
    for mode in [CacheMode::Off, CacheMode::ReadOnly, CacheMode::WriteOnly, CacheMode::Full] {
        let dir = tempfile::TempDir::new().unwrap();
        let root = root_of(&dir);
        let first = CacheEngine::create(&root, mode).unwrap();
        let second = CacheEngine::create(&root, mode).unwrap();
        assert_eq!(first.dir, second.dir);
        assert_eq!(first.hashes_dir, second.hashes_dir);
        assert_eq!(first.runs_dir, second.runs_dir);
        assert_eq!(first.outputs_dir, second.outputs_dir);
        assert!(on_disk(&sub(&root, ".moon/cache/hashes")));
        assert!(on_disk(&sub(&root, ".moon/cache/runs")));
        assert!(on_disk(&sub(&root, ".moon/cache/out")));
    }
}

#[test]
fn create_fails_on_filesystem_error() {
    let dir = tempfile::TempDir::new().unwrap();
    let root = root_of(&dir);
    // A plain file where the cache tree must go.
    fs_err::write(sub(&root, ".moon"), "not a directory").unwrap();
    let r = CacheEngine::create(&root, CacheMode::Full);
    assert!(matches!(r, Err(CacheError::Filesystem(_, _))));
}

#[test]
fn deletes_dir() {
    let dir = tempfile::TempDir::new().unwrap();
    let root = root_of(&dir);
    let cache = CacheEngine::create(&root, CacheMode::Full).unwrap();

    let runfile1 = cache.create_runfile("123", "\"content\"").unwrap();
    let runfile2 = cache.create_runfile("456", "\"content\"").unwrap();

    assert!(on_disk(&runfile1.path));
    assert!(on_disk(&runfile2.path));

    cache.delete_runfiles().unwrap();

    assert!(!on_disk(&runfile1.path));
    assert!(!on_disk(&runfile2.path));
}

#[test]
fn deletes_files() {
    let dir = tempfile::TempDir::new().unwrap();
    let root = root_of(&dir);
    let cache = CacheEngine::create(&root, CacheMode::Full).unwrap();

    fs_err::write(sub(&root, ".moon/cache/hashes/abc123.json"), "{}").unwrap();
    fs_err::create_dir_all(sub(&root, ".moon/cache/out/abc123")).unwrap();
    fs_err::write(sub(&root, ".moon/cache/out/abc123/file.js"), "").unwrap();

    let hash_file = sub(&root, ".moon/cache/hashes/abc123.json");
    let out_file = sub(&root, ".moon/cache/out/abc123/file.js");

    assert!(on_disk(&hash_file));
    assert!(on_disk(&out_file));

    cache.delete_hash("abc123").unwrap();

    assert!(!on_disk(&hash_file));
    assert!(!on_disk(&out_file));
}

#[test]
fn deleting_a_nonexistent_hash_is_a_noop_success() {
    let dir = tempfile::TempDir::new().unwrap();
    let root = root_of(&dir);
    let cache = CacheEngine::create(&root, CacheMode::Full).unwrap();
    cache.delete_hash("nothing-here").unwrap();
}

#[test]
fn doesnt_delete_if_cache_off() {
    let dir = tempfile::TempDir::new().unwrap();
    let root = root_of(&dir);
    let cache = CacheEngine::create(&root, CacheMode::Off).unwrap();

    fs_err::write(sub(&root, ".moon/cache/hashes/abc123.json"), "{}").unwrap();
    fs_err::create_dir_all(sub(&root, ".moon/cache/out/abc123")).unwrap();
    fs_err::write(sub(&root, ".moon/cache/out/abc123/file.js"), "").unwrap();

    let hash_file = sub(&root, ".moon/cache/hashes/abc123.json");
    let out_file = sub(&root, ".moon/cache/out/abc123/file.js");

    cache.delete_hash("abc123").unwrap();

    assert!(on_disk(&hash_file));
    assert!(on_disk(&out_file));
}

#[test]
fn doesnt_delete_if_cache_readonly() {
    let dir = tempfile::TempDir::new().unwrap();
    let root = root_of(&dir);
    let cache = CacheEngine::create(&root, CacheMode::ReadOnly).unwrap();

    fs_err::write(sub(&root, ".moon/cache/hashes/abc123.json"), "{}").unwrap();
    fs_err::create_dir_all(sub(&root, ".moon/cache/out/abc123")).unwrap();
    fs_err::write(sub(&root, ".moon/cache/out/abc123/file.js"), "").unwrap();

    let hash_file = sub(&root, ".moon/cache/hashes/abc123.json");
    let out_file = sub(&root, ".moon/cache/out/abc123/file.js");

    cache.delete_hash("abc123").unwrap();

    assert!(on_disk(&hash_file));
    assert!(on_disk(&out_file));
}

#[test]
fn creates_runfile_on_call() {
    let dir = tempfile::TempDir::new().unwrap();
    let root = root_of(&dir);
    let cache = CacheEngine::create(&root, CacheMode::Full).unwrap();
    let runfile = cache.create_runfile("123", "\"content\"").unwrap();

    assert!(on_disk(&runfile.path));
    assert_eq!(
        fs_err::read_to_string(sub(&root, ".moon/cache/runs/123/runfile.json")).unwrap(),
        "\"content\""
    );
}

#[test]
fn runfile_is_rewritten_on_every_call() {
    let dir = tempfile::TempDir::new().unwrap();
    let root = root_of(&dir);
    let cache = CacheEngine::create(&root, CacheMode::Full).unwrap();
    cache.create_runfile("123", "\"first\"").unwrap();
    let runfile = cache.create_runfile("123", "\"second\"").unwrap();
    assert_eq!(fs_err::read_to_string(&runfile.path).unwrap(), "\"second\"");
}

#[test]
fn delete_runfiles_leaves_run_state_files() {
    let dir = tempfile::TempDir::new().unwrap();
    let root = root_of(&dir);
    let cache = CacheEngine::create(&root, CacheMode::Full).unwrap();

    let runfile = cache.create_runfile("foo", "\"content\"").unwrap();
    let item = cache.cache_run_target_state("foo:bar").unwrap();
    item.save(CacheMode::Full).unwrap();

    assert!(on_disk(&runfile.path));
    assert!(on_disk(&item.path));

    cache.delete_runfiles().unwrap();

    assert!(!on_disk(&runfile.path));
    assert!(on_disk(&item.path));
}

#[test]
fn run_state_creates_parent_dir_on_call() {
    let dir = tempfile::TempDir::new().unwrap();
    let root = root_of(&dir);
    let cache = CacheEngine::create(&root, CacheMode::Full).unwrap();
    let item = cache.cache_run_target_state("foo:bar").unwrap();

    assert!(!on_disk(&item.path));
    assert!(on_disk(&parent_dir(&item.path)));
}

#[test]
fn run_state_path_substitutes_the_target_separator() {
    let dir = tempfile::TempDir::new().unwrap();
    let root = root_of(&dir);
    let cache = CacheEngine::create(&root, CacheMode::Full).unwrap();
    let item = cache.cache_run_target_state("foo:bar").unwrap();
    assert!(item.path.ends_with("runs/foo/bar/lastRunState.json"));
}

#[test]
fn run_state_loads_cache_if_it_exists() {
    let dir = tempfile::TempDir::new().unwrap();
    let root = root_of(&dir);
    fs_err::create_dir_all(sub(&root, ".moon/cache/runs/foo/bar")).unwrap();
    fs_err::write(
        sub(&root, ".moon/cache/runs/foo/bar/lastRunState.json"),
        r#"{"exitCode":123,"hash":"","lastRunTime":0,"stderr":"","stdout":"","target":"foo:bar"}"#,
    )
    .unwrap();

    let cache = CacheEngine::create(&root, CacheMode::Full).unwrap();
    let item = cache.cache_run_target_state("foo:bar").unwrap();

    let mut expected = RunTargetState::default_value();
    expected.exit_code = 123;
    expected.target = String::from("foo:bar");
    assert_eq!(item.item, expected);
}

#[test]
fn run_state_loads_cache_if_it_exists_and_cache_is_readonly() {
    let dir = tempfile::TempDir::new().unwrap();
    let root = root_of(&dir);
    fs_err::create_dir_all(sub(&root, ".moon/cache/runs/foo/bar")).unwrap();
    fs_err::write(
        sub(&root, ".moon/cache/runs/foo/bar/lastRunState.json"),
        r#"{"exitCode":123,"hash":"","lastRunTime":0,"stderr":"","stdout":"","target":"foo:bar"}"#,
    )
    .unwrap();

    let cache = CacheEngine::create(&root, CacheMode::ReadOnly).unwrap();
    let item = cache.cache_run_target_state("foo:bar").unwrap();

    let mut expected = RunTargetState::default_value();
    expected.exit_code = 123;
    expected.target = String::from("foo:bar");
    assert_eq!(item.item, expected);
}

#[test]
fn run_state_doesnt_load_if_it_exists_but_cache_is_off() {
    let dir = tempfile::TempDir::new().unwrap();
    let root = root_of(&dir);
    fs_err::create_dir_all(sub(&root, ".moon/cache/runs/foo/bar")).unwrap();
    fs_err::write(
        sub(&root, ".moon/cache/runs/foo/bar/lastRunState.json"),
        r#"{"exitCode":123,"hash":"","lastRunTime":0,"stderr":"","stdout":"","target":"foo:bar"}"#,
    )
    .unwrap();

    let cache = CacheEngine::create(&root, CacheMode::Off).unwrap();
    let item = cache.cache_run_target_state("foo:bar").unwrap();

    let mut expected = RunTargetState::default_value();
    expected.target = String::from("foo:bar");
    assert_eq!(item.item, expected);
}

#[test]
fn run_state_saves_to_cache() {
    let dir = tempfile::TempDir::new().unwrap();
    let root = root_of(&dir);
    let cache = CacheEngine::create(&root, CacheMode::Full).unwrap();
    let mut item = cache.cache_run_target_state("foo:bar").unwrap();

    item.item.exit_code = 123;

    item.save(CacheMode::Full).unwrap();

    assert_eq!(
        fs_err::read_to_string(&item.path).unwrap(),
        r#"{"exitCode":123,"hash":"","lastRunTime":0,"stderr":"","stdout":"","target":"foo:bar"}"#
    );
}

#[test]
fn run_state_doesnt_save_if_cache_off() {
    let dir = tempfile::TempDir::new().unwrap();
    let root = root_of(&dir);
    let cache = CacheEngine::create(&root, CacheMode::Off).unwrap();
    let mut item = cache.cache_run_target_state("foo:bar").unwrap();

    item.item.exit_code = 123;

    item.save(CacheMode::Off).unwrap();

    assert!(!on_disk(&item.path));
}

#[test]
fn run_state_doesnt_save_if_cache_readonly() {
    let dir = tempfile::TempDir::new().unwrap();
    let root = root_of(&dir);
    let cache = CacheEngine::create(&root, CacheMode::ReadOnly).unwrap();
    let mut item = cache.cache_run_target_state("foo:bar").unwrap();

    item.item.exit_code = 123;

    item.save(CacheMode::ReadOnly).unwrap();

    assert!(!on_disk(&item.path));
}

#[test]
fn workspace_state_creates_parent_dir_on_call() {
    let dir = tempfile::TempDir::new().unwrap();
    let root = root_of(&dir);
    let cache = CacheEngine::create(&root, CacheMode::Full).unwrap();
    let item = cache.cache_workspace_state().unwrap();

    assert!(!on_disk(&item.path));
    assert!(on_disk(&parent_dir(&item.path)));
}

#[test]
fn workspace_state_loads_cache_if_it_exists() {
    let dir = tempfile::TempDir::new().unwrap();
    let root = root_of(&dir);
    fs_err::create_dir_all(sub(&root, ".moon/cache")).unwrap();
    fs_err::write(sub(&root, ".moon/cache/workspaceState.json"), r#"{"lastNodeInstallTime":123}"#)
        .unwrap();

    let cache = CacheEngine::create(&root, CacheMode::Full).unwrap();
    let item = cache.cache_workspace_state().unwrap();

    assert_eq!(
        item.item,
        WorkspaceState { last_node_install_time: 123, last_version_check_time: 0 }
    );
}

#[test]
fn workspace_state_loads_cache_if_it_exists_and_cache_is_readonly() {
    let dir = tempfile::TempDir::new().unwrap();
    let root = root_of(&dir);
    fs_err::create_dir_all(sub(&root, ".moon/cache")).unwrap();
    fs_err::write(sub(&root, ".moon/cache/workspaceState.json"), r#"{"lastNodeInstallTime":123}"#)
        .unwrap();

    let cache = CacheEngine::create(&root, CacheMode::ReadOnly).unwrap();
    let item = cache.cache_workspace_state().unwrap();

    assert_eq!(
        item.item,
        WorkspaceState { last_node_install_time: 123, last_version_check_time: 0 }
    );
}

#[test]
fn workspace_state_doesnt_load_if_it_exists_but_cache_is_off() {
    let dir = tempfile::TempDir::new().unwrap();
    let root = root_of(&dir);
    fs_err::create_dir_all(sub(&root, ".moon/cache")).unwrap();
    fs_err::write(sub(&root, ".moon/cache/workspaceState.json"), r#"{"lastNodeInstallTime":123}"#)
        .unwrap();

    let cache = CacheEngine::create(&root, CacheMode::Off).unwrap();
    let item = cache.cache_workspace_state().unwrap();

    assert_eq!(item.item, WorkspaceState::default_value());
}

#[test]
fn workspace_state_saves_to_cache() {
    let dir = tempfile::TempDir::new().unwrap();
    let root = root_of(&dir);
    let cache = CacheEngine::create(&root, CacheMode::Full).unwrap();
    let mut item = cache.cache_workspace_state().unwrap();

    item.item.last_node_install_time = 123;

    item.save(CacheMode::Full).unwrap();

    assert_eq!(
        fs_err::read_to_string(&item.path).unwrap(),
        r#"{"lastNodeInstallTime":123,"lastVersionCheckTime":0}"#
    );
}

#[test]
fn projects_state_creates_parent_dir_on_call() {
    let dir = tempfile::TempDir::new().unwrap();
    let root = root_of(&dir);
    let cache = CacheEngine::create(&root, CacheMode::Full).unwrap();
    let item = cache.cache_projects_state().unwrap();

    assert!(!on_disk(&item.path));
    assert!(on_disk(&parent_dir(&item.path)));
}

#[test]
fn projects_state_loads_cache_if_it_exists() {
    let dir = tempfile::TempDir::new().unwrap();
    let root = root_of(&dir);
    fs_err::create_dir_all(sub(&root, ".moon/cache")).unwrap();
    fs_err::write(
        sub(&root, ".moon/cache/projectsState.json"),
        r#"{"globs":["**/*"],"projects":{"foo":"bar"}}"#,
    )
    .unwrap();

    let cache = CacheEngine::create(&root, CacheMode::Full).unwrap();
    let item = cache.cache_projects_state().unwrap();

    assert_eq!(
        item.item,
        ProjectsState {
            globs: vec![String::from("**/*")],
            projects: vec![(String::from("foo"), String::from("bar"))],
        }
    );
}

#[test]
fn projects_state_loads_cache_if_it_exists_and_cache_is_readonly() {
    let dir = tempfile::TempDir::new().unwrap();
    let root = root_of(&dir);
    fs_err::create_dir_all(sub(&root, ".moon/cache")).unwrap();
    fs_err::write(
        sub(&root, ".moon/cache/projectsState.json"),
        r#"{"globs":["**/*"],"projects":{"foo":"bar"}}"#,
    )
    .unwrap();

    let cache = CacheEngine::create(&root, CacheMode::ReadOnly).unwrap();
    let item = cache.cache_projects_state().unwrap();

    assert_eq!(
        item.item,
        ProjectsState {
            globs: vec![String::from("**/*")],
            projects: vec![(String::from("foo"), String::from("bar"))],
        }
    );
}

#[test]
fn projects_state_doesnt_load_if_it_exists_but_cache_is_off() {
    let dir = tempfile::TempDir::new().unwrap();
    let root = root_of(&dir);
    fs_err::create_dir_all(sub(&root, ".moon/cache")).unwrap();
    fs_err::write(
        sub(&root, ".moon/cache/projectsState.json"),
        r#"{"globs":[],"projects":{"foo":"bar"}}"#,
    )
    .unwrap();

    let cache = CacheEngine::create(&root, CacheMode::Off).unwrap();
    let item = cache.cache_projects_state().unwrap();

    assert_eq!(item.item, ProjectsState::default_value());
}

#[test]
fn projects_state_doesnt_load_if_it_exists_but_cache_is_stale() {
    let dir = tempfile::TempDir::new().unwrap();
    let root = root_of(&dir);
    fs_err::create_dir_all(sub(&root, ".moon/cache")).unwrap();
    let state_path = sub(&root, ".moon/cache/projectsState.json");
    fs_err::write(&state_path, r#"{"globs":[],"projects":{"foo":"bar"}}"#).unwrap();

    // 100 s past the three-minute TTL.
    let now_secs = std::time::SystemTime::now()
        .duration_since(std::time::UNIX_EPOCH)
        .unwrap()
        .as_secs() as i64;
    filetime::set_file_mtime(
        &state_path,
        filetime::FileTime::from_unix_time(now_secs - 280, 0),
    )
    .unwrap();

    let cache = CacheEngine::create(&root, CacheMode::Full).unwrap();
    let item = cache.cache_projects_state().unwrap();

    assert_eq!(item.item, ProjectsState::default_value());
}

#[test]
fn projects_state_saves_to_cache() {
    let dir = tempfile::TempDir::new().unwrap();
    let root = root_of(&dir);
    let cache = CacheEngine::create(&root, CacheMode::Full).unwrap();
    let mut item = cache.cache_projects_state().unwrap();

    item.item.projects.push((String::from("foo"), String::from("bar")));

    item.save(CacheMode::Full).unwrap();

    assert_eq!(
        fs_err::read_to_string(&item.path).unwrap(),
        r#"{"globs":[],"projects":{"foo":"bar"}}"#
    );
}

#[test]
fn projects_state_scenario_defaults_write_reload_stale() {
    let dir = tempfile::TempDir::new().unwrap();
    let root = root_of(&dir);
    let cache = CacheEngine::create(&root, CacheMode::Full).unwrap();

    // Empty cache dir: defaults, with the three-minute TTL.
    let item = cache.cache_projects_state().unwrap();
    assert_eq!(item.ttl, 180000);
    assert_eq!(item.item, ProjectsState::default_value());

    // Write a value; a reload well within the TTL sees it.
    let state_path = item.path.clone();
    fs_err::write(&state_path, r#"{"globs":["**/*"],"projects":{"foo":"bar"}}"#).unwrap();
    let reloaded = cache.cache_projects_state().unwrap();
    assert_eq!(
        reloaded.item,
        ProjectsState {
            globs: vec![String::from("**/*")],
            projects: vec![(String::from("foo"), String::from("bar"))],
        }
    );

    // Push the file's modification time 100 s beyond the TTL: defaults again.
    let now_secs = std::time::SystemTime::now()
        .duration_since(std::time::UNIX_EPOCH)
        .unwrap()
        .as_secs() as i64;
    filetime::set_file_mtime(
        &state_path,
        filetime::FileTime::from_unix_time(now_secs - 280, 0),
    )
    .unwrap();
    let stale = cache.cache_projects_state().unwrap();
    assert_eq!(stale.item, ProjectsState::default_value());
}

#[test]
fn creates_hash_file() {
    let dir = tempfile::TempDir::new().unwrap();
    let root = root_of(&dir);
    let cache = CacheEngine::create(&root, CacheMode::Full).unwrap();

    cache.save_hash("abc123", "{\"field\":\"\"}").unwrap();

    assert!(on_disk(&sub(&root, ".moon/cache/hashes/abc123.json")));
}

#[test]
fn doesnt_create_if_cache_off() {
    let dir = tempfile::TempDir::new().unwrap();
    let root = root_of(&dir);
    let cache = CacheEngine::create(&root, CacheMode::Off).unwrap();

    cache.save_hash("abc123", "{\"field\":\"\"}").unwrap();

    assert!(!on_disk(&sub(&root, ".moon/cache/hashes/abc123.json")));
}

#[test]
fn doesnt_create_if_cache_readonly() {
    let dir = tempfile::TempDir::new().unwrap();
    let root = root_of(&dir);
    let cache = CacheEngine::create(&root, CacheMode::ReadOnly).unwrap();

    cache.save_hash("abc123", "{\"field\":\"\"}").unwrap();

    assert!(!on_disk(&sub(&root, ".moon/cache/hashes/abc123.json")));
}

#[test]
fn links_a_single_output_file_as_a_hardlink() {
    let dir = tempfile::TempDir::new().unwrap();
    let root = root_of(&dir);
    let cache = CacheEngine::create(&root, CacheMode::Full).unwrap();

    fs_err::create_dir_all(sub(&root, "build")).unwrap();
    let source = sub(&root, "build/app.js");
    fs_err::write(&source, "bundled").unwrap();

    cache.link_task_output_to_out("h1", &root, &source).unwrap();

    let dest = sub(&root, ".moon/cache/out/h1/build/app.js");
    assert_eq!(fs_err::read_to_string(&dest).unwrap(), "bundled");

    // Same inode: a write through the source shows in the snapshot.
    fs_err::write(&source, "bundled-v2").unwrap();
    assert_eq!(fs_err::read_to_string(&dest).unwrap(), "bundled-v2");
}

#[test]
fn links_a_directory_of_output_files_as_hardlinks() {
    let dir = tempfile::TempDir::new().unwrap();
    let root = root_of(&dir);
    let cache = CacheEngine::create(&root, CacheMode::Full).unwrap();

    fs_err::create_dir_all(sub(&root, "build/nested")).unwrap();
    fs_err::write(sub(&root, "build/app.js"), "app").unwrap();
    fs_err::write(sub(&root, "build/nested/lib.js"), "lib").unwrap();

    cache
        .link_task_output_to_out("h2", &root, &sub(&root, "build"))
        .unwrap();

    let dest_app = sub(&root, ".moon/cache/out/h2/build/app.js");
    let dest_lib = sub(&root, ".moon/cache/out/h2/build/nested/lib.js");
    assert_eq!(fs_err::read_to_string(&dest_app).unwrap(), "app");
    assert_eq!(fs_err::read_to_string(&dest_lib).unwrap(), "lib");

    // Same inodes throughout the mirrored tree.
    fs_err::write(sub(&root, "build/nested/lib.js"), "lib-v2").unwrap();
    assert_eq!(fs_err::read_to_string(&dest_lib).unwrap(), "lib-v2");
}

#[test]
fn relinking_an_output_is_idempotent() {
    let dir = tempfile::TempDir::new().unwrap();
    let root = root_of(&dir);
    let cache = CacheEngine::create(&root, CacheMode::Full).unwrap();

    fs_err::create_dir_all(sub(&root, "build")).unwrap();
    let source = sub(&root, "build/app.js");
    fs_err::write(&source, "one").unwrap();
    cache.link_task_output_to_out("h3", &root, &source).unwrap();

    // Break the link, rewrite the source, and materialize again.
    fs_err::write(&source, "two").unwrap();
    cache.link_task_output_to_out("h3", &root, &source).unwrap();

    let dest = sub(&root, ".moon/cache/out/h3/build/app.js");
    assert_eq!(fs_err::read_to_string(&dest).unwrap(), "two");
}

#[test]
fn doesnt_link_if_cache_off() {
    let dir = tempfile::TempDir::new().unwrap();
    let root = root_of(&dir);
    let cache = CacheEngine::create(&root, CacheMode::Off).unwrap();

    fs_err::create_dir_all(sub(&root, "build")).unwrap();
    let source = sub(&root, "build/app.js");
    fs_err::write(&source, "bundled").unwrap();

    cache.link_task_output_to_out("h4", &root, &source).unwrap();

    assert!(!on_disk(&sub(&root, ".moon/cache/out/h4")));
}

#[test]
fn linking_an_output_outside_the_source_root_fails() {
    let dir = tempfile::TempDir::new().unwrap();
    let other = tempfile::TempDir::new().unwrap();
    let root = root_of(&dir);
    let cache = CacheEngine::create(&root, CacheMode::Full).unwrap();

    let outside = format!("{}/app.js", other.path().to_str().unwrap());
    fs_err::write(&outside, "elsewhere").unwrap();

    let r = cache.link_task_output_to_out("h5", &root, &outside);
    assert!(matches!(r, Err(CacheError::Filesystem(_, _))));
}

#[test]
fn linking_a_missing_source_fails() {
    let dir = tempfile::TempDir::new().unwrap();
    let root = root_of(&dir);
    let cache = CacheEngine::create(&root, CacheMode::Full).unwrap();

    let missing = sub(&root, "build/nothing.js");
    let r = cache.link_task_output_to_out("h6", &root, &missing);
    assert!(matches!(r, Err(CacheError::Filesystem(_, _))));
}

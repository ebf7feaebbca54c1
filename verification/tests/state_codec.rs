use moon_cache::errors::CacheError;
use moon_cache::item::CacheItem;
use moon_cache::mode::{parse_cache_mode, CacheMode};
use moon_cache::state::{ProjectsState, RunTargetState, StateRecord, WorkspaceState};

#[test]
fn workspace_state_round_trips_through_its_json_text() {
    let value = WorkspaceState { last_node_install_time: 1665315000024, last_version_check_time: 7 };
    let text = value.encode();
    assert_eq!(text, r#"{"lastNodeInstallTime":1665315000024,"lastVersionCheckTime":7}"#);
    assert_eq!(WorkspaceState::decode(&text), Some(value));
}

#[test]
fn workspace_state_accepts_a_missing_field() {
    assert_eq!(
        WorkspaceState::decode(r#"{"lastNodeInstallTime":123}"#),
        Some(WorkspaceState { last_node_install_time: 123, last_version_check_time: 0 })
    );
    assert_eq!(
        WorkspaceState::decode(r#"{"lastVersionCheckTime":9}"#),
        Some(WorkspaceState { last_node_install_time: 0, last_version_check_time: 9 })
    );
    assert_eq!(WorkspaceState::decode("{}"), Some(WorkspaceState::default_value()));
}

#[test]
fn workspace_state_rejects_malformed_text() {
    assert_eq!(WorkspaceState::decode(""), None);
    assert_eq!(WorkspaceState::decode("null"), None);
    assert_eq!(WorkspaceState::decode(r#"{"lastNodeInstallTime":}"#), None);
    assert_eq!(WorkspaceState::decode(r#"{"lastNodeInstallTime":1"#), None);
    // A value past u64 range is corrupt, not wrapped.
    assert_eq!(WorkspaceState::decode(r#"{"lastNodeInstallTime":99999999999999999999}"#), None);
}

#[test]
fn run_target_state_round_trips_with_escapes_and_signs() {
    let value = RunTargetState {
        exit_code: -9,
        hash: String::from("0123abcd"),
        last_run_time: 1665315000024,
        stderr: String::from("line \"one\"\n\tline two\\"),
        stdout: String::from("ok\r\n"),
        target: String::from("app:build"),
    };
    let text = value.encode();
    let back = RunTargetState::decode(&text).unwrap();
    assert_eq!(back, value);
}

#[test]
fn run_target_state_encodes_the_schema_field_order() {
    let mut value = RunTargetState::default_value();
    value.exit_code = 123;
    value.target = String::from("foo:bar");
    assert_eq!(
        value.encode(),
        r#"{"exitCode":123,"hash":"","lastRunTime":0,"stderr":"","stdout":"","target":"foo:bar"}"#
    );
}

#[test]
fn projects_state_round_trips_with_several_entries() {
    let value = ProjectsState {
        globs: vec![String::from("apps/*"), String::from("packages/*")],
        projects: vec![
            (String::from("app"), String::from("apps/app")),
            (String::from("foo"), String::from("./packages/foo")),
        ],
    };
    let text = value.encode();
    assert_eq!(
        text,
        r#"{"globs":["apps/*","packages/*"],"projects":{"app":"apps/app","foo":"./packages/foo"}}"#
    );
    assert_eq!(ProjectsState::decode(&text).unwrap(), value);
}

#[test]
fn projects_state_rejects_a_trailing_remainder() {
    assert_eq!(ProjectsState::decode(r#"{"globs":[],"projects":{}}x"#), None);
}

#[test]
fn parse_cache_mode_recognizes_the_four_values() {
    assert!(matches!(parse_cache_mode(""), Ok(CacheMode::Full)));
    assert!(matches!(parse_cache_mode("off"), Ok(CacheMode::Off)));
    assert!(matches!(parse_cache_mode("read"), Ok(CacheMode::ReadOnly)));
    assert!(matches!(parse_cache_mode("write"), Ok(CacheMode::WriteOnly)));
}

#[test]
fn parse_cache_mode_rejects_anything_else() {
    let r = parse_cache_mode("sometimes");
    match r {
        Err(CacheError::Configuration(v)) => assert_eq!(v, "sometimes"),
        _ => panic!("expected a configuration error"),
    }
}

#[test]
fn mode_predicates_follow_the_mode_table() {
    assert!(!CacheMode::Off.can_read());
    assert!(!CacheMode::Off.can_write());
    assert!(CacheMode::ReadOnly.can_read());
    assert!(!CacheMode::ReadOnly.can_write());
    assert!(!CacheMode::WriteOnly.can_read());
    assert!(CacheMode::WriteOnly.can_write());
    assert!(CacheMode::Full.can_read());
    assert!(CacheMode::Full.can_write());
}

#[test]
fn item_save_then_load_yields_the_saved_value() {
    let dir = tempfile::TempDir::new().unwrap();
    let path = format!("{}/state/workspaceState.json", dir.path().to_str().unwrap());

    let mut item = CacheItem::load(
        path.clone(),
        WorkspaceState::default_value(),
        0,
        CacheMode::Full,
    )
    .unwrap();
    item.item.last_node_install_time = 42;
    item.save(CacheMode::Full).unwrap();

    let again = CacheItem::load(path, WorkspaceState::default_value(), 0, CacheMode::Full)
        .unwrap();
    assert_eq!(again.item, item.item);
    assert!(again.last_modified > 0);
}

#[test]
fn item_load_reports_corrupt_data_instead_of_defaulting() {
    let dir = tempfile::TempDir::new().unwrap();
    let path = format!("{}/workspaceState.json", dir.path().to_str().unwrap());
    fs_err::write(&path, "not json at all").unwrap();

    let r = CacheItem::load(path.clone(), WorkspaceState::default_value(), 0, CacheMode::Full);
    match r {
        Err(CacheError::DataCorruption(p)) => assert_eq!(p, path),
        _ => panic!("expected a data-corruption error"),
    }
}

#[test]
fn item_load_without_reading_leaves_a_corrupt_file_unseen() {
    let dir = tempfile::TempDir::new().unwrap();
    let path = format!("{}/workspaceState.json", dir.path().to_str().unwrap());
    fs_err::write(&path, "not json at all").unwrap();

    let item = CacheItem::load(path, WorkspaceState::default_value(), 0, CacheMode::Off).unwrap();
    assert_eq!(item.item, WorkspaceState::default_value());
    assert_eq!(item.last_modified, 0);
}

#[test]
fn item_ttl_boundary_is_sharp() {
    let dir = tempfile::TempDir::new().unwrap();
    let path = format!("{}/workspaceState.json", dir.path().to_str().unwrap());
    let saved = WorkspaceState { last_node_install_time: 5, last_version_check_time: 6 };

    let item = CacheItem::load(path.clone(), saved, 0, CacheMode::Full).unwrap();
    item.save(CacheMode::Full).unwrap();

    let now_secs = std::time::SystemTime::now()
        .duration_since(std::time::UNIX_EPOCH)
        .unwrap()
        .as_secs() as i64;

    // Just inside a 60 s TTL: the persisted value.
    filetime::set_file_mtime(&path, filetime::FileTime::from_unix_time(now_secs - 30, 0)).unwrap();
    let fresh = CacheItem::load(path.clone(), WorkspaceState::default_value(), 60000, CacheMode::Full)
        .unwrap();
    assert_eq!(fresh.item, saved);

    // Well past it: the default.
    filetime::set_file_mtime(&path, filetime::FileTime::from_unix_time(now_secs - 120, 0)).unwrap();
    let stale = CacheItem::load(path.clone(), WorkspaceState::default_value(), 60000, CacheMode::Full)
        .unwrap();
    assert_eq!(stale.item, WorkspaceState::default_value());

    // A TTL of zero never goes stale.
    let keeps = CacheItem::load(path, WorkspaceState::default_value(), 0, CacheMode::Full).unwrap();
    assert_eq!(keeps.item, saved);
}

#[test]
fn item_save_is_idempotent() {
    let dir = tempfile::TempDir::new().unwrap();
    let path = format!("{}/workspaceState.json", dir.path().to_str().unwrap());
    let saved = WorkspaceState { last_node_install_time: 5, last_version_check_time: 6 };

    let item = CacheItem::load(path.clone(), saved, 0, CacheMode::Full).unwrap();
    item.save(CacheMode::Full).unwrap();
    let first = fs_err::read_to_string(&path).unwrap();
    item.save(CacheMode::Full).unwrap();
    let second = fs_err::read_to_string(&path).unwrap();
    assert_eq!(first, second);
}

#[test]
fn run_target_state_round_trips_the_extreme_exit_codes() {
    let mut value = RunTargetState::default_value();
    value.exit_code = i64::MIN;
    let text = value.encode();
    assert_eq!(RunTargetState::decode(&text).unwrap(), value);
    value.exit_code = i64::MAX;
    let text = value.encode();
    assert_eq!(RunTargetState::decode(&text).unwrap(), value);
}

#[test]
fn run_target_state_rejects_out_of_range_exit_codes() {
    assert_eq!(RunTargetState::decode(r#"{"exitCode":99999999999999999999999}"#), None);
    assert_eq!(RunTargetState::decode(r#"{"exitCode":9223372036854775808}"#), None);
    assert_eq!(
        RunTargetState::decode(r#"{"exitCode":-9223372036854775808}"#).unwrap().exit_code,
        i64::MIN
    );
}

#[test]
fn item_save_in_write_only_mode_creates_the_parent_itself() {
    let dir = tempfile::TempDir::new().unwrap();
    let path = format!("{}/fresh/state.json", dir.path().to_str().unwrap());

    let mut item = CacheItem::load(
        path.clone(),
        WorkspaceState::default_value(),
        0,
        CacheMode::WriteOnly,
    )
    .unwrap();
    item.item.last_version_check_time = 8;
    item.save(CacheMode::WriteOnly).unwrap();

    let again = CacheItem::load(path, WorkspaceState::default_value(), 0, CacheMode::Full)
        .unwrap();
    assert_eq!(again.item.last_version_check_time, 8);
}

#[test]
fn decoding_enforces_the_schema_field_order() {
    // Fields may be left out, but the ones present must keep the schema
    // order the encoder writes.
    assert_eq!(
        WorkspaceState::decode(r#"{"lastVersionCheckTime":9,"lastNodeInstallTime":1}"#),
        None
    );
}

#[test]
fn item_load_in_write_only_mode_never_reads() {
    let dir = tempfile::TempDir::new().unwrap();
    let path = format!("{}/workspaceState.json", dir.path().to_str().unwrap());
    fs_err::write(&path, r#"{"lastNodeInstallTime":123}"#).unwrap();

    let item = CacheItem::load(path, WorkspaceState::default_value(), 0, CacheMode::WriteOnly)
        .unwrap();
    assert_eq!(item.item, WorkspaceState::default_value());
    assert_eq!(item.last_modified, 0);
}

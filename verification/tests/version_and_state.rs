use beacon::config::Config;
use beacon::store::{
    check_schema_version, plan_history_v2, plan_history_v3, plan_snapshots_v2,
    require_history_columns, HistoryRecord, HistoryV2Step, HistoryV3Step, OwnershipSource,
    SnapshotStep,
};
use beacon::versions::version_number;

fn columns(names: &[&str]) -> Vec<String> {
    names.iter().map(|name| name.to_string()).collect()
}

#[test]
fn parses_versions_from_supported_tool_outputs() {
    assert_eq!(version_number("node v26.5.0"), Some("26.5.0".into()));
    assert_eq!(version_number("go version go1.26.5 darwin/arm64"), Some("1.26.5".into()));
    assert_eq!(version_number("rustc 1.98.0-nightly (abc)"), Some("1.98.0-nightly".into()));
}

#[test]
fn default_config_matches_v01_policy() {
    let config = Config::default();
    assert_eq!(config.schema_version, 2);
    assert!(config.enabled_tools.contains(&"pnpm".into()));
    assert!(config.enabled_tools.contains(&"bun".into()));
    assert_eq!(config.enabled_inventories, ["homebrew"]);
    assert!(config.command_timeout_seconds > 0);
}

#[test]
fn a_newer_database_schema_is_refused() {
    assert!(check_schema_version(3).is_ok());
    assert!(check_schema_version(0).is_ok());
    let error = check_schema_version(4).unwrap_err();
    assert_eq!(error.message(), "unsupported Beacon database schema version 4");
}

#[test]
fn first_history_shape_backfills_source_and_unknown_updater() {
    let old = columns(&[
        "id",
        "created_at",
        "operation",
        "tool",
        "old_version",
        "new_version",
        "manager",
        "status",
        "summary",
    ]);
    let step = plan_history_v2(true, &old).unwrap();
    assert_eq!(
        step,
        HistoryV2Step::Rebuild { source: OwnershipSource::Manager, has_updater: false }
    );
    let statements = beacon::store::history_v2_statements(step);
    assert_eq!(statements.len(), 4);
    assert!(statements[2].contains("manager, 'unknown', status, summary FROM history"));
}

#[test]
fn history_migration_steps_follow_the_columns() {
    assert_eq!(plan_history_v2(false, &vec![]).unwrap(), HistoryV2Step::Create);
    let current = columns(&[
        "id",
        "created_at",
        "operation",
        "tool",
        "old_version",
        "new_version",
        "installation_source",
        "update_manager",
        "resource_scope",
        "scope_locator",
        "status",
        "summary",
    ]);
    assert_eq!(plan_history_v2(true, &current).unwrap(), HistoryV2Step::Keep);
    assert_eq!(plan_history_v3(&current).unwrap(), HistoryV3Step::Keep);
    let half_scoped = columns(&[
        "id",
        "created_at",
        "operation",
        "tool",
        "old_version",
        "new_version",
        "installation_source",
        "update_manager",
        "resource_scope",
        "status",
        "summary",
    ]);
    assert_eq!(
        plan_history_v3(&half_scoped).unwrap_err().message(),
        "cannot migrate history table: incomplete scoped history columns"
    );
}

#[test]
fn history_columns_are_required_in_order() {
    let error = require_history_columns(&columns(&["id", "tool"])).unwrap_err();
    assert_eq!(error.message(), "cannot migrate history table: missing column created_at");
    let no_owner = columns(&[
        "id",
        "created_at",
        "operation",
        "tool",
        "old_version",
        "new_version",
        "status",
        "summary",
    ]);
    assert_eq!(
        require_history_columns(&no_owner).unwrap_err().message(),
        "cannot migrate history table: missing manager ownership columns"
    );
}

#[test]
fn snapshot_migration_marks_old_payloads() {
    assert_eq!(plan_snapshots_v2(false, &vec![]).unwrap(), SnapshotStep::Create);
    let old = columns(&["id", "created_at", "payload"]);
    assert_eq!(plan_snapshots_v2(true, &old).unwrap(), SnapshotStep::Rebuild);
    let statements = beacon::store::snapshots_v2_statements(SnapshotStep::Rebuild);
    assert!(statements[2].contains("SELECT id, created_at, payload, 1 FROM snapshots"));
    assert_eq!(
        plan_snapshots_v2(true, &columns(&["id", "payload"])).unwrap_err().message(),
        "cannot migrate snapshots table: missing column created_at"
    );
}

#[test]
fn system_history_rows_have_no_locator() {
    let record = HistoryRecord::system(
        "upgrade",
        "node",
        Some("1.0.0"),
        None,
        "homebrew",
        "homebrew",
        "success",
        "done",
    );
    assert_eq!(record.resource_scope, "system");
    assert_eq!(record.scope_locator, None);
    assert_eq!(record.old_version.as_deref(), Some("1.0.0"));
    assert_eq!(record.new_version, None);
}

use beacon::config::{
    accept_loaded, initialize_catalog, migrate_v1, migrate_v2, migrate_v3, saved_text, set_config,
    Config,
};

fn strings(items: &[&str]) -> Vec<String> {
    items.iter().map(|item| item.to_string()).collect()
}

#[test]
fn v1_migration_preserves_comments_and_unknown_keys() {
    let source = "# keep this comment\nenabled_tools = [\"homebrew\", \"node\"]\npreferred_install_manager = \"homebrew\"\ncustom_key = \"keep\"\n";
    let migration = migrate_v1(source, false).unwrap().unwrap();
    assert_eq!(migration.backup_name, "config.toml.v1.bak");
    assert!(migration.write_backup);
    assert!(migration.text.contains("# keep this comment"));
    assert!(migration.text.contains("custom_key = \"keep\""));
    assert!(!migration.text.contains("preferred_install_manager"));
    assert!(migration.text.contains("schema_version = 2"));
    assert!(migration.text.contains("\"node\""));
    assert!(migration.text.contains("enabled_inventories"));

    let again = migrate_v1(source, true).unwrap().unwrap();
    assert!(!again.write_backup);
    assert!(migrate_v1(&migration.text, true).unwrap().is_none());
}

#[test]
fn v1_migration_keeps_a_disabled_homebrew_inventory_disabled() {
    let migration = migrate_v1("enabled_tools = [\"node\"]\n", false).unwrap().unwrap();
    assert!(!migration.text.contains("homebrew"));
}

#[test]
fn later_migrations_step_one_schema_at_a_time() {
    let v2 = "schema_version = 2\nenabled_tools = [\"node\"]\nenabled_inventories = []\n";
    let migration = migrate_v2(v2, false).unwrap().unwrap();
    assert_eq!(migration.backup_name, "config.toml.v2.bak");
    assert!(migration.text.contains("schema_version = 3"));
    assert!(migration.text.contains("\"homebrew\""));
    assert!(migrate_v3(v2, false).unwrap().is_none());

    let v3 = "schema_version = 3\nenabled_tools = [\"node\"]\n";
    let migration = migrate_v3(v3, true).unwrap().unwrap();
    assert_eq!(migration.backup_name, "config.toml.v3.bak");
    assert!(!migration.write_backup);
    assert!(migration.text.contains("schema_version = 4"));
    assert!(migration.text.contains("inventory_catalog_version = 0"));

    let error = migrate_v1("schema_version = 9\n", false).err().unwrap();
    assert_eq!(error.message(), "unsupported Beacon config schema version 9");
    let invalid = migrate_v2("not toml = = =", false).err().unwrap();
    assert_eq!(invalid.message(), "invalid Beacon config");
}

#[test]
fn loaded_configurations_must_have_the_current_schema() {
    let mut config = Config::default();
    config.schema_version = 4;
    assert!(accept_loaded(config).is_ok());
    let mut newer = Config::default();
    newer.schema_version = 5;
    assert_eq!(
        accept_loaded(newer).err().unwrap().message(),
        "unsupported Beacon config schema version 5"
    );
    let mut older = Config::default();
    older.schema_version = 3;
    assert_eq!(
        accept_loaded(older).err().unwrap().message(),
        "Beacon config schema version 3 requires migration"
    );
}

#[test]
fn saving_preserves_comments_and_writes_settings() {
    let mut config = Config::default();
    config.history_limit = 42;
    let text = saved_text("# note\nhistory_limit = 1\nextra = true\n", &config).unwrap();
    assert!(text.contains("# note"));
    assert!(text.contains("history_limit = 42"));
    assert!(text.contains("extra = true"));
    assert_eq!(saved_text("= broken", &config).err().unwrap().message(), "invalid Beacon config");
}

#[test]
fn settings_accept_only_positive_numbers_for_known_keys() {
    let mut config = Config::default();
    assert!(set_config(&mut config, "history_limit", "25").is_ok());
    assert_eq!(config.history_limit, 25);
    assert!(set_config(&mut config, "command_timeout_seconds", "180").is_ok());
    assert_eq!(config.command_timeout_seconds, 180);
    assert_eq!(
        set_config(&mut config, "colour", "1").err().unwrap().message(),
        "unknown config key `colour`"
    );
    assert_eq!(
        set_config(&mut config, "history_limit", "many").err().unwrap().message(),
        "history_limit must be a positive integer"
    );
    assert_eq!(
        set_config(&mut config, "history_limit", "0").err().unwrap().message(),
        "numeric settings must be greater than zero"
    );
}

#[test]
fn catalog_initialization_respects_disabled_entries_and_is_idempotent() {
    let mut config = Config::default();
    config.enabled_tools = vec![];
    config.disabled_tools = strings(&["bun"]);
    config.enabled_inventories = vec![];
    let tools = strings(&["node", "bun"]);
    let inventories = strings(&["homebrew", "skills"]);
    assert!(initialize_catalog(&mut config, &tools, &inventories));
    assert!(config.enabled_tools.contains(&"node".to_string()));
    assert!(!config.enabled_tools.contains(&"bun".to_string()));
    let enabled = config.enabled_tools.clone();
    assert!(!initialize_catalog(&mut config, &tools, &inventories));
    assert_eq!(config.enabled_tools, enabled);
}

#[test]
fn an_older_inventory_selection_gains_only_new_entries_that_are_not_disabled() {
    let mut config = Config::default();
    config.tool_catalog_version = 0;
    config.enabled_tools = vec![];
    config.disabled_tools = strings(&["go"]);
    config.inventory_catalog_version = 0;
    config.enabled_inventories = strings(&["homebrew"]);
    config.disabled_inventories = strings(&["extra"]);
    let tools = strings(&["node", "go", "bun"]);
    let inventories = strings(&["homebrew", "skills", "extra"]);
    assert!(initialize_catalog(&mut config, &tools, &inventories));
    assert_eq!(config.enabled_tools, strings(&["node", "bun"]));
    assert_eq!(config.enabled_inventories, strings(&["homebrew", "skills"]));
}

#[test]
fn loading_without_a_file_gives_the_defaults_and_a_file_needs_the_current_schema() {
    let defaults = beacon::config::loaded_config(None).unwrap();
    assert_eq!(defaults.history_limit, 500);
    assert_eq!(defaults.command_timeout_seconds, 120);
    assert_eq!(defaults.enabled_inventories, strings(&["homebrew"]));
    let mut current = Config::default();
    current.schema_version = 4;
    assert_eq!(beacon::config::loaded_config(Some(current)).unwrap().schema_version, 4);
    let mut newer = Config::default();
    newer.schema_version = 5;
    assert!(beacon::config::loaded_config(Some(newer))
        .unwrap_err()
        .message()
        .contains("unsupported Beacon config schema version"));
    let mut older = Config::default();
    older.schema_version = 3;
    assert!(beacon::config::loaded_config(Some(older)).unwrap_err().message().contains("requires migration"));
}

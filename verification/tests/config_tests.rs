use nirapod_audit_core::config::{
    collect_overrides, config_candidates, find_config_file, loaded_from, merge_config, LoadedConfig,
    RawAuditConfig, RawConfig, RawIgnoreConfig, RawOnlyConfig, RawOutputConfig, RawRulesConfig,
    CONFIG_FILENAME,
};
use nirapod_audit_core::{PlatformHint, RuleCategory, RuleOverride, RuleOverrideSeverity};

fn empty_raw() -> RawConfig {
    RawConfig { audit: None, rules: None, ignore: None, only: None, output: None }
}

fn entry(id: &str, severity: RuleOverrideSeverity) -> RuleOverride {
    RuleOverride { rule_id: id.to_owned(), severity }
}

#[test]
fn finds_config_by_walking_to_parent() {
    let root = "/tmp/nirapod-audit-finds-config";
    let nested = format!("{root}/a/b");
    let existing = vec![format!("{root}/{CONFIG_FILENAME}")];

    let found = find_config_file(&nested, &existing).expect("expected config file");
    assert_eq!(found, format!("{root}/{CONFIG_FILENAME}"));
}

#[test]
fn loads_toml_overrides_over_defaults() {
    let raw = RawConfig {
        audit: Some(RawAuditConfig {
            platform: Some(PlatformHint::Esp32),
            max_function_lines: Some(72),
            min_assertions: Some(3),
        }),
        rules: Some(RawRulesConfig {
            overrides: Some(vec![
                entry("NRP_NASA_006", RuleOverrideSeverity::Warning),
                entry("NRP_STYLE_001", RuleOverrideSeverity::Ignore),
            ]),
        }),
        ignore: Some(RawIgnoreConfig {
            paths: Some(vec!["vendor/**".to_owned(), "generated/**".to_owned()]),
            rules: Some(vec!["NRP-STYLE-002".to_owned()]),
        }),
        only: Some(RawOnlyConfig { categories: Some(vec![RuleCategory::Nasa, RuleCategory::Crypto]) }),
        output: Some(RawOutputConfig { show_help: Some(false), show_notes: Some(true) }),
    };

    let loaded = loaded_from("/tmp/nirapod-audit.toml".to_owned(), raw);

    assert_eq!(loaded.config.platform, PlatformHint::Esp32);
    assert_eq!(loaded.config.max_function_lines, 72);
    assert_eq!(loaded.config.min_assertions, 3);
    assert_eq!(loaded.config.ignore_paths, vec!["vendor/**", "generated/**"]);
    assert_eq!(loaded.config.ignore_rules, vec!["NRP-STYLE-002"]);
    assert_eq!(loaded.config.only_categories, vec![RuleCategory::Nasa, RuleCategory::Crypto]);
    assert!(!loaded.config.show_help);
    assert!(loaded.config.show_notes);
    let style = loaded
        .config
        .rule_overrides
        .iter()
        .find(|o| o.rule_id == "NRP_STYLE_001")
        .expect("missing override");
    assert_eq!(style.severity, RuleOverrideSeverity::Ignore);
    assert_eq!(loaded.config_path.as_deref(), Some("/tmp/nirapod-audit.toml"));
}

#[test]
fn empty_file_keeps_every_default() {
    let config = merge_config(empty_raw());
    assert_eq!(config.platform, PlatformHint::Auto);
    assert_eq!(config.max_function_lines, 60);
    assert_eq!(config.min_assertions, 2);
    assert!(config.ignore_paths.is_empty());
    assert!(config.ignore_rules.is_empty());
    assert!(config.only_categories.is_empty());
    assert!(config.show_help);
    assert!(config.show_notes);
    assert!(config.rule_overrides.is_empty());
}

#[test]
fn missing_keys_keep_their_defaults() {
    let raw = RawConfig {
        audit: Some(RawAuditConfig { platform: None, max_function_lines: Some(10), min_assertions: None }),
        rules: Some(RawRulesConfig { overrides: None }),
        ignore: Some(RawIgnoreConfig { paths: None, rules: Some(Vec::new()) }),
        only: None,
        output: Some(RawOutputConfig { show_help: None, show_notes: Some(false) }),
    };
    let config = merge_config(raw);
    assert_eq!(config.platform, PlatformHint::Auto);
    assert_eq!(config.max_function_lines, 10);
    assert_eq!(config.min_assertions, 2);
    assert!(config.show_help);
    assert!(!config.show_notes);
    assert!(config.rule_overrides.is_empty());
}

#[test]
fn overrides_are_ordered_by_rule_and_last_entry_wins() {
    let collected = collect_overrides(vec![
        entry("NRP-STYLE-001", RuleOverrideSeverity::Info),
        entry("NRP-LIC-001", RuleOverrideSeverity::Warning),
        entry("NRP-STYLE-001", RuleOverrideSeverity::Ignore),
        entry("NRP-DOX-001", RuleOverrideSeverity::Error),
    ]);
    let ids: Vec<&str> = collected.iter().map(|o| o.rule_id.as_str()).collect();
    assert_eq!(ids, vec!["NRP-DOX-001", "NRP-LIC-001", "NRP-STYLE-001"]);
    let severities: Vec<RuleOverrideSeverity> = collected.iter().map(|o| o.severity).collect();
    assert_eq!(
        severities,
        vec![RuleOverrideSeverity::Error, RuleOverrideSeverity::Warning, RuleOverrideSeverity::Ignore]
    );
}

#[test]
fn default_loaded_config_has_no_path() {
    let loaded = LoadedConfig::default();
    assert_eq!(loaded.config.platform, PlatformHint::Auto);
    assert!(loaded.config_path.is_none());
}

#[test]
fn candidates_run_from_start_to_root() {
    let candidates = config_candidates("/work/fw/src");
    assert_eq!(
        candidates,
        vec![
            "/work/fw/src/nirapod-audit.toml",
            "/work/fw/nirapod-audit.toml",
            "/work/nirapod-audit.toml",
            "/nirapod-audit.toml",
        ]
    );
}

#[test]
fn nearest_config_wins_and_absence_gives_none() {
    let existing = vec!["/work/nirapod-audit.toml".to_owned(), "/work/fw/nirapod-audit.toml".to_owned()];
    assert_eq!(find_config_file("/work/fw/src", &existing).as_deref(), Some("/work/fw/nirapod-audit.toml"));
    assert_eq!(find_config_file("/other/dir", &existing), None);
}

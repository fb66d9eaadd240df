use convinci::config::{
    commit_type_label, scope_label, AppConfig, COMMIT_SCOPE_COUNT, COMMIT_TYPE_COUNT,
};

#[test]
fn type_list() {
    let expected = [
        "feat", "fix", "docs", "style", "refactor", "perf", "test", "build", "ci", "chore",
    ];
    assert_eq!(expected.len(), COMMIT_TYPE_COUNT);
    for (i, e) in expected.iter().enumerate() {
        assert_eq!(commit_type_label(i), *e);
    }
}

#[test]
fn scope_list() {
    let expected = [
        "<None>", "ui", "api", "database", "auth", "config", "logging", "network", "storage",
    ];
    assert_eq!(expected.len(), COMMIT_SCOPE_COUNT);
    for (i, e) in expected.iter().enumerate() {
        assert_eq!(scope_label(i), *e);
    }
}

#[test]
fn default_config() {
    let c = AppConfig::default();
    assert!(!c.dev_mode);
}

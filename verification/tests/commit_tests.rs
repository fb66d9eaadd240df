use convinci::commit::ConventionalCommit;

fn model(
    ty: &str,
    scope: Option<&str>,
    desc: &str,
    body: Option<&str>,
    breaking: bool,
    breaking_desc: &str,
) -> ConventionalCommit {
    ConventionalCommit {
        commit_type: ty.to_string(),
        scope: scope.map(|s| s.to_string()),
        description: desc.to_string(),
        body: body.map(|b| b.to_string()),
        breaking_change: breaking,
        breaking_change_description: breaking_desc.to_string(),
    }
}

#[test]
fn generate_minimal() {
    let c = model("fix", None, "null check", None, false, "");
    assert_eq!(c.generate(), "fix: null check");
}

#[test]
fn generate_with_scope_and_bang() {
    let c = model("feat", Some("api"), "add endpoint", None, true, "");
    assert_eq!(c.generate(), "feat(api)!: add endpoint");
}

#[test]
fn generate_full() {
    let c = model(
        "feat",
        Some("api"),
        "add endpoint",
        Some("first line\nsecond line"),
        true,
        "the response shape changed",
    );
    assert_eq!(
        c.generate(),
        "feat(api)!: add endpoint\n\nfirst line\nsecond line\n\nBREAKING CHANGE: the response shape changed"
    );
}

#[test]
fn generate_body_without_breaking() {
    let c = model("docs", None, "explain setup", Some("more words"), false, "");
    assert_eq!(c.generate(), "docs: explain setup\n\nmore words");
}

#[test]
fn no_breaking_footer_when_flag_unset() {
    // the stored breaking description is not rendered while the flag is off
    let c = model("fix", None, "tidy", None, false, "would be a footer");
    let msg = c.generate();
    assert!(!msg.contains("BREAKING CHANGE:"));
    assert_eq!(msg, "fix: tidy");
}

#[test]
fn no_breaking_footer_when_description_empty() {
    let c = model("fix", None, "tidy", None, true, "");
    let msg = c.generate();
    assert!(!msg.contains("BREAKING CHANGE:"));
    assert_eq!(msg, "fix!: tidy");
}

#[test]
fn breaking_footer_present() {
    let c = model("fix", None, "tidy", None, true, "api changed");
    let msg = c.generate();
    assert!(msg.ends_with("\n\nBREAKING CHANGE: api changed"));
    assert_eq!(msg, "fix!: tidy\n\nBREAKING CHANGE: api changed");
}

#[test]
fn validate_accepts_example() {
    assert!(ConventionalCommit::validate("feat(parser): add new parsing algorithm").is_ok());
}

#[test]
fn validate_rejects_with_diagnostic() {
    let err = ConventionalCommit::validate("added stuff").unwrap_err();
    assert!(!err.is_empty());
    // the diagnostic carries the example and the offending line
    assert!(err.contains("feat(parser): add new parsing algorithm"));
    assert!(err.contains("added stuff"));
    assert!(err.contains("<type>[optional scope]: <description>"));
}

#[test]
fn validate_empty_message_distinct_diagnostic() {
    let err = ConventionalCommit::validate("").unwrap_err();
    assert_eq!(err, "Commit message is empty");
    assert!(!err.contains("<type>[optional scope]: <description>"));
}

#[test]
fn validate_accepts_variants() {
    assert!(ConventionalCommit::validate("fix: x").is_ok());
    assert!(ConventionalCommit::validate("fix!: x").is_ok());
    assert!(ConventionalCommit::validate("fix(api)!: y").is_ok());
    // an empty scope is allowed by the grammar
    assert!(ConventionalCommit::validate("fix(): z").is_ok());
    // only the first line is checked
    assert!(ConventionalCommit::validate("feat: ok\nwhatever follows").is_ok());
    // a carriage-return line ending is stripped before the check
    assert!(ConventionalCommit::validate("fix: ok\r\nmore").is_ok());
}

#[test]
fn validate_rejects_variants() {
    // uppercase type
    assert!(ConventionalCommit::validate("Fix: x").is_err());
    // missing space after the colon
    assert!(ConventionalCommit::validate("fix:x").is_err());
    // no description
    assert!(ConventionalCommit::validate("fix: ").is_err());
    // no type
    assert!(ConventionalCommit::validate("(api): x").is_err());
    // unclosed scope
    assert!(ConventionalCommit::validate("fix(api: x").is_err());
    // a parenthesis inside the scope
    assert!(ConventionalCommit::validate("fix(a(b): x").is_err());
    // not anchored at the line start
    assert!(ConventionalCommit::validate(" fix: x").is_err());
    // a blank first line fails even when a later line would conform
    assert!(ConventionalCommit::validate("\nfix: x").is_err());
}

#[test]
fn format_then_validate_round_trip() {
    let c = model("fix", None, "null check", None, false, "");
    let msg = c.generate();
    assert_eq!(msg, "fix: null check");
    assert!(ConventionalCommit::validate(&msg).is_ok());
}

#[test]
fn default_model() {
    let c = ConventionalCommit::default();
    assert_eq!(c.commit_type, "feat");
    assert!(c.scope.is_none());
    assert!(c.description.is_empty());
    assert!(c.body.is_none());
    assert!(!c.breaking_change);
    assert!(c.breaking_change_description.is_empty());
}

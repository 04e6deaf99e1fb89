use plasma::action::{plan, Action, FixContext};
use plasma::ast::{
    ActionKind, Condition, Modality, Overlay, OverlayEffect, Policy, PolicyVersion, Resource, Rule,
    Subject,
};
use plasma::diff::{diff, HeaderChange};
use plasma::eval::{compare_versions, evaluate, glob_matches};
use plasma::facts::{FactSet, GitFacts};
use plasma::finding::{FindingStatus, Severity};
use plasma::schema::{builtin_repo_hygiene, supported_schema_version, validate, SchemaError};

fn facts(root: &str, files: &[&str], headers: &[(&str, Option<&str>)], metadata: &[(&str, &str)]) -> FactSet {
    let mut f = FactSet::new(root.to_string());
    for file in files {
        f.insert_file(file.to_string());
    }
    for (k, v) in headers {
        f.insert_header(k.to_string(), v.map(|s| s.to_string()));
    }
    for (k, v) in metadata {
        f.insert_metadata(k.to_string(), v.to_string());
    }
    f
}

fn ctx() -> FixContext {
    FixContext {
        license: "MPL-2.0".to_string(),
        author: "Tester <t@example.com>".to_string(),
        year: "2026".to_string(),
    }
}

fn rule(
    id: &str,
    modality: Modality,
    severity: Severity,
    subject: Subject,
    resource: Resource,
    condition: Condition,
    action: ActionKind,
) -> Rule {
    Rule {
        id: id.to_string(),
        modality,
        severity,
        subject,
        resource,
        condition,
        action,
        rationale: None,
        source: None,
    }
}

fn file(path: &str) -> Resource {
    Resource::File { path: path.to_string() }
}

fn rs_files() -> Subject {
    Subject::FilePattern { patterns: vec!["**/*.rs".to_string()] }
}

fn policy(id: &str, rules: Vec<Rule>, overlays: Vec<Overlay>) -> Policy {
    Policy {
        schema_version: PolicyVersion { major: 0, minor: 1 },
        id: id.to_string(),
        version: PolicyVersion { major: 1, minor: 0 },
        rules,
        overlays,
    }
}

fn license_rule(severity: Severity) -> Rule {
    rule(
        "license-present",
        Modality::Obligation,
        severity,
        Subject::Repo,
        file("LICENSE*"),
        Condition::True,
        ActionKind::Present,
    )
}

#[test]
fn test_missing_header_becomes_action() {
    let p = policy(
        "t",
        vec![rule(
            "headers",
            Modality::Obligation,
            Severity::Warning,
            rs_files(),
            Resource::Header,
            Condition::True,
            ActionKind::Present,
        )],
        vec![],
    );
    let f = facts("root", &["a.rs", "b.rs"], &[("a.rs", Some("MPL-2.0")), ("b.rs", None)], &[]);
    let eval = evaluate(&p, &f);
    let pl = plan(&p, &eval, &ctx());
    assert_eq!(pl.actions.len(), 1);
    assert!(pl.manual.is_empty());
    assert_eq!(
        pl.actions[0].action,
        Action::AddSpdxHeader {
            file: "b.rs".to_string(),
            license: "MPL-2.0".to_string(),
            author: "Tester <t@example.com>".to_string(),
            year: "2026".to_string(),
        }
    );
}

#[test]
fn test_missing_concrete_file_becomes_create_action() {
    let p = policy(
        "t",
        vec![rule(
            "contributing-present",
            Modality::Obligation,
            Severity::Error,
            Subject::Repo,
            file("CONTRIBUTING.md"),
            Condition::True,
            ActionKind::Present,
        )],
        vec![],
    );
    let eval = evaluate(&p, &facts("root", &["README.md"], &[], &[]));
    let pl = plan(&p, &eval, &ctx());
    assert!(pl.manual.is_empty());
    assert_eq!(pl.actions.len(), 1);
    match &pl.actions[0].action {
        Action::CreateFile { path, contents } => {
            assert_eq!(path, "CONTRIBUTING.md");
            assert!(contents.contains("contributing-present"));
            assert!(contents.starts_with("# TODO"));
        }
        other => panic!("expected CreateFile, got {other:?}"),
    }
}

#[test]
fn test_missing_file_is_manual() {
    let p = policy("t", vec![license_rule(Severity::Error)], vec![]);
    let eval = evaluate(&p, &facts("root", &["README.md"], &[], &[]));
    let pl = plan(&p, &eval, &ctx());
    assert!(pl.actions.is_empty());
    assert_eq!(pl.manual.len(), 1);
    assert_eq!(pl.manual[0].subject, "repo");
}

#[test]
fn test_clean_eval_empty_plan() {
    let p = builtin_repo_hygiene();
    let f = facts("root", &["LICENSE", "README.adoc", "a.rs"], &[("a.rs", Some("MPL-2.0"))], &[]);
    let eval = evaluate(&p, &f);
    let pl = plan(&p, &eval, &ctx());
    assert!(pl.is_empty());
}

#[test]
fn test_identical_snapshots_empty_diff() {
    let a = facts("r", &["x.rs"], &[("x.rs", Some("MPL-2.0"))], &[("version", "1.0")]);
    let d = diff(&a, &a.clone());
    assert!(d.is_empty());
    assert_eq!(d.change_count(), 0);
}

#[test]
fn test_files_added_and_removed() {
    let before = facts("r", &["a.rs", "gone.rs"], &[], &[]);
    let after = facts("r", &["a.rs", "new.rs"], &[], &[]);
    let d = diff(&before, &after);
    assert_eq!(d.files_added, vec!["new.rs".to_string()]);
    assert_eq!(d.files_removed, vec!["gone.rs".to_string()]);
}

#[test]
fn test_header_transition() {
    let before = facts("r", &["a.rs"], &[("a.rs", None)], &[]);
    let after = facts("r", &["a.rs"], &[("a.rs", Some("MPL-2.0"))], &[]);
    let d = diff(&before, &after);
    assert_eq!(
        d.headers_changed,
        vec![HeaderChange {
            file: "a.rs".to_string(),
            before: None,
            after: Some("MPL-2.0".to_string()),
        }]
    );
    let d = diff(&after, &before);
    assert_eq!(d.headers_changed[0].before, Some("MPL-2.0".to_string()));
    assert_eq!(d.headers_changed[0].after, None);
}

#[test]
fn test_removed_file_header_not_double_counted() {
    let before = facts("r", &["a.rs"], &[("a.rs", Some("MPL-2.0"))], &[]);
    let after = facts("r", &[], &[], &[]);
    let d = diff(&before, &after);
    assert_eq!(d.files_removed, vec!["a.rs".to_string()]);
    assert!(d.headers_changed.is_empty());
}

#[test]
fn test_metadata_added_changed_removed() {
    let before = facts("r", &[], &[], &[("version", "1.0"), ("old", "x")]);
    let after = facts("r", &[], &[], &[("version", "2.0"), ("new", "y")]);
    let d = diff(&before, &after);
    assert_eq!(d.metadata_changed.len(), 3);
    assert_eq!(d.metadata_changed[0].key, "new");
    assert_eq!(d.metadata_changed[0].before, None);
    assert_eq!(d.metadata_changed[1].key, "old");
    assert_eq!(d.metadata_changed[1].after, None);
    assert_eq!(d.metadata_changed[2].key, "version");
    assert_eq!(d.metadata_changed[2].before, Some("1.0".to_string()));
    assert_eq!(d.metadata_changed[2].after, Some("2.0".to_string()));
}

#[test]
fn test_git_transition() {
    let before = facts("r", &[], &[], &[]);
    let mut after = facts("r", &[], &[], &[]);
    after.git = GitFacts { is_repo: true, head_ref: Some("refs/heads/main".to_string()) };
    let d = diff(&before, &after);
    let git = d.git_changed.unwrap();
    assert!(!git.before.is_repo);
    assert!(git.after.is_repo);
}

#[test]
fn test_diff_is_deterministic() {
    let before = facts("r", &["b.rs", "a.rs"], &[("b.rs", None)], &[("k", "1")]);
    let after = facts("r", &["c.rs", "a.rs"], &[], &[("k", "2")]);
    let d1 = diff(&before, &after);
    let d2 = diff(&before, &after);
    assert_eq!(d1, d2);
}

#[test]
fn test_glob_zero_component_doublestar() {
    assert!(glob_matches("**/*.rs", "main.rs"));
    assert!(glob_matches("**/*.rs", "src/deep/main.rs"));
    assert!(!glob_matches("**/*.rs", "main.toml"));
    assert!(glob_matches("LICENSE*", "LICENSE"));
    assert!(!glob_matches("LICENSE*", "docs/LICENSE"));
}

#[test]
fn test_obligation_present_violation_and_pass() {
    let p = policy("t", vec![license_rule(Severity::Error)], vec![]);
    let bad = evaluate(&p, &facts("test-root", &["README.md"], &[], &[]));
    assert_eq!(bad.summary.errors, 1);
    assert_eq!(bad.findings[0].status, FindingStatus::Violation);
    let good = evaluate(&p, &facts("test-root", &["LICENSE", "README.md"], &[], &[]));
    assert_eq!(good.summary.errors, 0);
    assert_eq!(good.summary.passes, 1);
}

#[test]
fn test_prohibition_present() {
    let p = policy(
        "t",
        vec![rule(
            "no-lockfiles",
            Modality::Prohibition,
            Severity::Warning,
            Subject::Repo,
            file("package-lock.json"),
            Condition::True,
            ActionKind::Present,
        )],
        vec![],
    );
    let bad = evaluate(&p, &facts("test-root", &["package-lock.json"], &[], &[]));
    assert_eq!(bad.summary.warnings, 1);
    let good = evaluate(&p, &facts("test-root", &["Cargo.lock"], &[], &[]));
    assert_eq!(good.summary.warnings, 0);
    assert_eq!(good.summary.passes, 1);
}

#[test]
fn test_file_pattern_header_rule() {
    let p = policy(
        "t",
        vec![rule(
            "headers",
            Modality::Obligation,
            Severity::Warning,
            rs_files(),
            Resource::Header,
            Condition::True,
            ActionKind::Present,
        )],
        vec![],
    );
    let f = facts(
        "test-root",
        &["src/a.rs", "src/b.rs", "README.md"],
        &[("src/a.rs", Some("MPL-2.0")), ("src/b.rs", None)],
        &[],
    );
    let eval = evaluate(&p, &f);
    assert_eq!(eval.summary.warnings, 1);
    assert_eq!(eval.summary.passes, 1);
    let violation = eval.findings.iter().find(|f| f.status == FindingStatus::Violation).unwrap();
    assert_eq!(violation.subject, "src/b.rs");
}

#[test]
fn test_header_valid_action() {
    let p = policy(
        "t",
        vec![rule(
            "headers-parse",
            Modality::Obligation,
            Severity::Warning,
            rs_files(),
            Resource::Header,
            Condition::HasSpdxHeader,
            ActionKind::Valid,
        )],
        vec![],
    );
    let f = facts(
        "test-root",
        &["good.rs", "bad.rs", "none.rs"],
        &[
            ("good.rs", Some("MIT OR Apache-2.0")),
            ("bad.rs", Some("NOT ) A ( LICENSE")),
            ("none.rs", None),
        ],
        &[],
    );
    let eval = evaluate(&p, &f);
    assert_eq!(eval.summary.warnings, 1);
    assert_eq!(eval.summary.passes, 1);
}

#[test]
fn test_condition_gates_rule() {
    let p = policy(
        "t",
        vec![rule(
            "changelog-once-versioned",
            Modality::Obligation,
            Severity::Error,
            Subject::Repo,
            file("CHANGELOG*"),
            Condition::VersionAtLeast { version: "1.0".to_string() },
            ActionKind::Present,
        )],
        vec![],
    );
    let eval = evaluate(&p, &facts("test-root", &["README.md"], &[], &[]));
    assert_eq!(eval.findings.len(), 0);
    let mut f = facts("test-root", &["README.md"], &[], &[]);
    f.insert_metadata("version".to_string(), "1.2.0".to_string());
    let eval = evaluate(&p, &f);
    assert_eq!(eval.summary.errors, 1);
}

#[test]
fn test_permission_never_violates() {
    let p = policy(
        "t",
        vec![rule(
            "vendoring-permitted",
            Modality::Permission,
            Severity::Error,
            Subject::Repo,
            file("vendor/**"),
            Condition::True,
            ActionKind::Present,
        )],
        vec![],
    );
    let eval = evaluate(&p, &facts("test-root", &[], &[], &[]));
    assert_eq!(eval.summary.errors, 0);
    assert_eq!(eval.summary.passes, 1);
}

// The policy is built directly: its text form has an `override-rules`
// overlay, which the policy loader rejects (the v0 loader takes
// `add-rules` only), so loading it would fail before evaluation. The
// evaluation checks are those of the original test.
#[test]
fn test_override_disables_base_rule() {
    let p = policy(
        "t",
        vec![license_rule(Severity::Error)],
        vec![Overlay {
            id: "vendored-exemption".to_string(),
            applies_to: vec![],
            effects: vec![OverlayEffect::OverrideRules { ids: vec!["license-present".to_string()] }],
        }],
    );
    let eval = evaluate(&p, &facts("test-root", &["README.md"], &[], &[]));
    assert_eq!(eval.findings.len(), 0);
}

// The policy is built directly: its text form has an `override-rules`
// overlay, which the policy loader rejects (the v0 loader takes
// `add-rules` only), so loading it would fail before evaluation. The
// evaluation checks are those of the original test.
#[test]
fn test_override_with_replacement() {
    let p = policy(
        "t",
        vec![license_rule(Severity::Error)],
        vec![Overlay {
            id: "relax".to_string(),
            applies_to: vec![],
            effects: vec![
                OverlayEffect::OverrideRules { ids: vec!["license-present".to_string()] },
                OverlayEffect::AddRules { rules: vec![license_rule(Severity::Warning)] },
            ],
        }],
    );
    let eval = evaluate(&p, &facts("test-root", &["README.md"], &[], &[]));
    assert_eq!(eval.summary.errors, 0);
    assert_eq!(eval.summary.warnings, 1);
    assert_eq!(eval.findings[0].source.as_deref(), Some("overlay:relax"));
}

#[test]
fn test_overlay_rules_carry_origin() {
    let p = policy(
        "t",
        vec![],
        vec![Overlay {
            id: "extra".to_string(),
            applies_to: vec![],
            effects: vec![OverlayEffect::AddRules {
                rules: vec![rule(
                    "extra-rule",
                    Modality::Obligation,
                    Severity::Error,
                    Subject::Repo,
                    file("SECURITY.md"),
                    Condition::True,
                    ActionKind::Present,
                )],
            }],
        }],
    );
    let eval = evaluate(&p, &facts("test-root", &[], &[], &[]));
    assert_eq!(eval.summary.errors, 1);
    assert_eq!(eval.findings[0].source.as_deref(), Some("overlay:extra"));
}

#[test]
fn test_determinism_identical_runs() {
    let p = builtin_repo_hygiene();
    let f = facts(
        "test-root",
        &["LICENSE", "README.adoc", "src/main.rs", "Cargo.toml"],
        &[("src/main.rs", Some("MPL-2.0")), ("Cargo.toml", Some("MPL-2.0"))],
        &[],
    );
    let a = evaluate(&p, &f);
    let b = evaluate(&p, &f);
    assert_eq!(a, b);
}

#[test]
fn test_version_compare() {
    assert_eq!(compare_versions("1.2.3", "1.0"), Some(true));
    assert_eq!(compare_versions("0.9", "1.0"), Some(false));
    assert_eq!(compare_versions("1.0.0", "1.0"), Some(true));
    assert_eq!(compare_versions("2", "1.9.9"), Some(true));
    assert_eq!(compare_versions("garbage", "1.0"), None);
}

#[test]
fn test_builtin_loads() {
    let p = builtin_repo_hygiene();
    assert_eq!(p.id, "repo-hygiene");
    assert_eq!(p.schema_version, supported_schema_version());
    assert!(!p.rules.is_empty());
}

#[test]
fn test_rejects_future_schema() {
    let mut p = policy("future", vec![], vec![]);
    p.schema_version = PolicyVersion { major: 9, minor: 0 };
    let err = validate(&p).unwrap_err();
    assert!(matches!(err, SchemaError::UnsupportedSchemaVersion { .. }));
}

#[test]
fn test_rejects_reserved_action() {
    let p = policy(
        "reserved",
        vec![rule(
            "r1",
            Modality::Obligation,
            Severity::Error,
            Subject::Repo,
            file("LICENSE"),
            Condition::True,
            ActionKind::ConsistentWith { id: "decision-1".to_string() },
        )],
        vec![],
    );
    let err = validate(&p).unwrap_err();
    assert!(matches!(err, SchemaError::ReservedConstruct { .. }));
}

#[test]
fn test_rejects_duplicate_rule_ids() {
    let p = policy(
        "dupes",
        vec![
            rule("same", Modality::Obligation, Severity::Error, Subject::Repo, file("LICENSE"), Condition::True, ActionKind::Present),
            rule("same", Modality::Obligation, Severity::Error, Subject::Repo, file("README"), Condition::True, ActionKind::Present),
        ],
        vec![],
    );
    let err = validate(&p).unwrap_err();
    assert!(matches!(err, SchemaError::DuplicateRuleId(_)));
}

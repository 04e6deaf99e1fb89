use plasma::a2ml::{parse, ContentBlock};
use plasma::action::{plan, Action, FixContext, ManualItem, Plan, PlannedAction};
use plasma::apply::{backup_extension, header_block, with_spdx_header, ApplyOptions, ApplyOutcome};
use plasma::ast::{ActionKind, Condition, Modality, Policy, PolicyVersion, Resource, Rule, Subject};
use plasma::cli::{
    badge_text, check_exit_code, describe_action, diff_exit_code, fix_context, fix_exit_code,
    init_header, license_stub, overlay_rule_count, parse_severity, policy_summary, render_diff,
    with_init_header, FixOptions, EXIT_DIFFERENT, EXIT_PENDING, EXIT_VIOLATIONS,
};
use plasma::compat::{check_compatibility, Compatibility};
use plasma::content::levenshtein;
use plasma::diff::diff;
use plasma::eval::evaluate;
use plasma::facts::FactSet;
use plasma::family::{BaseLicense, License, PalimpsestLayer, PalimpsestLicense, PalimpsestVariant, Version};
use plasma::finding::{Evaluation, Finding, FindingStatus, Severity, Summary};
use plasma::migrate::{
    cargo_license_field, detect_from_content, license_backup_name, package_license_field,
    replace_all, replace_if_present, skip_in_migration, spdx_identifier_line,
};
use plasma::schema::builtin_repo_hygiene;
use plasma::a2ml::PolicyError;
use plasma::union::{
    red_flags_in, GrievanceGenerator, Union, UnionRules, ValidationMode, Validator,
};

fn facts(files: &[&str], headers: &[(&str, Option<&str>)], metadata: &[(&str, &str)]) -> FactSet {
    let mut f = FactSet::new("r".to_string());
    for file in files {
        f.insert_file(file.to_string());
    }
    for (k, v) in headers {
        f.insert_header(k.to_string(), v.map(|s| s.to_string()));
    }
    for (k, v) in metadata {
        f.insert_metadata(k.to_string(), v.to_string());
    }
    f
}

fn ctx() -> FixContext {
    FixContext {
        license: "MPL-2.0".to_string(),
        author: "Tester <t@example.com>".to_string(),
        year: "2026".to_string(),
    }
}

// ---- A2ML documents ----

const NUJ: &str = "@abstract\nJournalist terms.\n@end\n\n@requires\ntruth-accuracy\nindependence\n@end\n\n# Assignment Terms\n\n- Payment within 30 days\nSources protected.\n\n@refs\n[NUJ Code](https://www.nuj.org.uk/)\n@end\n";

#[test]
fn a2ml_document_structure() {
    let doc = parse(NUJ).unwrap();
    assert_eq!(doc.abstract_text.as_deref(), Some("Journalist terms."));
    assert_eq!(doc.requirements, vec!["truth-accuracy".to_string(), "independence".to_string()]);
    assert_eq!(doc.sections.len(), 1);
    assert_eq!(doc.sections[0].level, 1);
    assert_eq!(doc.sections[0].heading, "Assignment Terms");
    assert_eq!(doc.sections[0].blocks.len(), 2);
    assert!(matches!(&doc.sections[0].blocks[0], ContentBlock::Item(t) if t == "Payment within 30 days"));
    assert!(matches!(&doc.sections[0].blocks[1], ContentBlock::Paragraph(t) if t == "Sources protected."));
    assert_eq!(doc.references.len(), 1);
    assert_eq!(doc.references[0].text, "NUJ Code");
    assert_eq!(doc.references[0].url, "https://www.nuj.org.uk/");
    assert_eq!(doc.raw, "");
}

#[test]
fn a2ml_unclosed_directive_is_kept_raw() {
    let input = "@abstract\nThis contract has no closing tag.";
    let doc = parse(input).unwrap();
    assert!(doc.abstract_text.is_none());
    assert!(doc.sections.is_empty());
    assert_eq!(doc.raw, input);
}

#[test]
fn a2ml_heading_level_counts_hashes() {
    let doc = parse("### Deep\n- x\n").unwrap();
    assert_eq!(doc.sections[0].level, 3);
    assert_eq!(doc.sections[0].heading, "Deep");
}

#[test]
fn a2ml_malformed_reference_is_skipped() {
    let doc = parse("@refs\n!!! not a link !!!\n[a](b)\n@end\n").unwrap();
    assert_eq!(doc.references.len(), 1);
    assert_eq!(doc.references[0].text, "a");
    assert_eq!(doc.references[0].url, "b");
}

// ---- Union schemas and validation ----

#[test]
fn union_clause_lists() {
    assert_eq!(Union::Nuj.required_clauses(), vec!["truth-accuracy", "independence", "source-protection"]);
    assert_eq!(Union::Iww.red_flag_patterns(), vec!["unpaid", "payment on publication", "NET 90"]);
}

#[test]
fn iww_net_days_rule() {
    let rules = UnionRules { union: Union::Iww };
    assert!(rules.check_clause_value("payment-terms.net-days", "30").unwrap());
    assert!(!rules.check_clause_value("payment-terms.net-days", "90").unwrap());
    assert!(rules.check_clause_value("other", "whatever").unwrap());
    match rules.check_clause_value("payment-terms.net-days", "soon") {
        Err(PolicyError::ValidationError(m)) => assert_eq!(m, "Invalid days"),
        other => panic!("expected a validation error, got {other:?}"),
    }
    let nuj = UnionRules { union: Union::Nuj };
    assert!(nuj.check_clause_value("payment-terms.net-days", "soon").unwrap());
}

#[test]
fn checked_validation_reports_missing_clauses() {
    let doc = parse(NUJ).unwrap();
    let clauses: Vec<String> = Union::Nuj.required_clauses().iter().map(|s| s.to_string()).collect();
    let report = Validator { mode: ValidationMode::Checked }.validate(&doc, &clauses);
    assert!(!report.valid);
    assert_eq!(report.errors.len(), 1);
    assert_eq!(report.errors[0].message, "Missing required clause: source-protection");
    assert_eq!(report.required_clauses.len(), 3);
    assert!(report.required_clauses[0].present);
    assert!(!report.required_clauses[2].present);
    let lax = Validator { mode: ValidationMode::Lax }.validate(&doc, &clauses);
    assert!(lax.valid);
    assert!(lax.required_clauses.is_empty());
}

#[test]
fn checked_validation_passes_when_all_attested() {
    let doc = parse(NUJ).unwrap();
    let clauses = vec!["truth-accuracy".to_string(), "independence".to_string()];
    let report = Validator { mode: ValidationMode::Checked }.validate(&doc, &clauses);
    assert!(report.valid);
    assert!(report.errors.is_empty());
}

#[test]
fn attested_validation_warns_and_requires_references() {
    let doc = parse("@requires\ntruth-accuracy\nextra-claim\n@end\n").unwrap();
    let clauses = vec!["truth-accuracy".to_string()];
    let report = Validator { mode: ValidationMode::Attested }.validate(&doc, &clauses);
    assert!(!report.valid);
    assert_eq!(report.errors.len(), 1);
    assert_eq!(report.errors[0].message, "Attestations are not backed by any reference");
    assert_eq!(report.warnings.len(), 1);
    assert_eq!(report.warnings[0].message, "Unrecognised attestation: extra-claim");
}

#[test]
fn grievance_letter_fills_placeholders() {
    let doc = parse(NUJ).unwrap();
    let mut report = Validator { mode: ValidationMode::Lax }.validate(&doc, &[]);
    report.contract_path = "contract.a2ml".to_string();
    let g = GrievanceGenerator {
        union: Some("NUJ".to_string()),
        template: Some("{{union}} / {{contract_id}}: {{violation}}".to_string()),
    };
    assert_eq!(g.generate("work for hire", &report).unwrap(), "NUJ / contract.a2ml: work for hire");
    let default = GrievanceGenerator { union: None, template: None };
    let letter = default.generate("unpaid", &report).unwrap();
    assert!(letter.starts_with("# GRIEVANCE LETTER\n"));
    assert!(letter.contains("Contract: contract.a2ml"));
    assert!(letter.contains("concerning: unpaid"));
}

#[test]
fn grievance_template_errors() {
    let doc = parse("").unwrap();
    let report = Validator { mode: ValidationMode::Lax }.validate(&doc, &[]);
    let unknown = GrievanceGenerator { union: None, template: Some("{{employer}}".to_string()) };
    assert!(matches!(unknown.generate("x", &report), Err(PolicyError::TemplateError(m)) if m == "unknown placeholder: employer"));
    let unclosed = GrievanceGenerator { union: None, template: Some("Dear {{union".to_string()) };
    assert!(matches!(unclosed.generate("x", &report), Err(PolicyError::TemplateError(m)) if m == "unclosed placeholder"));
}

#[test]
fn red_flags_found_in_order() {
    let patterns: Vec<String> = Union::Nuj.red_flag_patterns().iter().map(|s| s.to_string()).collect();
    let found = red_flags_in("This is work for hire; all rights pass to us.", &patterns);
    assert_eq!(found, vec!["all rights".to_string(), "work for hire".to_string()]);
}

// ---- Applying a plan ----

#[test]
fn header_is_added_once() {
    let first = with_spdx_header("plain.rs", "fn main() {}\n", "MPL-2.0", "Tester", "2026").unwrap();
    assert_eq!(first, "// SPDX-License-Identifier: MPL-2.0\n// Copyright (c) 2026 Tester\n\nfn main() {}\n");
    assert!(with_spdx_header("plain.rs", &first, "MPL-2.0", "Tester", "2026").is_none());
    let py = with_spdx_header("tool.py", "print(1)\n", "MIT", "A", "2026").unwrap();
    assert!(py.starts_with("# SPDX-License-Identifier: MIT\n# Copyright (c) 2026 A\n\n"));
}

#[test]
fn header_block_and_backup_names() {
    assert_eq!(header_block("--", "MIT", "2026", "CHANGE-ME"), "-- SPDX-License-Identifier: MIT\n-- Copyright (c) 2026 CHANGE-ME\n\n");
    assert_eq!(backup_extension(""), "bak");
    assert_eq!(backup_extension("rs"), "rs.bak");
    assert!(ApplyOptions::default().backup);
}

// ---- Command decisions ----

#[test]
fn severity_option_parsing() {
    assert_eq!(parse_severity("error").unwrap(), Severity::Error);
    assert_eq!(parse_severity("warning").unwrap(), Severity::Warning);
    assert_eq!(parse_severity("info").unwrap(), Severity::Info);
    assert_eq!(parse_severity("loud").unwrap_err(), "unknown severity \"loud\": use error, warning, or info");
}

#[test]
fn check_exit_code_follows_threshold() {
    let p = builtin_repo_hygiene();
    let e = evaluate(&p, &facts(&["README.md"], &[], &[]));
    assert_eq!(check_exit_code(&e, Severity::Error), EXIT_VIOLATIONS);
    let clean = evaluate(&p, &facts(&["LICENSE", "README.md"], &[], &[]));
    assert_eq!(check_exit_code(&clean, Severity::Error), 0);
}

#[test]
fn fix_descriptions_and_exit_codes() {
    let add = Action::AddSpdxHeader {
        file: "b.rs".to_string(),
        license: "MPL-2.0".to_string(),
        author: "A".to_string(),
        year: "2026".to_string(),
    };
    assert_eq!(describe_action(&add), "add SPDX header (MPL-2.0) to b.rs");
    let create = Action::CreateFile { path: "SECURITY.md".to_string(), contents: String::new() };
    assert_eq!(describe_action(&create), "create SECURITY.md (placeholder content)");
    let empty = Plan { actions: vec![], manual: vec![] };
    let busy = Plan {
        actions: vec![PlannedAction { rule_id: "r".to_string(), subject: "b.rs".to_string(), action: add }],
        manual: vec![ManualItem { rule_id: "m".to_string(), subject: "repo".to_string(), reason: "x".to_string() }],
    };
    assert_eq!(fix_exit_code(false, &empty, None), 0);
    assert_eq!(fix_exit_code(false, &busy, None), EXIT_PENDING);
    let clean = ApplyOutcome::default();
    let failed = ApplyOutcome { applied: vec![], skipped: vec![], errors: vec![("b.rs".to_string(), "denied".to_string())] };
    assert_eq!(fix_exit_code(true, &busy, Some(&clean)), 0);
    assert_eq!(fix_exit_code(true, &busy, Some(&failed)), EXIT_PENDING);
}

#[test]
fn fix_context_defaults() {
    let opts = FixOptions { path: ".", policy: None, license: "MIT", author: None, apply_changes: false, backup: true, format: "human" };
    let c = fix_context(&opts);
    assert_eq!(c.license, "MIT");
    assert_eq!(c.author, "CHANGE-ME <your@email.com>");
    assert_eq!(c.year, "2026");
}

#[test]
fn diff_rendering() {
    let before = facts(&["a.rs", "gone.rs"], &[("a.rs", None)], &[("version", "1.0")]);
    let after = facts(&["a.rs", "new.rs"], &[("a.rs", Some("MPL-2.0"))], &[("version", "2.0")]);
    let d = diff(&before, &after);
    assert_eq!(
        render_diff(&d),
        "Snapshots differ (4 change(s)):\n\n  + added:   new.rs\n  - removed: gone.rs\n  ~ header:  a.rs (<none> -> MPL-2.0)\n  ~ metadata: version (1.0 -> 2.0)\n"
    );
    assert_eq!(diff_exit_code(&d), EXIT_DIFFERENT);
    let same = diff(&before, &before);
    assert_eq!(render_diff(&same), "Snapshots are identical.\n");
    assert_eq!(diff_exit_code(&same), 0);
}

#[test]
fn policy_summary_line() {
    let p = builtin_repo_hygiene();
    assert_eq!(overlay_rule_count(&p), 0);
    assert_eq!(policy_summary(&p), "OK: repo-hygiene v1.0 (schema 0.1) — 4 base rule(s), 0 overlay rule(s)");
}

#[test]
fn badge_markup() {
    let t = badge_text("MPL-2.0", "flat");
    assert!(t.starts_with("MPL-2.0 Badge\n\nMarkdown:\n  [![License: MPL-2.0](https://img.shields.io/badge/License-MPL--2.0-blue.svg?style=flat)](https://spdx.org/licenses/MPL-2.0.html)\n"));
    assert!(t.ends_with("     :alt: License: MPL-2.0\n"));
}

#[test]
fn init_texts() {
    assert_eq!(license_stub("MIT"), "SPDX-License-Identifier: MIT\n\nTODO: replace this stub with the full MIT license text.\n");
    let h = init_header("MIT", "2026", "A <a@b>");
    assert_eq!(h, "# SPDX-License-Identifier: MIT\n# SPDX-FileCopyrightText: 2026 A <a@b>\n");
    assert_eq!(with_init_header("[package]\n", &h).unwrap(), format!("{h}[package]\n"));
    assert!(with_init_header("# SPDX-License-Identifier: MIT\n", &h).is_none());
}

// ---- Migration ----

#[test]
fn license_detection() {
    assert_eq!(detect_from_content("MIT License\nPermission is hereby granted").unwrap(), "MIT");
    assert_eq!(detect_from_content("Apache License\nVersion 2.0, January 2004").unwrap(), "Apache-2.0");
    assert_eq!(detect_from_content("GNU GENERAL PUBLIC LICENSE Version 3").unwrap(), "GPL-3.0");
    assert_eq!(detect_from_content("Palimpsest license").unwrap(), "PMPL-1.0");
    assert!(detect_from_content("nothing here").unwrap_err().starts_with("Could not auto-detect license."));
}

#[test]
fn migration_edits() {
    assert_eq!(replace_all("a-b-c", "-", "--"), "a--b--c");
    assert_eq!(replace_all("aaa", "aa", "b"), "ba");
    let old = spdx_identifier_line("MIT");
    assert_eq!(old, "SPDX-License-Identifier: MIT");
    assert_eq!(
        replace_if_present("// SPDX-License-Identifier: MIT\n", &old, "SPDX-License-Identifier: PMPL-2.0-or-later").unwrap(),
        "// SPDX-License-Identifier: PMPL-2.0-or-later\n"
    );
    assert!(replace_if_present("fn main() {}", &old, "x").is_none());
    assert_eq!(cargo_license_field("MIT"), "license = \"MIT\"");
    assert_eq!(package_license_field("MIT"), "\"license\": \"MIT\"");
    assert_eq!(license_backup_name("GPL/2"), "LICENSE.GPL-2.bak");
    assert!(skip_in_migration(".git"));
    assert!(skip_in_migration("node_modules"));
    assert!(!skip_in_migration("src"));
}

// ---- Laws on concrete values ----

#[test]
fn law_compatibility_reflexive_and_papl() {
    let gpl = License::Base(BaseLicense::GPL3);
    assert_eq!(check_compatibility(&gpl, &gpl), Compatibility::Compatible);
    let v = Version { major: 1, minor: 0, patch: 0 };
    let papl = License::Palimpsest(PalimpsestLicense {
        variant: PalimpsestVariant::PAPL,
        version: v.clone(),
        base: BaseLicense::Apache2,
        layer: PalimpsestLayer::full(v),
        fallback: BaseLicense::Apache2,
        or_later: false,
    });
    let prop = License::Base(BaseLicense::Proprietary);
    assert_eq!(check_compatibility(&prop, &papl), Compatibility::Compatible);
}

#[test]
fn law_compatibility_symmetric_on_bases() {
    let a = License::Base(BaseLicense::GPL2);
    let b = License::Base(BaseLicense::Apache2);
    assert_eq!(check_compatibility(&a, &b), check_compatibility(&b, &a));
}

#[test]
fn law_levenshtein_identity_and_symmetry() {
    assert_eq!(levenshtein("licence", "licence"), 0);
    assert_eq!(levenshtein("flaw", "lawn"), levenshtein("lawn", "flaw"));
    assert_eq!(levenshtein("flaw", "lawn"), 2);
    assert!(levenshtein("abc", "") <= 3);
}

#[test]
fn law_diff_of_identical_is_empty_and_reverse_swaps() {
    let a = facts(&["a.rs", "b.rs"], &[("a.rs", Some("MIT"))], &[("k", "1")]);
    let b = facts(&["b.rs", "c.rs"], &[], &[("k", "2")]);
    assert!(diff(&a, &a).is_empty());
    let ab = diff(&a, &b);
    let ba = diff(&b, &a);
    assert_eq!(ab.files_added, ba.files_removed);
    assert_eq!(ab.files_removed, ba.files_added);
    assert_eq!(ab.metadata_changed[0].before, ba.metadata_changed[0].after);
}

#[test]
fn law_plan_accounts_for_every_violation() {
    let p = builtin_repo_hygiene();
    let e = evaluate(&p, &facts(&["a.rs"], &[("a.rs", None)], &[]));
    let violations = e.findings.iter().filter(|f| f.status == FindingStatus::Violation).count();
    let pl = plan(&p, &e, &ctx());
    assert_eq!(pl.actions.len() + pl.manual.len(), violations);
}

#[test]
fn law_permission_never_violates() {
    let p = Policy {
        schema_version: PolicyVersion { major: 0, minor: 1 },
        id: "t".to_string(),
        version: PolicyVersion { major: 1, minor: 0 },
        rules: vec![Rule {
            id: "ok".to_string(),
            modality: Modality::Permission,
            severity: Severity::Error,
            subject: Subject::Repo,
            resource: Resource::File { path: "LICENSE".to_string() },
            condition: Condition::True,
            action: ActionKind::Absent,
            rationale: None,
            source: None,
        }],
        overlays: vec![],
    };
    let e = evaluate(&p, &facts(&["LICENSE"], &[], &[]));
    assert_eq!(e.summary.errors, 0);
    assert_eq!(e.summary.passes, 1);
}

#[test]
fn law_checked_valid_iff_attested() {
    let doc = parse("@requires\na\nb\n@end\n").unwrap();
    let ok = Validator { mode: ValidationMode::Checked }.validate(&doc, &["b".to_string(), "a".to_string()]);
    assert!(ok.valid);
    let missing = Validator { mode: ValidationMode::Checked }.validate(&doc, &["c".to_string()]);
    assert!(!missing.valid);
}

#[test]
fn law_empty_diff_means_same_state() {
    let a = facts(&["b.rs", "a.rs"], &[("b.rs", None), ("a.rs", Some("MIT"))], &[("version", "1.0")]);
    let mut b = FactSet::new("elsewhere".to_string());
    b.insert_metadata("version".to_string(), "1.0".to_string());
    b.insert_header("a.rs".to_string(), Some("MIT".to_string()));
    b.insert_file("a.rs".to_string());
    b.insert_header("b.rs".to_string(), None);
    b.insert_file("b.rs".to_string());
    let d = diff(&a, &b);
    assert!(d.is_empty());
    assert_eq!(a.files, b.files);
    assert_eq!(a.spdx_headers, b.spdx_headers);
    assert_eq!(a.metadata, b.metadata);
}

#[test]
fn law_header_application_is_idempotent() {
    for (file, content) in [("x.hs", "main = pure ()\n"), ("y.scm", "(display 1)\n"), ("z", "")] {
        let once = with_spdx_header(file, content, "GPL-3.0-or-later", "A", "2026").unwrap();
        assert!(with_spdx_header(file, &once, "GPL-3.0-or-later", "A", "2026").is_none());
    }
}

fn repo_violation() -> Evaluation {
    Evaluation {
        root: ".".to_string(),
        policy_id: "t".to_string(),
        policy_version: PolicyVersion { major: 1, minor: 0 },
        schema_version: PolicyVersion { major: 0, minor: 1 },
        findings: vec![Finding {
            rule_id: "license-file-present".to_string(),
            modality: Modality::Obligation,
            severity: Severity::Error,
            subject: "repo".to_string(),
            message: "file \"LICENSE*\" missing for repo".to_string(),
            rationale: Some("Every repository must carry its license text.".to_string()),
            source: None,
            status: FindingStatus::Violation,
        }],
        summary: Summary { errors: 1, ..Default::default() },
    }
}

#[test]
fn sarif_content_of_a_repo_violation() {
    let eval = repo_violation();
    let results = plasma::report::sarif_results(&eval, false);
    assert_eq!(results.len(), 1);
    assert_eq!(results[0].rule_id, "plasma/license-file-present");
    assert_eq!(results[0].level, "error");
    assert!(!results[0].pass);
    assert!(results[0].location.is_none());
    let rules = plasma::report::sarif_rules(&eval);
    assert_eq!(rules.len(), 1);
    assert_eq!(rules[0].id, "plasma/license-file-present");
    assert_eq!(rules[0].short_description.as_deref(), Some("Every repository must carry its license text."));
}

#[test]
fn human_report_of_a_repo_violation() {
    let text = plasma::report::to_human(&repo_violation(), false);
    assert_eq!(
        text,
        "Policy t v1.0 (schema 0.1) against .\n\n  ERROR: [license-file-present] repo — file \"LICENSE*\" missing for repo\n      rationale: Every repository must carry its license text.\n\nSummary: 1 error(s), 0 warning(s), 0 info, 0 rule(s) satisfied\n"
    );
}

#[test]
fn near_miss_detection_needs_distance_two() {
    assert!(plasma::content::detect_license_from_content("mit lice").map_or(true, |m| m.confidence != plasma::content::MatchConfidence::Medium));
    let m = plasma::content::detect_license_from_content("Mozilla Publik License Version 2.0").unwrap();
    assert_eq!(m.confidence, plasma::content::MatchConfidence::Medium);
    assert_eq!(m.license, BaseLicense::MPL2);
}

#[test]
fn expected_license_is_that_of_the_matching_zone() {
    use_zone_map_case();
}

fn simple(b: BaseLicense) -> plasma::spdx::SpdxExpr {
    plasma::spdx::SpdxExpr::Simple(License::Base(b))
}

fn use_zone_map_case() {
    let zone = |paths: &str, b: BaseLicense| plasma::zone::LicenseZone {
        name: "a".to_string(),
        paths: vec![paths.to_string()],
        license: simple(b),
        proprietary: false,
        copyright: None,
    };
    let map = plasma::zone::LicenseMap {
        root: "/r".to_string(),
        default_license: simple(BaseLicense::MPL2),
        zones: vec![zone("x/*", BaseLicense::MIT), zone("y/*", BaseLicense::GPL3)],
    };
    assert_eq!(plasma::zone::expected_license_for_file("y/f.rs", &map), simple(BaseLicense::GPL3));
    assert_eq!(plasma::zone::expected_license_for_file("x/f.rs", &map), simple(BaseLicense::MIT));
    assert_eq!(plasma::zone::expected_license_for_file("z/f.rs", &map), simple(BaseLicense::MPL2));
}

fn file_audit(path: &str, status: plasma::audit::AuditStatus, found: Option<plasma::spdx::SpdxExpr>) -> plasma::audit::FileAudit {
    plasma::audit::FileAudit {
        path: path.to_string(),
        zone: None,
        expected_license: simple(BaseLicense::MPL2),
        actual_header: found,
        status,
    }
}

#[test]
fn audit_sarif_issues_and_rules() {
    use_audit_case();
}

fn use_audit_case() {
    let files = vec![
        file_audit("ok.rs", plasma::audit::AuditStatus::Compliant, Some(simple(BaseLicense::MPL2))),
        file_audit("bin.rs", plasma::audit::AuditStatus::Unreadable, None),
        file_audit("w.rs", plasma::audit::AuditStatus::WrongLicense, Some(simple(BaseLicense::MIT))),
        file_audit("m.rs", plasma::audit::AuditStatus::MissingHeader, None),
        file_audit("p.rs", plasma::audit::AuditStatus::ProprietaryViolation, Some(simple(BaseLicense::MIT))),
    ];
    let issues = plasma::audit_report::audit_issues(&files);
    assert_eq!(issues.len(), 3);
    assert_eq!(issues[0].rule_id, "plasma/wrong-license");
    assert_eq!(issues[0].message, "Expected MPL-2.0 but found Some(Simple(Base(MIT)))");
    assert_eq!(issues[0].uri, "w.rs");
    assert_eq!(issues[1].rule_id, "plasma/missing-header");
    assert_eq!(issues[1].message, "Missing SPDX header; expected MPL-2.0");
    assert_eq!(issues[2].message, "Open-source header found in proprietary zone");
    let rules = plasma::audit_report::audit_rule_table();
    assert_eq!(rules.len(), 4);
    assert_eq!(rules[3].id, "plasma/open-source-violation");
    assert_eq!(rules[1].short_description.as_deref(), Some("Source file is missing SPDX-License-Identifier header"));
}

#[test]
fn apply_outcome_records_each_action_once() {
    let add = Action::AddSpdxHeader { file: "a.rs".to_string(), license: "MIT".to_string(), author: "A".to_string(), year: "2026".to_string() };
    let create = Action::CreateFile { path: "SECURITY.md".to_string(), contents: String::new() };
    let mut o = ApplyOutcome::default();
    plasma::apply::record_result(&mut o, &add, Ok(false));
    plasma::apply::record_result(&mut o, &create, Err("denied".to_string()));
    plasma::apply::record_result(&mut o, &create, Ok(true));
    assert_eq!(o.applied, vec!["SECURITY.md".to_string()]);
    assert_eq!(o.skipped, vec![("a.rs".to_string(), "already has an SPDX header".to_string())]);
    assert_eq!(o.errors, vec![("SECURITY.md".to_string(), "denied".to_string())]);
}

#[test]
fn published_variants_are_the_published_registry_entries() {
    let all = plasma::registry::all_variants();
    let published = plasma::registry::published_variants();
    let filtered: Vec<_> = all.iter().filter(|e| e.published).collect();
    assert_eq!(published.len(), filtered.len());
    for (p, f) in published.iter().zip(filtered) {
        assert_eq!(p.variant, f.variant);
        assert_eq!(p.description, f.description);
        assert_eq!(p.full_name, f.full_name);
    }
}

#[test]
fn law_header_round_trip() {
    let written = "# SPDX-License-Identifier:  MIT OR Apache-2.0 \nprint(1)\n";
    let read = plasma::header::extract_spdx_from_content(written).unwrap();
    assert_eq!(read, plasma::spdx::parse_spdx_expr("MIT OR Apache-2.0").unwrap());
}

#[test]
fn law_diff_swap_reverses_headers_and_keeps_the_count() {
    let a = facts(
        &["a.rs", "b.rs", "c.rs", "d.rs"],
        &[("a.rs", Some("MIT")), ("b.rs", None), ("c.rs", Some("MPL-2.0"))],
        &[("k", "1"), ("only_a", "x")],
    );
    let b = facts(
        &["a.rs", "b.rs", "c.rs", "d.rs", "e.rs"],
        &[("a.rs", Some("Apache-2.0")), ("c.rs", Some("MPL-2.0")), ("d.rs", Some("MIT"))],
        &[("k", "2")],
    );
    let ab = diff(&a, &b);
    let ba = diff(&b, &a);
    let names: Vec<&str> = ab.headers_changed.iter().map(|h| h.file.as_str()).collect();
    assert_eq!(names, vec!["a.rs", "d.rs"]);
    assert_eq!(ab.headers_changed.len(), ba.headers_changed.len());
    for (x, y) in ab.headers_changed.iter().zip(ba.headers_changed.iter()) {
        assert_eq!(x.file, y.file);
        assert_eq!(x.before, y.after);
        assert_eq!(x.after, y.before);
    }
    let keys: Vec<&str> = ab.metadata_changed.iter().map(|m| m.key.as_str()).collect();
    assert_eq!(keys, vec!["k", "only_a"]);
    assert_eq!(ab.change_count(), ba.change_count());
    assert_eq!(ab.change_count(), 5);
}

#[test]
fn expression_debug_rendering_matches_derived_debug() {
    for text in [
        "MIT",
        "PMPL-2.0-or-later",
        "MIT OR Apache-2.0 AND GPL-3.0",
        "GPL-2.0 WITH Classpath-exception-2.0",
        "CC-BY-SA-4.0 OR LicenseRef-Custom",
    ] {
        let e = plasma::spdx::parse_spdx_expr(text).unwrap();
        assert_eq!(plasma::debug_text::expr_debug_string(&e), format!("{:?}", e));
    }
    let e = plasma::spdx::parse_spdx_expr("MIT").unwrap();
    assert_eq!(plasma::debug_text::expr_debug_string(&e), "Simple(Base(MIT))");
}

#[test]
fn law_header_reads_back_the_written_value() {
    for value in ["  MIT OR Apache-2.0 ", "PMPL-2.0-or-later", " GPL-2.0 WITH Classpath-exception-2.0\t", "   ", "MIT AND"] {
        let written = format!("// SPDX-License-Identifier: {}\nfn main() {{}}\n", value);
        assert_eq!(plasma::header::extract_spdx_from_content(&written), plasma::spdx::parse_spdx_expr(value).ok());
    }
}

#[test]
fn audit_exit_and_option_names() {
    assert_eq!(plasma::cli::audit_exit_code(2, false), 1);
    assert_eq!(plasma::cli::audit_exit_code(2, true), 0);
    assert_eq!(plasma::cli::audit_exit_code(0, false), 0);
    assert_eq!(plasma::cli::union_named("NuJ"), Ok(plasma::union::Union::Nuj));
    assert_eq!(plasma::cli::union_named("iww"), Ok(plasma::union::Union::Iww));
    assert_eq!(plasma::cli::union_named("UCU"), Ok(plasma::union::Union::Ucu));
    assert_eq!(plasma::cli::union_named("Unite"), Err("unknown union \"unite\": use nuj, iww, or ucu".to_string()));
    assert_eq!(plasma::cli::mode_named("checked"), Ok(plasma::union::ValidationMode::Checked));
    assert_eq!(plasma::cli::mode_named("lax"), Ok(plasma::union::ValidationMode::Lax));
    assert_eq!(plasma::cli::mode_named("attested"), Ok(plasma::union::ValidationMode::Attested));
    assert_eq!(plasma::cli::mode_named("Lax"), Err("unknown mode \"Lax\": use lax, checked, or attested".to_string()));
}

#[test]
fn bundled_policy_rules() {
    let p = builtin_repo_hygiene();
    let ids: Vec<&str> = p.rules.iter().map(|r| r.id.as_str()).collect();
    assert_eq!(ids, vec!["license-file-present", "readme-present", "spdx-header-present", "spdx-header-valid"]);
    assert!(matches!(&p.rules[1].resource, Resource::File { path } if path == "README*"));
    assert!(matches!(&p.rules[3].subject, Subject::FilePattern { patterns } if patterns == &vec!["**/*.rs".to_string()]));
    assert_eq!(p.rules[3].condition, Condition::HasSpdxHeader);
}

#[test]
fn cargo_manifest_version_keeps_other_metadata() {
    let mut f = facts(&[], &[], &[("name", "x"), ("version", "0.1")]);
    f.record_cargo_manifest(Some("[package]\nname = \"p\"\nversion = \"1.2.3\"\n"));
    assert_eq!(f.metadata, vec![("name".to_string(), "x".to_string()), ("version".to_string(), "1.2.3".to_string())]);
}

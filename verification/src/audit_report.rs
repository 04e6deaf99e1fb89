//! The content of the SARIF report of a repository audit: which audited
//! files become results, with which rule and message, and the rule table.
//! Writing the SARIF JSON itself is the caller's business.
use vstd::prelude::*;
use crate::audit::{AuditStatus, FileAudit};
use crate::report::SarifRule;
use crate::spdx::expr_text;
use crate::debug_text::{expr_debug, expr_debug_string};

verus! {

/// One SARIF result of an audit: a non-compliant file.
#[derive(Debug, Clone, PartialEq, Eq)]
pub struct AuditIssue {
    /// `plasma/<rule>`
    pub rule_id: String,
    pub message: String,
    /// The audited file's path, the artifact location.
    pub uri: String,
}

pub struct AuditIssueView {
    pub rule_id: Seq<char>,
    pub message: Seq<char>,
    pub uri: Seq<char>,
}

impl AuditIssue {
    pub open spec fn view_of(self) -> AuditIssueView {
        AuditIssueView { rule_id: self.rule_id@, message: self.message@, uri: self.uri@ }
    }
}

/// The text a found header is reported with: the `Debug` rendering of the
/// optional expression, `Some(..)` around the expression's rendering, or
/// `None` when no expression parsed.
pub open spec fn found_text(f: FileAudit) -> Seq<char> {
    match f.actual_header {
        Some(h) => "Some("@ + expr_debug(h@) + ")"@,
        None => "None"@,
    }
}

/// The result a file contributes: none for compliant and unreadable files.
pub open spec fn issue_of(f: FileAudit) -> Option<AuditIssueView> {
    let expected = expr_text(f.expected_license@);
    match f.status {
        AuditStatus::WrongLicense => Some(AuditIssueView {
            rule_id: "plasma/wrong-license"@,
            message: "Expected "@ + expected + " but found "@ + found_text(f),
            uri: f.path@,
        }),
        AuditStatus::MissingHeader => Some(AuditIssueView {
            rule_id: "plasma/missing-header"@,
            message: "Missing SPDX header; expected "@ + expected,
            uri: f.path@,
        }),
        AuditStatus::ProprietaryViolation => Some(AuditIssueView {
            rule_id: "plasma/proprietary-violation"@,
            message: "Open-source header found in proprietary zone"@,
            uri: f.path@,
        }),
        AuditStatus::OpenSourceViolation => Some(AuditIssueView {
            rule_id: "plasma/open-source-violation"@,
            message: "Proprietary header found in open-source zone"@,
            uri: f.path@,
        }),
        _ => None,
    }
}

/// The results of an audit, in the order of the files.
pub open spec fn issues_spec(files: Seq<FileAudit>) -> Seq<AuditIssueView>
    decreases files.len(),
{
    if files.len() == 0 {
        Seq::empty()
    } else {
        let r = issues_spec(files.drop_last());
        match issue_of(files.last()) {
            Some(i) => r.push(i),
            None => r,
        }
    }
}

fn issue_for(f: &FileAudit) -> (r: Option<AuditIssue>)
    ensures
        match issue_of(*f) {
            Some(i) => r matches Some(x) && x.view_of() == i,
            None => r is None,
        },
{
    let uri = f.path.clone();
    match f.status {
        AuditStatus::WrongLicense => {
            let mut m = String::from_str("Expected ");
            m.append(f.expected_license.to_string().as_str());
            m.append(" but found ");
            match &f.actual_header {
                Some(h) => {
                    m.append("Some(");
                    m.append(expr_debug_string(h).as_str());
                    m.append(")");
                },
                None => {
                    m.append("None");
                },
            }
            assert(m@ =~= "Expected "@ + expr_text(f.expected_license@) + " but found "@ + found_text(*f));
            Some(AuditIssue { rule_id: String::from_str("plasma/wrong-license"), message: m, uri })
        },
        AuditStatus::MissingHeader => {
            let mut m = String::from_str("Missing SPDX header; expected ");
            m.append(f.expected_license.to_string().as_str());
            Some(AuditIssue { rule_id: String::from_str("plasma/missing-header"), message: m, uri })
        },
        AuditStatus::ProprietaryViolation => Some(
            AuditIssue {
                rule_id: String::from_str("plasma/proprietary-violation"),
                message: String::from_str("Open-source header found in proprietary zone"),
                uri,
            },
        ),
        AuditStatus::OpenSourceViolation => Some(
            AuditIssue {
                rule_id: String::from_str("plasma/open-source-violation"),
                message: String::from_str("Proprietary header found in open-source zone"),
                uri,
            },
        ),
        _ => None,
    }
}

/// The SARIF results of an audit: one per file that is neither compliant
/// nor unreadable, in the order of the files.
pub fn audit_issues(files: &Vec<FileAudit>) -> (r: Vec<AuditIssue>)
    ensures
        r@.map_values(|i: AuditIssue| i.view_of()) == issues_spec(files@),
{
    let mut out: Vec<AuditIssue> = Vec::new();
    let mut k: usize = 0;
    assert(files@.subrange(0, 0) =~= Seq::<FileAudit>::empty());
    assert(out@.map_values(|i: AuditIssue| i.view_of()) =~= Seq::<AuditIssueView>::empty());
    while k < files.len()
        invariant
            k <= files@.len(),
            out@.map_values(|i: AuditIssue| i.view_of()) == issues_spec(files@.subrange(0, k as int)),
        decreases files@.len() - k,
    {
        let ghost before = out@;
        match issue_for(&files[k]) {
            Some(x) => {
                let ghost xv = x.view_of();
                out.push(x);
                assert(out@.map_values(|i: AuditIssue| i.view_of()) =~= before.map_values(
                    |i: AuditIssue| i.view_of(),
                ).push(xv));
            },
            None => {},
        }
        assert(files@.subrange(0, k + 1).drop_last() =~= files@.subrange(0, k as int));
        assert(files@.subrange(0, k + 1).last() == files@[k as int]);
        k = k + 1;
    }
    assert(files@.subrange(0, files@.len() as int) =~= files@);
    out
}

/// The four audit rules and their short descriptions, in report order.
pub open spec fn audit_rules_spec() -> Seq<(Seq<char>, Seq<char>)> {
    seq![
        ("plasma/wrong-license"@, "SPDX header does not match zone license"@),
        ("plasma/missing-header"@, "Source file is missing SPDX-License-Identifier header"@),
        ("plasma/proprietary-violation"@, "Open-source header in proprietary zone"@),
        ("plasma/open-source-violation"@, "Proprietary header in open-source zone"@),
    ]
}

fn rule(id: &str, text: &str) -> (r: SarifRule)
    ensures
        r.id@ == id@,
        r.short_description matches Some(d) && d@ == text@,
{
    SarifRule { id: String::from_str(id), short_description: Some(String::from_str(text)) }
}

/// The rule table of the audit's SARIF report.
pub fn audit_rule_table() -> (r: Vec<SarifRule>)
    ensures
        r@.len() == 4,
        forall|i: int|
            0 <= i < 4 ==> (#[trigger] r@[i]).id@ == audit_rules_spec()[i].0 && (
            r@[i].short_description matches Some(d) && d@ == audit_rules_spec()[i].1),
{
    let mut v: Vec<SarifRule> = Vec::new();
    v.push(rule("plasma/wrong-license", "SPDX header does not match zone license"));
    v.push(rule("plasma/missing-header", "Source file is missing SPDX-License-Identifier header"));
    v.push(rule("plasma/proprietary-violation", "Open-source header in proprietary zone"));
    v.push(rule("plasma/open-source-violation", "Proprietary header in open-source zone"));
    v
}

} // verus!

//! Findings: the evaluator's output vocabulary.
use vstd::prelude::*;
use crate::ast::{Modality, PolicyVersion};

verus! {

/// Finding severity, from most to least severe.
#[derive(Debug, Clone, Copy, PartialEq, Eq, PartialOrd, Ord, Hash, Structural)]
pub enum Severity {
    Error,
    Warning,
    Info,
}

/// Position in the order error < warning < info.
pub open spec fn severity_rank(s: Severity) -> nat {
    match s {
        Severity::Error => 0,
        Severity::Warning => 1,
        Severity::Info => 2,
    }
}

/// `error`, `warning` or `info`.
pub open spec fn severity_text(s: Severity) -> Seq<char> {
    match s {
        Severity::Error => "error"@,
        Severity::Warning => "warning"@,
        Severity::Info => "info"@,
    }
}

impl Severity {
    /// The display form of the severity.
    pub fn to_string(&self) -> (s: String)
        ensures
            s@ == severity_text(*self),
    {
        match self {
            Severity::Error => String::from_str("error"),
            Severity::Warning => String::from_str("warning"),
            Severity::Info => String::from_str("info"),
        }
    }

    /// `self` is at least as severe as `other` (`self <= other` in the
    /// order error < warning < info).
    pub fn at_least(&self, other: &Severity) -> (r: bool)
        ensures
            r == (severity_rank(*self) <= severity_rank(*other)),
    {
        let a: u8 = match self {
            Severity::Error => 0,
            Severity::Warning => 1,
            Severity::Info => 2,
        };
        let b: u8 = match other {
            Severity::Error => 0,
            Severity::Warning => 1,
            Severity::Info => 2,
        };
        a <= b
    }
}

/// Whether a rule was violated or satisfied for a subject instance.
#[derive(Debug, Clone, Copy, PartialEq, Eq, Structural)]
pub enum FindingStatus {
    Violation,
    Pass,
}

/// One evaluated (rule, subject instance) outcome.
#[derive(Debug, Clone, PartialEq, Eq)]
pub struct Finding {
    pub rule_id: String,
    pub modality: Modality,
    pub severity: Severity,
    /// "repo", a relative file path, or `metadata:<key>`.
    pub subject: String,
    pub message: String,
    pub rationale: Option<String>,
    pub source: Option<String>,
    pub status: FindingStatus,
}

/// The view of an optional string.
pub open spec fn opt_view(o: Option<String>) -> Option<Seq<char>> {
    match o {
        Some(s) => Some(s@),
        None => None,
    }
}

/// Mathematical model of a [`Finding`].
pub struct FindingView {
    pub rule_id: Seq<char>,
    pub modality: Modality,
    pub severity: Severity,
    pub subject: Seq<char>,
    pub message: Seq<char>,
    pub rationale: Option<Seq<char>>,
    pub source: Option<Seq<char>>,
    pub status: FindingStatus,
}

impl View for Finding {
    type V = FindingView;

    open spec fn view(&self) -> FindingView {
        FindingView {
            rule_id: self.rule_id@,
            modality: self.modality,
            severity: self.severity,
            subject: self.subject@,
            message: self.message@,
            rationale: opt_view(self.rationale),
            source: opt_view(self.source),
            status: self.status,
        }
    }
}

/// Violation counts by severity, plus the number of passes.
#[derive(Debug, Clone, Copy, Default, PartialEq, Eq, Structural)]
pub struct Summary {
    pub errors: u32,
    pub warnings: u32,
    pub info: u32,
    pub passes: u32,
}

/// The complete result of evaluating a policy against facts.
#[derive(Debug, Clone, PartialEq, Eq)]
pub struct Evaluation {
    pub root: String,
    pub policy_id: String,
    pub policy_version: PolicyVersion,
    pub schema_version: PolicyVersion,
    pub findings: Vec<Finding>,
    pub summary: Summary,
}

/// The views of a sequence of findings.
pub open spec fn finding_views(v: Seq<Finding>) -> Seq<FindingView> {
    v.map_values(|f: Finding| f@)
}

/// A violation at or above the threshold severity.
pub open spec fn blocking(f: FindingView, threshold: Severity) -> bool {
    f.status == FindingStatus::Violation && severity_rank(f.severity) <= severity_rank(threshold)
}

impl Evaluation {
    /// True when no violation at or above the threshold severity exists.
    pub fn clean_at(&self, threshold: Severity) -> (r: bool)
        ensures
            r == !(exists|i: int|
                0 <= i < self.findings@.len() && blocking(
                    #[trigger] self.findings@[i]@,
                    threshold,
                )),
    {
        let mut i: usize = 0;
        while i < self.findings.len()
            invariant
                i <= self.findings@.len(),
                forall|k: int| 0 <= k < i ==> !blocking(#[trigger] self.findings@[k]@, threshold),
            decreases self.findings@.len() - i,
        {
            let f = &self.findings[i];
            if f.status == FindingStatus::Violation && f.severity.at_least(&threshold) {
                assert(blocking(self.findings@[i as int]@, threshold));
                return false;
            }
            i = i + 1;
        }
        true
    }
}

} // verus!

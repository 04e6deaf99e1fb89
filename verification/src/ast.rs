//! The policy AST: deontic rules over repository subjects and resources,
//! composable conditions, and overlays.
use vstd::prelude::*;
use crate::finding::Severity;
use crate::text::{decimal, decimal_string, push_char};

verus! {

/// A major.minor version pair (schema and policy versions).
#[derive(Debug, Clone, Copy, PartialEq, Eq, PartialOrd, Ord, Structural)]
pub struct PolicyVersion {
    pub major: u32,
    pub minor: u32,
}

/// `major.minor`
pub open spec fn policy_version_text(v: PolicyVersion) -> Seq<char> {
    decimal(v.major as nat) + seq!['.'] + decimal(v.minor as nat)
}

impl PolicyVersion {
    /// The display form `major.minor`.
    pub fn to_string(&self) -> (s: String)
        ensures
            s@ == policy_version_text(*self),
    {
        let mut s = decimal_string(self.major as u64);
        push_char(&mut s, '.');
        let m = decimal_string(self.minor as u64);
        s.append(m.as_str());
        s
    }
}

/// The entity a rule is evaluated against.
#[derive(Debug, Clone, PartialEq, Eq)]
pub enum Subject {
    /// The repository as a whole.
    Repo,
    /// A single file by relative path.
    File { path: String },
    /// Every file matching any of the glob patterns.
    FilePattern { patterns: Vec<String> },
    /// A release by tag (schema-reserved).
    Release { tag: String },
    /// A governance metadata field by key.
    Metadata { key: String },
}

/// The artefact checked within or about a subject.
#[derive(Debug, Clone, PartialEq, Eq)]
pub enum Resource {
    /// A file by relative path; the path may be a glob.
    File { path: String },
    /// The SPDX header of the subject file.
    Header,
    /// A manifest file by relative path.
    Manifest { path: String },
    /// A governance metadata field by key.
    GovernanceField { key: String },
    /// The release artefact (schema-reserved).
    Release,
}

/// Composable, total predicates over the fact set.
#[derive(Debug, PartialEq, Eq)]
pub enum Condition {
    /// Always true (the default condition).
    True,
    /// Negation.
    Not { of: Box<Condition> },
    /// Conjunction of all sub-conditions.
    All { of: Vec<Condition> },
    /// Disjunction of the sub-conditions.
    Any { of: Vec<Condition> },
    /// Some repository file matches the glob.
    RepoHasFile { path: String },
    /// Content predicate (schema-reserved: facts carry no contents).
    FileMatchesPattern { path: String, pattern: String },
    /// The subject file has an SPDX header.
    HasSpdxHeader,
    /// The subject file's SPDX header equals this expression.
    SpdxLicenseIs { expr: String },
    /// The metadata key is set to exactly this value.
    GovernanceFlagSet { key: String, value: String },
    /// The `version` metadata value is at least this version.
    VersionAtLeast { version: String },
}

impl Condition {
    /// The condition that always holds.
    pub fn always_true() -> (c: Condition)
        ensures
            c is True,
    {
        Condition::True
    }
}

/// Deontic modality: what the rule obligates, prohibits, or permits.
#[derive(Debug, Clone, Copy, PartialEq, Eq, Structural)]
pub enum Modality {
    Obligation,
    Prohibition,
    Permission,
}

/// `obligation`, `prohibition` or `permission`.
pub open spec fn modality_text(m: Modality) -> Seq<char> {
    match m {
        Modality::Obligation => "obligation"@,
        Modality::Prohibition => "prohibition"@,
        Modality::Permission => "permission"@,
    }
}

impl Modality {
    /// The display form of the modality.
    pub fn to_string(&self) -> (s: String)
        ensures
            s@ == modality_text(*self),
    {
        match self {
            Modality::Obligation => String::from_str("obligation"),
            Modality::Prohibition => String::from_str("prohibition"),
            Modality::Permission => String::from_str("permission"),
        }
    }
}

/// What the rule asserts about the subject-resource pair.
#[derive(Debug, Clone, PartialEq, Eq)]
pub enum ActionKind {
    /// The resource must exist.
    Present,
    /// The resource must not exist.
    Absent,
    /// The resource must be structurally valid.
    Valid,
    /// Consistency with an external decision (schema-reserved).
    ConsistentWith { id: String },
}

/// The condition a rule has when none is written.
pub fn default_condition() -> (c: Condition)
    ensures
        c is True,
{
    Condition::always_true()
}

/// The severity a rule has when none is written.
pub fn default_severity() -> (s: Severity)
    ensures
        s == Severity::Error,
{
    Severity::Error
}

/// A deontic modality bound to a subject, resource, condition and action.
#[derive(Debug, PartialEq, Eq)]
pub struct Rule {
    pub id: String,
    pub modality: Modality,
    pub severity: Severity,
    pub subject: Subject,
    pub resource: Resource,
    pub condition: Condition,
    pub action: ActionKind,
    pub rationale: Option<String>,
    pub source: Option<String>,
}

/// How an overlay extends or modifies the base rules.
#[derive(Debug, PartialEq, Eq)]
pub enum OverlayEffect {
    /// Add rules to the effective rule set.
    AddRules { rules: Vec<Rule> },
    /// Modify rules by id (schema-reserved).
    ModifyRules { ids: Vec<String> },
    /// Override rules by id (schema-reserved).
    OverrideRules { ids: Vec<String> },
}

/// A named, additive policy extension.
#[derive(Debug, PartialEq, Eq)]
pub struct Overlay {
    pub id: String,
    pub applies_to: Vec<String>,
    pub effects: Vec<OverlayEffect>,
}

/// A policy: schema version, content version, base rules and overlays.
#[derive(Debug, PartialEq, Eq)]
pub struct Policy {
    pub schema_version: PolicyVersion,
    pub id: String,
    pub version: PolicyVersion,
    pub rules: Vec<Rule>,
    pub overlays: Vec<Overlay>,
}

} // verus!

//! File auditing against a license map: the status of each auditable file,
//! and the counts of a repository audit.
use vstd::prelude::*;
use crate::header::{extract_spdx_raw_from_content, raw_header};
use crate::spdx::{SpdxExpr, SpdxExprView, expr_same, parse_spdx_expr, parse_spec};
use crate::text::str_eq;
use crate::zone::{LicenseMap, LicenseZone, assign_file_to_zone, expected_license_for_file, expected_spec, rel_of, zone_of};

verus! {

/// Audit status of a file.
#[derive(Debug, Clone, Copy, PartialEq, Eq, Structural)]
pub enum AuditStatus {
    /// The header matches the expected license.
    Compliant,
    /// A header is present but states another license (or does not parse).
    WrongLicense,
    /// No SPDX header.
    MissingHeader,
    /// In a proprietary zone, with an open-source header.
    ProprietaryViolation,
    /// In an open-source zone, with a proprietary header.
    OpenSourceViolation,
    /// The file could not be read.
    Unreadable,
}

/// Audit result of one file.
#[derive(Debug)]
pub struct FileAudit {
    /// Path relative to the repository root.
    pub path: String,
    /// Zone of the file (`None` under the default license).
    pub zone: Option<String>,
    pub expected_license: SpdxExpr,
    /// The expression found in the file's header.
    pub actual_header: Option<SpdxExpr>,
    pub status: AuditStatus,
}

/// The zone named `name` is proprietary (the first zone of that name).
pub open spec fn zone_proprietary(zones: Seq<LicenseZone>, name: Seq<char>) -> bool
    decreases zones.len(),
{
    if zones.len() == 0 {
        false
    } else if zones[0].name@ == name {
        zones[0].proprietary
    } else {
        zone_proprietary(zones.drop_first(), name)
    }
}

/// The header found and the status of a file with the given content
/// (`None` = unreadable).
pub open spec fn audit_spec(rel: Seq<char>, content: Option<Seq<char>>, m: LicenseMap) -> (
    Option<SpdxExprView>,
    AuditStatus,
) {
    let expected = expected_spec(rel, m);
    let proprietary = match zone_of(m.zones@, rel_of(rel, m.root@)) {
        Some(n) => zone_proprietary(m.zones@, n),
        None => false,
    };
    match content {
        None => (None, AuditStatus::Unreadable),
        Some(c) => match raw_header(c) {
            None => (None, AuditStatus::MissingHeader),
            Some(raw) => match parse_spec(raw) {
                Err(_) => (None, AuditStatus::WrongLicense),
                Ok(actual) => (
                    Some(actual),
                    if actual == expected {
                        AuditStatus::Compliant
                    } else if proprietary {
                        AuditStatus::ProprietaryViolation
                    } else {
                        AuditStatus::WrongLicense
                    },
                ),
            },
        },
    }
}

fn is_proprietary_zone(zones: &Vec<LicenseZone>, name: &str) -> (r: bool)
    ensures
        r == zone_proprietary(zones@, name@),
{
    let mut i: usize = 0;
    assert(zones@.subrange(0, zones@.len() as int) =~= zones@);
    while i < zones.len()
        invariant
            i <= zones@.len(),
            zone_proprietary(zones@, name@) == zone_proprietary(
                zones@.subrange(i as int, zones@.len() as int),
                name@,
            ),
        decreases zones@.len() - i,
    {
        let ghost rest = zones@.subrange(i as int, zones@.len() as int);
        assert(rest[0] == zones@[i as int]);
        assert(rest.drop_first() =~= zones@.subrange(i + 1, zones@.len() as int));
        if str_eq(zones[i].name.as_str(), name) {
            return zones[i].proprietary;
        }
        i = i + 1;
    }
    false
}

/// Audit one auditable file (`rel` relative to the root) with its content
/// (`None` when it could not be read).
pub fn audit_file(rel: &str, content: Option<&str>, license_map: &LicenseMap) -> (a: FileAudit)
    ensures
        a.path@ == rel@,
        match a.zone {
            Some(z) => zone_of(license_map.zones@, rel_of(rel@, license_map.root@)) == Some(z@),
            None => zone_of(license_map.zones@, rel_of(rel@, license_map.root@)) is None,
        },
        a.expected_license@ == expected_spec(rel@, *license_map),
        ({
            let (h, st) = audit_spec(
                rel@,
                match content {
                    Some(c) => Some(c@),
                    None => None,
                },
                *license_map,
            );
            &&& a.status == st
            &&& match a.actual_header {
                Some(x) => h == Some(x@),
                None => h is None,
            }
        }),
{
    let zone = assign_file_to_zone(rel, license_map);
    let expected = expected_license_for_file(rel, license_map);
    let proprietary = match &zone {
        Some(n) => is_proprietary_zone(&license_map.zones, n.as_str()),
        None => false,
    };
    let (actual_header, status) = match content {
        None => (None, AuditStatus::Unreadable),
        Some(c) => match extract_spdx_raw_from_content(c) {
            None => (None, AuditStatus::MissingHeader),
            Some(raw) => match parse_spdx_expr(raw.as_str()) {
                Err(_) => (None, AuditStatus::WrongLicense),
                Ok(actual) => {
                    let status = if expr_same(&actual, &expected) {
                        AuditStatus::Compliant
                    } else if proprietary {
                        AuditStatus::ProprietaryViolation
                    } else {
                        AuditStatus::WrongLicense
                    };
                    (Some(actual), status)
                },
            },
        },
    };
    FileAudit {
        path: String::from_str(rel),
        zone,
        expected_license: expected,
        actual_header,
        status,
    }
}

/// Counts of a repository audit by status.
#[derive(Debug, Clone, Copy, PartialEq, Eq, Structural)]
pub struct AuditTally {
    pub total_files: u32,
    pub compliant: u32,
    pub wrong_license: u32,
    pub missing_header: u32,
    pub proprietary_violation: u32,
    pub open_source_violation: u32,
    pub unreadable: u32,
}

impl AuditTally {
    /// Files that fail the audit: a wrong license, a missing header, or a
    /// zone violation.
    pub fn noncompliant(&self) -> (r: u64)
        ensures
            r == self.wrong_license + self.missing_header + self.proprietary_violation
                + self.open_source_violation,
    {
        self.wrong_license as u64 + self.missing_header as u64 + self.proprietary_violation as u64
            + self.open_source_violation as u64
    }
}

/// Number of audits with the given status.
pub open spec fn status_count(files: Seq<FileAudit>, s: AuditStatus) -> nat
    decreases files.len(),
{
    if files.len() == 0 {
        0
    } else {
        status_count(files.drop_last(), s) + (if files.last().status == s {
            1nat
        } else {
            0nat
        })
    }
}

/// A count as `u32`, saturating.
pub open spec fn sat(n: nat) -> u32 {
    if n <= u32::MAX {
        n as u32
    } else {
        u32::MAX
    }
}

/// The counts of a sequence of audits.
pub open spec fn tally_spec(files: Seq<FileAudit>) -> AuditTally {
    AuditTally {
        total_files: sat(files.len()),
        compliant: sat(status_count(files, AuditStatus::Compliant)),
        wrong_license: sat(status_count(files, AuditStatus::WrongLicense)),
        missing_header: sat(status_count(files, AuditStatus::MissingHeader)),
        proprietary_violation: sat(status_count(files, AuditStatus::ProprietaryViolation)),
        open_source_violation: sat(status_count(files, AuditStatus::OpenSourceViolation)),
        unreadable: sat(status_count(files, AuditStatus::Unreadable)),
    }
}

fn inc(n: u32) -> (r: u32)
    ensures
        r == (if n < u32::MAX { (n + 1) as u32 } else { n }),
{
    if n < 0xffff_ffff {
        n + 1
    } else {
        n
    }
}

/// Count the audits by status.
pub fn summarize(files: &Vec<FileAudit>) -> (t: AuditTally)
    ensures
        t == tally_spec(files@),
        files@.len() <= u32::MAX ==> t.compliant + t.wrong_license + t.missing_header
            + t.proprietary_violation + t.open_source_violation + t.unreadable == t.total_files,
{
    let mut t = AuditTally {
        total_files: 0,
        compliant: 0,
        wrong_license: 0,
        missing_header: 0,
        proprietary_violation: 0,
        open_source_violation: 0,
        unreadable: 0,
    };
    let mut i: usize = 0;
    while i < files.len()
        invariant
            i <= files@.len(),
            t == tally_spec(files@.subrange(0, i as int)),
        decreases files@.len() - i,
    {
        let ghost pre = files@.subrange(0, i + 1);
        assert(pre.drop_last() =~= files@.subrange(0, i as int));
        assert(pre.last() == files@[i as int]);
        t.total_files = inc(t.total_files);
        match files[i].status {
            AuditStatus::Compliant => {
                t.compliant = inc(t.compliant);
            },
            AuditStatus::WrongLicense => {
                t.wrong_license = inc(t.wrong_license);
            },
            AuditStatus::MissingHeader => {
                t.missing_header = inc(t.missing_header);
            },
            AuditStatus::ProprietaryViolation => {
                t.proprietary_violation = inc(t.proprietary_violation);
            },
            AuditStatus::OpenSourceViolation => {
                t.open_source_violation = inc(t.open_source_violation);
            },
            AuditStatus::Unreadable => {
                t.unreadable = inc(t.unreadable);
            },
        }
        i = i + 1;
    }
    assert(files@.subrange(0, files@.len() as int) =~= files@);
    proof {
        lemma_counts_cover(files@);
    }
    t
}

/// Every audit has exactly one status.
pub proof fn lemma_counts_cover(files: Seq<FileAudit>)
    ensures
        status_count(files, AuditStatus::Compliant) + status_count(files, AuditStatus::WrongLicense)
            + status_count(files, AuditStatus::MissingHeader) + status_count(
            files,
            AuditStatus::ProprietaryViolation,
        ) + status_count(files, AuditStatus::OpenSourceViolation) + status_count(
            files,
            AuditStatus::Unreadable,
        ) == files.len(),
    decreases files.len(),
{
    if files.len() > 0 {
        lemma_counts_cover(files.drop_last());
    }
}


/// A file is compliant exactly when its header parses to the license
/// expected for it; a header that parses to any other license is a
/// violation (wrong license, or an open-source header in a proprietary
/// zone), never compliant. A file without a header is missing one, and an
/// unreadable file is reported as such.
pub proof fn lemma_audit_compliance(rel: Seq<char>, content: Option<Seq<char>>, m: LicenseMap)
    ensures
        ({
            let (found, status) = audit_spec(rel, content, m);
            &&& (status == AuditStatus::Compliant <==> found == Some(expected_spec(rel, m)))
            &&& (found matches Some(x) && x != expected_spec(rel, m) ==> (status
                == AuditStatus::WrongLicense || status == AuditStatus::ProprietaryViolation))
            &&& (status == AuditStatus::Unreadable <==> content is None)
            &&& (status == AuditStatus::MissingHeader <==> (content matches Some(c) && raw_header(
                c,
            ) is None))
            &&& (status == AuditStatus::ProprietaryViolation <==> (found is Some && found
                != Some(expected_spec(rel, m)) && (zone_of(m.zones@, rel_of(rel, m.root@)) matches Some(
                n,
            ) && zone_proprietary(m.zones@, n))))
            &&& status != AuditStatus::OpenSourceViolation
        }),
{
}

} // verus!

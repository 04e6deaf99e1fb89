//! Rendering of an evaluation: the human-readable text, and the content of
//! a SARIF report (which findings become results, the rule table, levels
//! and locations); writing the SARIF JSON itself is the caller's business.
use vstd::prelude::*;
use crate::ast::policy_version_text;
use crate::facts::opt_clone;
use crate::finding::{Evaluation, Finding, FindingStatus, FindingView, Severity, finding_views};
use crate::order::{str_less, str_lt};
use crate::text::{decimal, decimal_string, has_prefix, str_eq, str_starts_with};

verus! {

/// `ERROR`, `WARNING` or `INFO`.
pub open spec fn severity_upper(s: Severity) -> Seq<char> {
    match s {
        Severity::Error => "ERROR"@,
        Severity::Warning => "WARNING"@,
        Severity::Info => "INFO"@,
    }
}

/// The first line of a violation.
pub open spec fn violation_line(f: FindingView) -> Seq<char> {
    "  "@ + severity_upper(f.severity) + ": ["@ + f.rule_id + "] "@ + f.subject + " — "@
        + f.message + "\n"@
}

/// The rationale line of a finding, if it has a rationale.
pub open spec fn rationale_line(f: FindingView) -> Seq<char> {
    match f.rationale {
        Some(r) => "      rationale: "@ + r + "\n"@,
        None => seq![],
    }
}

/// The source line of a finding, if it has a source.
pub open spec fn source_line(f: FindingView) -> Seq<char> {
    match f.source {
        Some(s) => "      source: "@ + s + "\n"@,
        None => seq![],
    }
}

/// The line of a pass.
pub open spec fn pass_line(f: FindingView) -> Seq<char> {
    "  PASS: ["@ + f.rule_id + "] "@ + f.subject + " — "@ + f.message + "\n"@
}

/// The lines a finding contributes to the human report.
pub open spec fn finding_lines(f: FindingView, verbose: bool) -> Seq<char> {
    if f.status == FindingStatus::Violation {
        violation_line(f) + rationale_line(f) + source_line(f)
    } else if verbose {
        pass_line(f)
    } else {
        seq![]
    }
}

/// The finding is shown in the human report.
pub open spec fn shown(f: FindingView, verbose: bool) -> bool {
    f.status == FindingStatus::Violation || verbose
}

/// The body of the human report.
pub open spec fn human_body(fs: Seq<FindingView>, verbose: bool) -> Seq<char>
    decreases fs.len(),
{
    if fs.len() == 0 {
        seq![]
    } else {
        human_body(fs.drop_last(), verbose) + finding_lines(fs.last(), verbose)
    }
}

/// Some finding is shown.
pub open spec fn any_shown(fs: Seq<FindingView>, verbose: bool) -> bool {
    exists|i: int| 0 <= i < fs.len() && shown(#[trigger] fs[i], verbose)
}

/// The human-readable report of an evaluation.
pub open spec fn human_text(e: Evaluation, verbose: bool) -> Seq<char> {
    let fs = finding_views(e.findings@);
    "Policy "@ + e.policy_id@ + " v"@ + policy_version_text(e.policy_version) + " (schema "@
        + policy_version_text(e.schema_version) + ") against "@ + e.root@ + "\n\n"@ + human_body(
        fs,
        verbose,
    ) + (if any_shown(fs, verbose) {
        seq![]
    } else {
        "  No violations.\n"@
    }) + "\nSummary: "@ + decimal(e.summary.errors as nat) + " error(s), "@ + decimal(
        e.summary.warnings as nat,
    ) + " warning(s), "@ + decimal(e.summary.info as nat) + " info, "@ + decimal(
        e.summary.passes as nat,
    ) + " rule(s) satisfied\n"@
}

fn severity_upper_text(s: Severity) -> (r: &'static str)
    ensures
        r@ == severity_upper(s),
{
    match s {
        Severity::Error => "ERROR",
        Severity::Warning => "WARNING",
        Severity::Info => "INFO",
    }
}

fn append_violation(out: &mut String, f: &Finding)
    ensures
        final(out)@ == old(out)@ + violation_line(f@),
{
    out.append("  ");
    out.append(severity_upper_text(f.severity));
    out.append(": [");
    out.append(f.rule_id.as_str());
    out.append("] ");
    out.append(f.subject.as_str());
    out.append(" — ");
    out.append(f.message.as_str());
    out.append("\n");
}

fn append_notes(out: &mut String, f: &Finding)
    ensures
        final(out)@ == old(out)@ + rationale_line(f@) + source_line(f@),
{
    let ghost start = out@;
    match &f.rationale {
        Some(r) => {
            out.append("      rationale: ");
            out.append(r.as_str());
            out.append("\n");
        },
        None => {
            assert(out@ =~= start + rationale_line(f@));
        },
    }
    let ghost mid = out@;
    match &f.source {
        Some(s) => {
            out.append("      source: ");
            out.append(s.as_str());
            out.append("\n");
        },
        None => {
            assert(out@ =~= mid + source_line(f@));
        },
    }
}

fn append_pass(out: &mut String, f: &Finding)
    ensures
        final(out)@ == old(out)@ + pass_line(f@),
{
    out.append("  PASS: [");
    out.append(f.rule_id.as_str());
    out.append("] ");
    out.append(f.subject.as_str());
    out.append(" — ");
    out.append(f.message.as_str());
    out.append("\n");
}

fn append_finding(out: &mut String, f: &Finding, verbose: bool)
    ensures
        final(out)@ == old(out)@ + finding_lines(f@, verbose),
{
    let ghost start = out@;
    match f.status {
        FindingStatus::Violation => {
            append_violation(out, f);
            append_notes(out, f);
            assert(out@ =~= start + finding_lines(f@, verbose));
        },
        FindingStatus::Pass => {
            if verbose {
                append_pass(out, f);
            } else {
                assert(out@ =~= start + finding_lines(f@, verbose));
            }
        },
    }
}

/// Render an evaluation as human-readable text: violations always, passes
/// only when `verbose`.
pub fn to_human(eval: &Evaluation, verbose: bool) -> (s: String)
    ensures
        s@ == human_text(*eval, verbose),
{
    let ghost fs = finding_views(eval.findings@);
    let mut out = String::from_str("Policy ");
    out.append(eval.policy_id.as_str());
    out.append(" v");
    let pv = eval.policy_version.to_string();
    out.append(pv.as_str());
    out.append(" (schema ");
    let sv = eval.schema_version.to_string();
    out.append(sv.as_str());
    out.append(") against ");
    out.append(eval.root.as_str());
    out.append("\n\n");
    let ghost head = out@;
    let mut any = false;
    let mut i: usize = 0;
    while i < eval.findings.len()
        invariant
            i <= eval.findings@.len(),
            fs == finding_views(eval.findings@),
            out@ == head + human_body(fs.subrange(0, i as int), verbose),
            any <==> any_shown(fs.subrange(0, i as int), verbose),
        decreases eval.findings@.len() - i,
    {
        let ghost pre = fs.subrange(0, i + 1);
        assert(pre.drop_last() =~= fs.subrange(0, i as int));
        assert(pre.last() == eval.findings@[i as int]@);
        let f = &eval.findings[i];
        append_finding(&mut out, f, verbose);
        if f.status == FindingStatus::Violation || verbose {
            any = true;
            assert(shown(pre[i as int], verbose));
        }
        proof {
            if !any {
                assert forall|k: int| 0 <= k < pre.len() implies !shown(#[trigger] pre[k], verbose) by {
                    if k < i {
                        assert(pre[k] == fs.subrange(0, i as int)[k]);
                    }
                }
            }
            if any && !any_shown(fs.subrange(0, i as int), verbose) {
                assert(shown(pre[i as int], verbose));
            } else if any {
                let k = choose|k: int| 0 <= k < i && shown(#[trigger] fs.subrange(0, i as int)[k], verbose);
                assert(pre[k] == fs.subrange(0, i as int)[k]);
            }
        }
        i = i + 1;
    }
    assert(fs.subrange(0, fs.len() as int) =~= fs);
    if !any {
        out.append("  No violations.\n");
    }
    out.append("\nSummary: ");
    let e = decimal_string(eval.summary.errors as u64);
    out.append(e.as_str());
    out.append(" error(s), ");
    let w = decimal_string(eval.summary.warnings as u64);
    out.append(w.as_str());
    out.append(" warning(s), ");
    let n = decimal_string(eval.summary.info as u64);
    out.append(n.as_str());
    out.append(" info, ");
    let p = decimal_string(eval.summary.passes as u64);
    out.append(p.as_str());
    out.append(" rule(s) satisfied\n");
    out
}

/// The SARIF level of a severity: `error`, `warning`, or `note`.
pub open spec fn sarif_level_spec(s: Severity) -> Seq<char> {
    match s {
        Severity::Error => "error"@,
        Severity::Warning => "warning"@,
        Severity::Info => "note"@,
    }
}

/// The SARIF `level` for a severity (SARIF has no "info").
pub fn sarif_level(severity: Severity) -> (r: &'static str)
    ensures
        r@ == sarif_level_spec(severity),
{
    match severity {
        Severity::Error => "error",
        Severity::Warning => "warning",
        Severity::Info => "note",
    }
}

/// One SARIF result.
#[derive(Debug, Clone, PartialEq, Eq)]
pub struct SarifResult {
    /// `plasma/<rule id>`
    pub rule_id: String,
    pub message: String,
    /// The SARIF level (`none` for a pass).
    pub level: String,
    /// A pass (`kind: "pass"`).
    pub pass: bool,
    /// The artifact URI, for file subjects.
    pub location: Option<String>,
}

/// One entry of the SARIF rule table.
#[derive(Debug, Clone, PartialEq, Eq)]
pub struct SarifRule {
    /// `plasma/<rule id>`
    pub id: String,
    /// The rationale of the first finding of the rule.
    pub short_description: Option<String>,
}

/// The namespaced SARIF rule id.
pub open spec fn sarif_id(rule_id: Seq<char>) -> Seq<char> {
    "plasma/"@ + rule_id
}

/// A finding is located at a file (not the repo, not metadata).
pub open spec fn located(subject: Seq<char>) -> bool {
    subject != "repo"@ && !has_prefix(subject, "metadata:"@)
}

/// Mathematical model of a SARIF result.
pub struct SarifResultView {
    pub rule_id: Seq<char>,
    pub message: Seq<char>,
    pub level: Seq<char>,
    pub pass: bool,
    pub location: Option<Seq<char>>,
}

/// The SARIF result of a finding.
pub open spec fn result_spec(f: FindingView) -> SarifResultView {
    SarifResultView {
        rule_id: sarif_id(f.rule_id),
        message: f.message,
        level: if f.status == FindingStatus::Violation {
            sarif_level_spec(f.severity)
        } else {
            "none"@
        },
        pass: f.status == FindingStatus::Pass,
        location: if located(f.subject) {
            Some(f.subject)
        } else {
            None
        },
    }
}

/// The results of a report: violations, and passes when asked for.
pub open spec fn results_spec(fs: Seq<FindingView>, include_passes: bool) -> Seq<SarifResultView>
    decreases fs.len(),
{
    if fs.len() == 0 {
        seq![]
    } else {
        let rest = results_spec(fs.drop_last(), include_passes);
        if include_passes || fs.last().status == FindingStatus::Violation {
            rest.push(result_spec(fs.last()))
        } else {
            rest
        }
    }
}

impl SarifResult {
    pub open spec fn view_of(self) -> SarifResultView {
        SarifResultView {
            rule_id: self.rule_id@,
            message: self.message@,
            level: self.level@,
            pass: self.pass,
            location: match self.location {
                Some(l) => Some(l@),
                None => None,
            },
        }
    }
}

/// The views of SARIF results.
pub open spec fn result_views(v: Seq<SarifResult>) -> Seq<SarifResultView> {
    v.map_values(|r: SarifResult| r.view_of())
}

/// The SARIF result of one finding.
pub fn result_for(f: &Finding) -> (r: SarifResult)
    ensures
        r.view_of() == result_spec(f@),
{
    let mut id = String::from_str("plasma/");
    id.append(f.rule_id.as_str());
    let level = match f.status {
        FindingStatus::Violation => String::from_str(sarif_level(f.severity)),
        FindingStatus::Pass => String::from_str("none"),
    };
    let location = if !str_eq(f.subject.as_str(), "repo") && !str_starts_with(
        f.subject.as_str(),
        "metadata:",
    ) {
        Some(f.subject.clone())
    } else {
        None
    };
    SarifResult {
        rule_id: id,
        message: f.message.clone(),
        level,
        pass: f.status == FindingStatus::Pass,
        location,
    }
}

/// The SARIF results of an evaluation.
pub fn sarif_results(eval: &Evaluation, include_passes: bool) -> (r: Vec<SarifResult>)
    ensures
        result_views(r@) == results_spec(finding_views(eval.findings@), include_passes),
{
    let ghost fs = finding_views(eval.findings@);
    let mut r: Vec<SarifResult> = Vec::new();
    let mut i: usize = 0;
    while i < eval.findings.len()
        invariant
            i <= eval.findings@.len(),
            fs == finding_views(eval.findings@),
            result_views(r@) == results_spec(fs.subrange(0, i as int), include_passes),
        decreases eval.findings@.len() - i,
    {
        let ghost pre = fs.subrange(0, i + 1);
        assert(pre.drop_last() =~= fs.subrange(0, i as int));
        assert(pre.last() == eval.findings@[i as int]@);
        let f = &eval.findings[i];
        if include_passes || f.status == FindingStatus::Violation {
            let ghost old_r = result_views(r@);
            r.push(result_for(f));
            assert(result_views(r@) =~= old_r.push(r@.last().view_of()));
        }
        i = i + 1;
    }
    assert(fs.subrange(0, fs.len() as int) =~= fs);
    r
}

/// Insert `(k, v)` into a key-ordered table unless `k` is there already.
pub open spec fn insert_absent(es: Seq<(Seq<char>, Option<Seq<char>>)>, k: Seq<char>, v: Option<Seq<char>>) -> Seq<
    (Seq<char>, Option<Seq<char>>),
>
    decreases es.len(),
{
    if es.len() == 0 {
        seq![(k, v)]
    } else if es[0].0 == k {
        es
    } else if str_lt(k, es[0].0) {
        seq![(k, v)] + es
    } else {
        seq![es[0]] + insert_absent(es.drop_first(), k, v)
    }
}

/// The rule table: one entry per rule id, ordered by id, carrying the
/// rationale of the rule's first finding.
pub open spec fn rules_table(fs: Seq<FindingView>) -> Seq<(Seq<char>, Option<Seq<char>>)>
    decreases fs.len(),
{
    if fs.len() == 0 {
        seq![]
    } else {
        insert_absent(rules_table(fs.drop_last()), sarif_id(fs.last().rule_id), fs.last().rationale)
    }
}

/// The views of rule-table entries.
pub open spec fn rule_views(v: Seq<SarifRule>) -> Seq<(Seq<char>, Option<Seq<char>>)> {
    v.map_values(
        |r: SarifRule|
            (
                r.id@,
                match r.short_description {
                    Some(d) => Some(d@),
                    None => None,
                },
            ),
    )
}

#[verifier::loop_isolation(false)]
fn insert_rule(table: &mut Vec<SarifRule>, id: String, rationale: Option<String>)
    ensures
        rule_views(final(table)@) == insert_absent(rule_views(old(table)@), id@, crate::facts::opt_text(rationale)),
{
    let ghost old_v = rule_views(table@);
    let ghost val = crate::facts::opt_text(rationale);
    let mut i: usize = 0;
    assert(old_v.subrange(0, old_v.len() as int) =~= old_v);
    assert(old_v.subrange(0, 0) =~= Seq::<(Seq<char>, Option<Seq<char>>)>::empty());
    while i < table.len()
        invariant
            i <= table@.len(),
            rule_views(table@) == old_v,
            insert_absent(old_v, id@, val) == old_v.subrange(0, i as int) + insert_absent(
                old_v.subrange(i as int, old_v.len() as int),
                id@,
                val,
            ),
        decreases table@.len() - i,
    {
        let ghost rest = old_v.subrange(i as int, old_v.len() as int);
        assert(rest[0] == old_v[i as int]);
        assert(old_v[i as int].0 == table@[i as int].id@);
        if str_eq(table[i].id.as_str(), id.as_str()) {
            assert(insert_absent(rest, id@, val) == rest);
            assert(old_v.subrange(0, i as int) + rest =~= old_v);
            return;
        }
        if str_less(id.as_str(), table[i].id.as_str()) {
            let ghost idv = id@;
            assert(insert_absent(rest, idv, val) == seq![(idv, val)] + rest);
            table.insert(i, SarifRule { id, short_description: rationale });
            assert(rule_views(table@) =~= old_v.subrange(0, i as int) + insert_absent(rest, idv, val));
            return;
        }
        assert(rest.drop_first() =~= old_v.subrange(i + 1, old_v.len() as int));
        assert(old_v.subrange(0, i + 1) =~= old_v.subrange(0, i as int) + seq![rest[0]]);
        i = i + 1;
    }
    let ghost before = table@;
    table.push(SarifRule { id, short_description: rationale });
    assert(old_v.subrange(i as int, old_v.len() as int) =~= Seq::<(Seq<char>, Option<Seq<char>>)>::empty());
    assert(rule_views(table@) =~= old_v + seq![(table@.last().id@, val)]);
}

/// The SARIF rule table of an evaluation.
pub fn sarif_rules(eval: &Evaluation) -> (r: Vec<SarifRule>)
    ensures
        rule_views(r@) == rules_table(finding_views(eval.findings@)),
{
    let ghost fs = finding_views(eval.findings@);
    let mut r: Vec<SarifRule> = Vec::new();
    let mut i: usize = 0;
    while i < eval.findings.len()
        invariant
            i <= eval.findings@.len(),
            fs == finding_views(eval.findings@),
            rule_views(r@) == rules_table(fs.subrange(0, i as int)),
        decreases eval.findings@.len() - i,
    {
        let ghost pre = fs.subrange(0, i + 1);
        assert(pre.drop_last() =~= fs.subrange(0, i as int));
        assert(pre.last() == eval.findings@[i as int]@);
        let f = &eval.findings[i];
        let mut id = String::from_str("plasma/");
        id.append(f.rule_id.as_str());
        insert_rule(&mut r, id, opt_clone(&f.rationale));
        i = i + 1;
    }
    assert(fs.subrange(0, fs.len() as int) =~= fs);
    r
}

/// The rule ids of a rule table, in order.
pub open spec fn table_keys(es: Seq<(Seq<char>, Option<Seq<char>>)>) -> Seq<Seq<char>> {
    es.map_values(|e: (Seq<char>, Option<Seq<char>>)| e.0)
}

/// The violations among findings, in order.
pub open spec fn violations_of(fs: Seq<FindingView>) -> Seq<FindingView>
    decreases fs.len(),
{
    if fs.len() == 0 {
        seq![]
    } else if fs.last().status == FindingStatus::Violation {
        violations_of(fs.drop_last()).push(fs.last())
    } else {
        violations_of(fs.drop_last())
    }
}

/// The SARIF results: with passes, one result per finding in findings
/// order; without, one per violation in order. A violation's level is
/// `error`, `warning` or `note` by severity (never `info`); a pass has
/// kind `pass` and level `none`; a result carries a location exactly when
/// its subject is neither the repository nor a metadata key.
pub proof fn lemma_sarif_results(fs: Seq<FindingView>)
    ensures
        results_spec(fs, true) == fs.map_values(|f: FindingView| result_spec(f)),
        results_spec(fs, false) == violations_of(fs).map_values(|f: FindingView| result_spec(f)),
        forall|i: int|
            0 <= i < fs.len() ==> {
                let r = #[trigger] result_spec(fs[i]);
                &&& r.rule_id == "plasma/"@ + fs[i].rule_id
                &&& (fs[i].status == FindingStatus::Violation ==> r.level == sarif_level_spec(fs[i].severity) && !r.pass)
                &&& (fs[i].status == FindingStatus::Pass ==> r.level == "none"@ && r.pass)
                &&& r.level != "info"@
                &&& (r.location is Some <==> (fs[i].subject != "repo"@ && !has_prefix(fs[i].subject, "metadata:"@)))
            },
    decreases fs.len(),
{
    reveal_strlit("error");
    reveal_strlit("warning");
    reveal_strlit("note");
    reveal_strlit("none");
    reveal_strlit("info");
    if fs.len() == 0 {
        assert(fs.map_values(|f: FindingView| result_spec(f)) =~= Seq::<SarifResultView>::empty());
        assert(violations_of(fs).map_values(|f: FindingView| result_spec(f)) =~= Seq::<SarifResultView>::empty());
    } else {
        lemma_sarif_results(fs.drop_last());
        assert(fs.map_values(|f: FindingView| result_spec(f)) =~= fs.drop_last().map_values(
            |f: FindingView| result_spec(f),
        ).push(result_spec(fs.last())));
        if fs.last().status == FindingStatus::Violation {
            assert(violations_of(fs).map_values(|f: FindingView| result_spec(f)) =~= violations_of(
                fs.drop_last(),
            ).map_values(|f: FindingView| result_spec(f)).push(result_spec(fs.last())));
        }
        assert forall|i: int| 0 <= i < fs.len() implies {
            let r = #[trigger] result_spec(fs[i]);
            &&& r.rule_id == "plasma/"@ + fs[i].rule_id
            &&& (fs[i].status == FindingStatus::Violation ==> r.level == sarif_level_spec(fs[i].severity) && !r.pass)
            &&& (fs[i].status == FindingStatus::Pass ==> r.level == "none"@ && r.pass)
            &&& r.level != "info"@
            &&& (r.location is Some <==> (fs[i].subject != "repo"@ && !has_prefix(fs[i].subject, "metadata:"@)))
        } by {
            let r = result_spec(fs[i]);
            if fs[i].status == FindingStatus::Violation {
                assert(r.level != "info"@) by {
                    match fs[i].severity {
                        Severity::Error => assert(r.level[0] != "info"@[0]),
                        Severity::Warning => assert(r.level[0] != "info"@[0]),
                        Severity::Info => assert(r.level[0] != "info"@[0]),
                    }
                }
            } else {
                assert(r.level[0] != "info"@[0]);
            }
        }
    }
}

proof fn lemma_insert_absent(es: Seq<(Seq<char>, Option<Seq<char>>)>, k: Seq<char>, v: Option<Seq<char>>)
    requires
        crate::order::strictly_sorted(table_keys(es)),
    ensures
        crate::order::strictly_sorted(table_keys(insert_absent(es, k, v))),
        table_keys(insert_absent(es, k, v)).contains(k),
        forall|x: Seq<char>| #[trigger] table_keys(es).contains(x)
            ==> table_keys(insert_absent(es, k, v)).contains(x),
        forall|x: Seq<char>| #[trigger] table_keys(insert_absent(es, k, v)).contains(x)
            ==> x == k || table_keys(es).contains(x),
    decreases es.len(),
{
    let ks = table_keys(es);
    let r = insert_absent(es, k, v);
    let rk = table_keys(r);
    if es.len() == 0 {
        assert(rk[0] == k);
    } else if es[0].0 == k {
        assert(rk[0] == k);
    } else if str_lt(k, es[0].0) {
        assert(rk =~= seq![k] + ks);
        assert(rk[0] == k);
        assert forall|a: int, b: int| 0 <= a < b < rk.len() implies str_lt(#[trigger] rk[a], #[trigger] rk[b]) by {
            if a == 0 {
                if b > 1 {
                    crate::order::lemma_lt_transitive(k, ks[0], ks[b - 1]);
                }
            } else {
                assert(rk[a] == ks[a - 1] && rk[b] == ks[b - 1]);
            }
        }
        assert forall|x: Seq<char>| ks.contains(x) implies rk.contains(x) by {
            let j = choose|j: int| 0 <= j < ks.len() && ks[j] == x;
            assert(rk[j + 1] == x);
        }
        assert forall|x: Seq<char>| rk.contains(x) implies x == k || ks.contains(x) by {
            let j = choose|j: int| 0 <= j < rk.len() && rk[j] == x;
            if j > 0 {
                assert(ks[j - 1] == x);
            }
        }
    } else {
        let tail = es.drop_first();
        let tk = table_keys(tail);
        assert(tk =~= ks.drop_first());
        lemma_insert_absent(tail, k, v);
        let ri = insert_absent(tail, k, v);
        let rik = table_keys(ri);
        assert(rk =~= seq![ks[0]] + rik);
        crate::order::lemma_lt_total(k, ks[0]);
        assert forall|a: int, b: int| 0 <= a < b < rk.len() implies str_lt(#[trigger] rk[a], #[trigger] rk[b]) by {
            if a == 0 {
                assert(rk[b] == rik[b - 1]);
                assert(rik.contains(rik[b - 1]));
                if rik[b - 1] == k {
                } else {
                    let j = choose|j: int| 0 <= j < tk.len() && tk[j] == rik[b - 1];
                    assert(ks[j + 1] == tk[j]);
                }
            } else {
                assert(rk[a] == rik[a - 1] && rk[b] == rik[b - 1]);
            }
        }
        assert(rk[0] == ks[0]);
        assert(rik.contains(k));
        let jk = choose|j: int| 0 <= j < rik.len() && rik[j] == k;
        assert(rk[jk + 1] == k);
        assert forall|x: Seq<char>| ks.contains(x) implies rk.contains(x) by {
            let j = choose|j: int| 0 <= j < ks.len() && ks[j] == x;
            if j > 0 {
                assert(tk[j - 1] == x);
                assert(tk.contains(x));
                let m = choose|m: int| 0 <= m < rik.len() && rik[m] == x;
                assert(rk[m + 1] == x);
            }
        }
        assert forall|x: Seq<char>| rk.contains(x) implies x == k || ks.contains(x) by {
            let j = choose|j: int| 0 <= j < rk.len() && rk[j] == x;
            if j > 0 {
                assert(rik[j - 1] == x);
                assert(rik.contains(x));
                if x != k {
                    let m = choose|m: int| 0 <= m < tk.len() && tk[m] == x;
                    assert(ks[m + 1] == x);
                }
            }
        }
    }
}

/// The SARIF rule table has one entry per distinct rule id of the
/// findings, in ascending order.
pub proof fn lemma_rules_table(fs: Seq<FindingView>)
    ensures
        crate::order::strictly_sorted(table_keys(rules_table(fs))),
        forall|x: Seq<char>|
            table_keys(rules_table(fs)).contains(x) <==> exists|i: int|
                0 <= i < fs.len() && x == sarif_id(#[trigger] fs[i].rule_id),
    decreases fs.len(),
{
    let keys = table_keys(rules_table(fs));
    if fs.len() == 0 {
        assert forall|x: Seq<char>| !keys.contains(x) by {}
    } else {
        lemma_rules_table(fs.drop_last());
        let prev = rules_table(fs.drop_last());
        let pk = table_keys(prev);
        lemma_insert_absent(prev, sarif_id(fs.last().rule_id), fs.last().rationale);
        assert forall|x: Seq<char>| keys.contains(x) <==> exists|i: int|
            0 <= i < fs.len() && x == sarif_id(#[trigger] fs[i].rule_id) by {
            if keys.contains(x) {
                if x == sarif_id(fs.last().rule_id) {
                    assert(x == sarif_id(fs[fs.len() - 1].rule_id));
                } else {
                    assert(pk.contains(x));
                    let i = choose|i: int| 0 <= i < fs.drop_last().len() && x == sarif_id(#[trigger] fs.drop_last()[i].rule_id);
                    assert(fs[i] == fs.drop_last()[i]);
                }
            }
            if exists|i: int| 0 <= i < fs.len() && x == sarif_id(#[trigger] fs[i].rule_id) {
                let i = choose|i: int| 0 <= i < fs.len() && x == sarif_id(#[trigger] fs[i].rule_id);
                if i < fs.len() - 1 {
                    assert(fs.drop_last()[i] == fs[i]);
                    assert(pk.contains(x));
                }
            }
        }
    }
}

proof fn lemma_body_empty_iff_nothing_shown(fs: Seq<FindingView>, verbose: bool)
    ensures
        human_body(fs, verbose).len() == 0 <==> !any_shown(fs, verbose),
    decreases fs.len(),
{
    reveal_strlit("  ");
    reveal_strlit("  PASS: [");
    if fs.len() > 0 {
        lemma_body_empty_iff_nothing_shown(fs.drop_last(), verbose);
        let f = fs.last();
        if shown(f, verbose) {
            assert(finding_lines(f, verbose).len() > 0);
            assert(shown(fs[fs.len() - 1], verbose));
        } else {
            assert(finding_lines(f, verbose).len() == 0);
            if any_shown(fs, verbose) {
                let i = choose|i: int| 0 <= i < fs.len() && shown(#[trigger] fs[i], verbose);
                assert(fs.drop_last()[i] == fs[i]);
            }
            if any_shown(fs.drop_last(), verbose) {
                let i = choose|i: int| 0 <= i < fs.drop_last().len() && shown(#[trigger] fs.drop_last()[i], verbose);
                assert(fs[i] == fs.drop_last()[i]);
            }
        }
    }
}

/// The layout of the human report: the heading line, then each
/// violation's line (with its rationale and source lines), each pass's
/// line only when verbose, `  No violations.` exactly when no finding
/// line was written, and the summary line.
pub proof fn lemma_human_layout(e: Evaluation, verbose: bool)
    ensures
        human_text(e, verbose) == "Policy "@ + e.policy_id@ + " v"@ + policy_version_text(
            e.policy_version,
        ) + " (schema "@ + policy_version_text(e.schema_version) + ") against "@ + e.root@
            + "\n\n"@ + human_body(finding_views(e.findings@), verbose) + (if human_body(
            finding_views(e.findings@),
            verbose,
        ).len() == 0 {
            "  No violations.\n"@
        } else {
            seq![]
        }) + "\nSummary: "@ + decimal(e.summary.errors as nat) + " error(s), "@ + decimal(
            e.summary.warnings as nat,
        ) + " warning(s), "@ + decimal(e.summary.info as nat) + " info, "@ + decimal(
            e.summary.passes as nat,
        ) + " rule(s) satisfied\n"@,
        forall|f: FindingView|
            f.status == FindingStatus::Violation ==> #[trigger] finding_lines(f, verbose) == "  "@
                + severity_upper(f.severity) + ": ["@ + f.rule_id + "] "@ + f.subject + " — "@
                + f.message + "\n"@ + rationale_line(f) + source_line(f),
        forall|f: FindingView|
            f.status == FindingStatus::Pass ==> #[trigger] finding_lines(f, verbose) == (if verbose {
                "  PASS: ["@ + f.rule_id + "] "@ + f.subject + " — "@ + f.message + "\n"@
            } else {
                seq![]
            }),
{
    lemma_body_empty_iff_nothing_shown(finding_views(e.findings@), verbose);
}

} // verus!

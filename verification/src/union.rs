//! Union policy schemas, contract validation and grievance letters.
//!
//! A union names the clauses an ethical contract must attest and the
//! phrases that flag exploitative terms. A contract (an A2ML document)
//! attests a clause by listing it in its `@requires` block.
use vstd::prelude::*;
use crate::a2ml::{A2mlDocument, PolicyError};
use crate::catalog::{parse_u32_chars, parse_u32_spec};
use crate::text::{chars_eq, chars_of, occurs_at, str_eq, string_from};

verus! {

/// The supported unions.
#[derive(Debug, Clone, Copy, PartialEq, Eq, Structural)]
pub enum Union {
    /// National Union of Journalists.
    Nuj,
    /// Industrial Workers of the World.
    Iww,
    /// University and College Union.
    Ucu,
}

pub open spec fn required_clauses_spec(u: Union) -> Seq<Seq<char>> {
    match u {
        Union::Nuj => seq!["truth-accuracy"@, "independence"@, "source-protection"@],
        Union::Iww => seq!["payment-terms"@, "late-payment-penalty"@, "no-spec-work"@],
        Union::Ucu => seq!["academic-freedom"@, "workload-limits"@, "no-casualization"@],
    }
}

pub open spec fn red_flag_patterns_spec(u: Union) -> Seq<Seq<char>> {
    match u {
        Union::Nuj => seq!["all rights"@, "work for hire"@, "no source protection"@],
        Union::Iww => seq!["unpaid"@, "payment on publication"@, "NET 90"@],
        Union::Ucu => seq!["zero hours"@, "unlimited hours"@, "no research time"@],
    }
}

pub open spec fn str_views(v: Seq<&str>) -> Seq<Seq<char>> {
    v.map_values(|s: &str| s@)
}

impl Union {
    /// The clauses that must be present for a contract to be considered
    /// ethical by this union.
    pub fn required_clauses(&self) -> (r: Vec<&'static str>)
        ensures
            str_views(r@) == required_clauses_spec(*self),
    {
        let mut v: Vec<&'static str> = Vec::new();
        match self {
            Union::Nuj => {
                v.push("truth-accuracy");
                v.push("independence");
                v.push("source-protection");
            },
            Union::Iww => {
                v.push("payment-terms");
                v.push("late-payment-penalty");
                v.push("no-spec-work");
            },
            Union::Ucu => {
                v.push("academic-freedom");
                v.push("workload-limits");
                v.push("no-casualization");
            },
        }
        assert(str_views(v@) =~= required_clauses_spec(*self));
        v
    }

    /// Phrases that flag exploitative language (waivers of moral rights,
    /// excessive payment delays, insecure hours).
    pub fn red_flag_patterns(&self) -> (r: Vec<&'static str>)
        ensures
            str_views(r@) == red_flag_patterns_spec(*self),
    {
        let mut v: Vec<&'static str> = Vec::new();
        match self {
            Union::Nuj => {
                v.push("all rights");
                v.push("work for hire");
                v.push("no source protection");
            },
            Union::Iww => {
                v.push("unpaid");
                v.push("payment on publication");
                v.push("NET 90");
            },
            Union::Ucu => {
                v.push("zero hours");
                v.push("unlimited hours");
                v.push("no research time");
            },
        }
        assert(str_views(v@) =~= red_flag_patterns_spec(*self));
        v
    }
}

/// Value checks for individual clauses of one union.
pub struct UnionRules {
    pub union: Union,
}

/// The outcome of a clause value check: `Ok(meets the standard)`, or the
/// message of a validation error.
pub open spec fn clause_value_spec(u: Union, clause: Seq<char>, value: Seq<char>) -> Result<
    bool,
    Seq<char>,
> {
    if u == Union::Iww && clause == "payment-terms.net-days"@ {
        match parse_u32_spec(value) {
            Some(days) => Ok(days <= 30),
            None => Err("Invalid days"@),
        }
    } else {
        Ok(true)
    }
}

impl UnionRules {
    /// Does a clause value (such as the net days of payment terms) meet the
    /// union's minimum standard? The IWW asks for payment within 30 days.
    pub fn check_clause_value(&self, clause: &str, value: &str) -> (r: Result<bool, PolicyError>)
        ensures
            match clause_value_spec(self.union, clause@, value@) {
                Ok(b) => r == Ok::<bool, PolicyError>(b),
                Err(m) => r matches Err(PolicyError::ValidationError(e)) && e@ == m,
            },
    {
        match self.union {
            Union::Iww => self.check_iww_clause(clause, value),
            _ => Ok(true),
        }
    }

    fn check_iww_clause(&self, clause: &str, value: &str) -> (r: Result<bool, PolicyError>)
        requires
            self.union == Union::Iww,
        ensures
            match clause_value_spec(self.union, clause@, value@) {
                Ok(b) => r == Ok::<bool, PolicyError>(b),
                Err(m) => r matches Err(PolicyError::ValidationError(e)) && e@ == m,
            },
    {
        if str_eq(clause, "payment-terms.net-days") {
            let chars = chars_of(value);
            match parse_u32_chars(chars.as_slice()) {
                Some(days) => Ok(days <= 30),
                None => Err(PolicyError::ValidationError(String::from_str("Invalid days"))),
            }
        } else {
            Ok(true)
        }
    }
}

/// How deeply a contract is checked.
#[derive(Debug, Clone, Copy, PartialEq, Eq, Structural)]
pub enum ValidationMode {
    /// Syntax and basic document structure only.
    Lax,
    /// Also: every mandatory clause is attested.
    Checked,
    /// Also: the attestations are recognised and backed by references.
    Attested,
}

/// A finding that makes the contract invalid.
#[derive(Debug, Clone)]
pub struct ValidationError {
    pub message: String,
}

/// A finding that leaves the contract valid.
#[derive(Debug, Clone)]
pub struct ValidationWarning {
    pub message: String,
}

/// Whether one required clause is attested by the contract.
#[derive(Debug, Clone)]
pub struct ClauseCheck {
    pub clause: String,
    pub present: bool,
}

/// The consolidated result of a validation run.
#[derive(Debug, Clone)]
pub struct ValidationReport {
    pub contract_path: String,
    pub schema_path: String,
    /// Final pass/fail status: no errors.
    pub valid: bool,
    pub errors: Vec<ValidationError>,
    pub warnings: Vec<ValidationWarning>,
    pub required_clauses: Vec<ClauseCheck>,
}

/// The messages of a sequence of errors.
pub open spec fn error_texts(v: Seq<ValidationError>) -> Seq<Seq<char>> {
    v.map_values(|e: ValidationError| e.message@)
}

/// The messages of a sequence of warnings.
pub open spec fn warning_texts(v: Seq<ValidationWarning>) -> Seq<Seq<char>> {
    v.map_values(|w: ValidationWarning| w.message@)
}

/// The clauses and outcomes of a sequence of clause checks.
pub open spec fn check_views(v: Seq<ClauseCheck>) -> Seq<(Seq<char>, bool)> {
    v.map_values(|c: ClauseCheck| (c.clause@, c.present))
}

pub struct ReportView {
    pub valid: bool,
    pub errors: Seq<Seq<char>>,
    pub warnings: Seq<Seq<char>>,
    pub checks: Seq<(Seq<char>, bool)>,
}

pub open spec fn report_view(r: ValidationReport) -> ReportView {
    ReportView {
        valid: r.valid,
        errors: error_texts(r.errors@),
        warnings: warning_texts(r.warnings@),
        checks: check_views(r.required_clauses@),
    }
}

/// The contract's attested clauses.
pub open spec fn attested(doc: A2mlDocument) -> Seq<Seq<char>> {
    doc@.requirements
}

/// One check per required clause, in order.
pub open spec fn clause_checks(have: Seq<Seq<char>>, clauses: Seq<Seq<char>>) -> Seq<(Seq<char>, bool)> {
    clauses.map_values(|c: Seq<char>| (c, have.contains(c)))
}

/// One error per required clause the contract does not attest, in order.
pub open spec fn missing_errors(have: Seq<Seq<char>>, clauses: Seq<Seq<char>>) -> Seq<Seq<char>>
    decreases clauses.len(),
{
    if clauses.len() == 0 {
        Seq::empty()
    } else {
        let r = missing_errors(have, clauses.drop_last());
        if have.contains(clauses.last()) {
            r
        } else {
            r.push("Missing required clause: "@ + clauses.last())
        }
    }
}

/// One warning per attested clause that the schema does not require.
pub open spec fn unrecognised_warnings(have: Seq<Seq<char>>, clauses: Seq<Seq<char>>) -> Seq<Seq<char>>
    decreases have.len(),
{
    if have.len() == 0 {
        Seq::empty()
    } else {
        let r = unrecognised_warnings(have.drop_last(), clauses);
        if clauses.contains(have.last()) {
            r
        } else {
            r.push("Unrecognised attestation: "@ + have.last())
        }
    }
}

/// The error of a contract whose attestations no reference backs.
pub open spec fn unbacked_errors(doc: A2mlDocument) -> Seq<Seq<char>> {
    if doc@.requirements.len() > 0 && doc@.references.len() == 0 {
        seq!["Attestations are not backed by any reference"@]
    } else {
        Seq::empty()
    }
}

/// The report a validation run produces (paths left empty).
pub open spec fn validate_spec(mode: ValidationMode, doc: A2mlDocument, clauses: Seq<Seq<char>>) -> ReportView {
    let have = attested(doc);
    let errors = match mode {
        ValidationMode::Lax => Seq::empty(),
        ValidationMode::Checked => missing_errors(have, clauses),
        ValidationMode::Attested => missing_errors(have, clauses) + unbacked_errors(doc),
    };
    ReportView {
        valid: errors.len() == 0,
        errors,
        warnings: if mode == ValidationMode::Attested {
            unrecognised_warnings(have, clauses)
        } else {
            Seq::empty()
        },
        checks: if mode == ValidationMode::Lax {
            Seq::empty()
        } else {
            clause_checks(have, clauses)
        },
    }
}

/// Runs the validation pipeline of one mode.
pub struct Validator {
    pub mode: ValidationMode,
}

/// Is `s` among the strings of `v`?
fn contains_text(v: &Vec<String>, s: &str) -> (r: bool)
    ensures
        r == v@.map_values(|x: String| x@).contains(s@),
{
    let ghost vs = v@.map_values(|x: String| x@);
    let mut i: usize = 0;
    while i < v.len()
        invariant
            i <= v@.len(),
            vs == v@.map_values(|x: String| x@),
            forall|k: int| 0 <= k < i ==> vs[k] != s@,
        decreases v@.len() - i,
    {
        if str_eq(v[i].as_str(), s) {
            assert(vs[i as int] == s@);
            return true;
        }
        i = i + 1;
    }
    false
}

fn message(prefix: &str, s: &str) -> (r: String)
    ensures
        r@ == prefix@ + s@,
{
    let mut m = String::from_str(prefix);
    m.append(s);
    m
}

impl Validator {
    /// Checks a contract against the clauses a schema requires.
    #[verifier::loop_isolation(false)]
    pub fn validate(&self, contract: &A2mlDocument, required_clauses: &[String]) -> (r: ValidationReport)
        ensures
            report_view(r) == validate_spec(self.mode, *contract, required_clauses@.map_values(|c: String| c@)),
            r.contract_path@ == Seq::<char>::empty(),
            r.schema_path@ == Seq::<char>::empty(),
    {
        let ghost clauses = required_clauses@.map_values(|c: String| c@);
        let ghost have = attested(*contract);
        let mut errors: Vec<ValidationError> = Vec::new();
        let mut warnings: Vec<ValidationWarning> = Vec::new();
        let mut checks: Vec<ClauseCheck> = Vec::new();
        if self.mode != ValidationMode::Lax {
            let mut i: usize = 0;
            assert(clauses.subrange(0, 0) =~= Seq::<Seq<char>>::empty());
            assert(error_texts(errors@) =~= Seq::<Seq<char>>::empty());
            assert(check_views(checks@) =~= Seq::<(Seq<char>, bool)>::empty());
            while i < required_clauses.len()
                invariant
                    i <= required_clauses@.len(),
                    clauses == required_clauses@.map_values(|c: String| c@),
                    have == contract@.requirements,
                    error_texts(errors@) == missing_errors(have, clauses.subrange(0, i as int)),
                    check_views(checks@) == clause_checks(have, clauses.subrange(0, i as int)),
                decreases required_clauses@.len() - i,
            {
                let c = required_clauses[i].as_str();
                let present = contains_text(&contract.requirements, c);
                let ghost e0 = errors@;
                let ghost c0 = checks@;
                if !present {
                    errors.push(ValidationError { message: message("Missing required clause: ", c) });
                    assert(error_texts(errors@) =~= error_texts(e0).push("Missing required clause: "@ + clauses[i as int]));
                }
                checks.push(ClauseCheck { clause: string_from(chars_of(c).as_slice()), present });
                assert(check_views(checks@) =~= check_views(c0).push((clauses[i as int], have.contains(clauses[i as int]))));
                assert(clauses.subrange(0, i + 1).drop_last() =~= clauses.subrange(0, i as int));
                assert(clauses.subrange(0, i + 1).last() == clauses[i as int]);
                assert(clause_checks(have, clauses.subrange(0, i + 1)) =~= clause_checks(have, clauses.subrange(0, i as int)).push((clauses[i as int], have.contains(clauses[i as int]))));
                i = i + 1;
            }
            assert(clauses.subrange(0, clauses.len() as int) =~= clauses);
        }
        if self.mode == ValidationMode::Attested {
            let ghost e1 = errors@;
            if contract.requirements.len() > 0 && contract.references.len() == 0 {
                errors.push(ValidationError { message: String::from_str("Attestations are not backed by any reference") });
            }
            assert(error_texts(errors@) =~= error_texts(e1) + unbacked_errors(*contract));
            let mut k: usize = 0;
            assert(have.subrange(0, 0) =~= Seq::<Seq<char>>::empty());
            assert(warning_texts(warnings@) =~= Seq::<Seq<char>>::empty());
            while k < contract.requirements.len()
                invariant
                    k <= contract.requirements@.len(),
                    clauses == required_clauses@.map_values(|c: String| c@),
                    have == contract@.requirements,
                    warning_texts(warnings@) == unrecognised_warnings(have.subrange(0, k as int), clauses),
                decreases contract.requirements@.len() - k,
            {
                let a = contract.requirements[k].as_str();
                let known = contains_text_slice(required_clauses, a);
                let ghost w0 = warnings@;
                if !known {
                    warnings.push(ValidationWarning { message: message("Unrecognised attestation: ", a) });
                    assert(warning_texts(warnings@) =~= warning_texts(w0).push("Unrecognised attestation: "@ + have[k as int]));
                }
                assert(have.subrange(0, k + 1).drop_last() =~= have.subrange(0, k as int));
                assert(have.subrange(0, k + 1).last() == have[k as int]);
                k = k + 1;
            }
            assert(have.subrange(0, have.len() as int) =~= have);
        }
        let ghost spec = validate_spec(self.mode, *contract, clauses);
        assert(error_texts(errors@) =~= spec.errors);
        assert(warning_texts(warnings@) =~= spec.warnings);
        assert(check_views(checks@) =~= spec.checks);
        let valid = errors.len() == 0;
        ValidationReport {
            contract_path: String::new(),
            schema_path: String::new(),
            valid,
            errors,
            warnings,
            required_clauses: checks,
        }
    }
}

/// Is `s` among the strings of `v`?
fn contains_text_slice(v: &[String], s: &str) -> (r: bool)
    ensures
        r == v@.map_values(|x: String| x@).contains(s@),
{
    let ghost vs = v@.map_values(|x: String| x@);
    let mut i: usize = 0;
    while i < v.len()
        invariant
            i <= v@.len(),
            vs == v@.map_values(|x: String| x@),
            forall|k: int| 0 <= k < i ==> vs[k] != s@,
        decreases v@.len() - i,
    {
        if str_eq(v[i].as_str(), s) {
            assert(vs[i as int] == s@);
            return true;
        }
        i = i + 1;
    }
    false
}

/// Writes grievance letters from a Markdown template with `{{placeholders}}`.
pub struct GrievanceGenerator {
    /// The collective bargaining unit named in the letter.
    pub union: Option<String>,
    /// The template; the built-in letter when absent.
    pub template: Option<String>,
}

/// The letter used when no template is given.
pub open spec fn default_template() -> Seq<char> {
    "# GRIEVANCE LETTER\n\nUnion: {{union}}\nContract: {{contract_id}}\n\nWe raise a formal grievance concerning: {{violation}}\n"@
}

/// The first `}}` at or after position `p` (or the length).
pub open spec fn close_from(t: Seq<char>, p: int) -> int
    decreases t.len() - p,
{
    if p < 0 || p >= t.len() {
        t.len() as int
    } else if occurs_at(t, "}}"@, p) {
        p
    } else {
        close_from(t, p + 1)
    }
}

pub proof fn lemma_close_from_ge(t: Seq<char>, p: int)
    ensures
        0 <= p ==> close_from(t, p) >= p || close_from(t, p) == t.len(),
        close_from(t, p) <= t.len(),
        close_from(t, p) < t.len() ==> occurs_at(t, "}}"@, close_from(t, p)),
    decreases t.len() - p,
{
    reveal_strlit("}}");
    if !(p < 0 || p >= t.len()) && !occurs_at(t, "}}"@, p) {
        lemma_close_from_ge(t, p + 1);
    }
}

/// The value a placeholder name stands for.
pub open spec fn placeholder_value(name: Seq<char>, violation: Seq<char>, contract: Seq<char>, union: Seq<char>) -> Option<Seq<char>> {
    if name == "violation"@ {
        Some(violation)
    } else if name == "contract_id"@ {
        Some(contract)
    } else if name == "union"@ {
        Some(union)
    } else {
        None
    }
}

/// The template text from position `i` on with its placeholders replaced,
/// or the message of the first malformed placeholder.
pub open spec fn render_from(t: Seq<char>, i: int, violation: Seq<char>, contract: Seq<char>, union: Seq<char>) -> Result<Seq<char>, Seq<char>>
    decreases t.len() - i,
{
    if i < 0 || i >= t.len() {
        Ok(Seq::empty())
    } else if occurs_at(t, "{{"@, i) {
        let j = close_from(t, i + 2);
        proof {
            reveal_strlit("{{");
            reveal_strlit("}}");
            lemma_close_from_ge(t, i + 2);
        }
        if j >= t.len() {
            Err("unclosed placeholder"@)
        } else {
            let name = t.subrange(i + 2, j);
            match placeholder_value(name, violation, contract, union) {
                None => Err("unknown placeholder: "@ + name),
                Some(v) => match render_from(t, j + 2, violation, contract, union) {
                    Ok(rest) => Ok(v + rest),
                    Err(e) => Err(e),
                },
            }
        }
    } else {
        match render_from(t, i + 1, violation, contract, union) {
            Ok(rest) => Ok(seq![t[i]] + rest),
            Err(e) => Err(e),
        }
    }
}

/// `out` put in front of a rendering.
pub open spec fn after(out: Seq<char>, r: Result<Seq<char>, Seq<char>>) -> Result<Seq<char>, Seq<char>> {
    match r {
        Ok(s) => Ok(out + s),
        Err(e) => Err(e),
    }
}

/// The letter for one violation: the template with `{{violation}}`,
/// `{{contract_id}}` (the report's contract path) and `{{union}}` (empty
/// when no union is set) replaced.
pub open spec fn grievance_spec(g: GrievanceGenerator, violation: Seq<char>, report: ValidationReport) -> Result<Seq<char>, Seq<char>> {
    let t = match g.template {
        Some(s) => s@,
        None => default_template(),
    };
    let u = match g.union {
        Some(s) => s@,
        None => Seq::empty(),
    };
    render_from(t, 0, violation, report.contract_path@, u)
}

/// The first `}}` at or after `p`, or the length.
fn find_close(t: &[char], p: usize) -> (j: usize)
    requires
        p <= t@.len(),
    ensures
        j as int == close_from(t@, p as int),
{
    let close = chars_of("}}");
    let mut j: usize = p;
    while j < t.len() && !crate::text::chars_occur_at(t, close.as_slice(), j)
        invariant
            p <= j <= t@.len(),
            close@ == "}}"@,
            close_from(t@, p as int) == close_from(t@, j as int),
        decreases t@.len() - j,
    {
        j = j + 1;
    }
    j
}

/// Replaces the placeholders of `t`.
#[verifier::loop_isolation(false)]
fn render(t: &[char], violation: &str, contract: &str, union: &str) -> (r: Result<String, String>)
    ensures
        match render_from(t@, 0, violation@, contract@, union@) {
            Ok(s) => r matches Ok(x) && x@ == s,
            Err(e) => r matches Err(x) && x@ == e,
        },
{
    let ghost full = render_from(t@, 0, violation@, contract@, union@);
    proof {
        reveal_strlit("{{");
        reveal_strlit("}}");
    }
    let open = chars_of("{{");
    let name_violation = chars_of("violation");
    let name_contract = chars_of("contract_id");
    let name_union = chars_of("union");
    let mut out = String::new();
    let mut i: usize = 0;
    while i < t.len()
        invariant
            i <= t@.len(),
            full == after(out@, render_from(t@, i as int, violation@, contract@, union@)),
        decreases t@.len() - i,
    {
        if crate::text::chars_occur_at(t, open.as_slice(), i) {
            let j = find_close(t, i + 2);
            proof {
                lemma_close_from_ge(t@, i + 2);
            }
            if j >= t.len() {
                return Err(String::from_str("unclosed placeholder"));
            }
            let name = crate::a2ml::chars_range(t, i + 2, j);
            let ghost nv = t@.subrange(i + 2, j as int);
            let value: &str = if chars_eq(name.as_slice(), name_violation.as_slice()) {
                violation
            } else if chars_eq(name.as_slice(), name_contract.as_slice()) {
                contract
            } else if chars_eq(name.as_slice(), name_union.as_slice()) {
                union
            } else {
                let mut m = String::from_str("unknown placeholder: ");
                m.append(string_from(name.as_slice()).as_str());
                return Err(m);
            };
            assert(placeholder_value(nv, violation@, contract@, union@) == Some(value@));
            let ghost before = out@;
            out.append(value);
            assert(after(before, render_from(t@, i as int, violation@, contract@, union@)) == after(out@, render_from(t@, j + 2, violation@, contract@, union@))) by {
                match render_from(t@, j + 2, violation@, contract@, union@) {
                    Ok(rest) => {
                        assert(before + (value@ + rest) =~= out@ + rest);
                    },
                    Err(e) => {},
                }
            }
            i = j + 2;
        } else {
            let ghost before = out@;
            let c = t[i];
            crate::text::push_char(&mut out, c);
            assert(after(before, render_from(t@, i as int, violation@, contract@, union@)) == after(out@, render_from(t@, i + 1, violation@, contract@, union@))) by {
                match render_from(t@, i + 1, violation@, contract@, union@) {
                    Ok(rest) => {
                        assert(before + (seq![c] + rest) =~= out@ + rest);
                    },
                    Err(e) => {},
                }
            }
            i = i + 1;
        }
    }
    assert(out@ + Seq::<char>::empty() =~= out@);
    Ok(out)
}

impl GrievanceGenerator {
    /// A grievance letter for one `violation`, with `{{violation}}`,
    /// `{{contract_id}}` and `{{union}}` filled in; a malformed template
    /// (an unclosed or unknown placeholder) is a template error.
    pub fn generate(&self, violation: &str, validation_report: &ValidationReport) -> (r: Result<String, PolicyError>)
        ensures
            match grievance_spec(*self, violation@, *validation_report) {
                Ok(s) => r matches Ok(x) && x@ == s,
                Err(e) => r matches Err(PolicyError::TemplateError(x)) && x@ == e,
            },
    {
        let t = match &self.template {
            Some(s) => chars_of(s.as_str()),
            None => chars_of("# GRIEVANCE LETTER\n\nUnion: {{union}}\nContract: {{contract_id}}\n\nWe raise a formal grievance concerning: {{violation}}\n"),
        };
        let u: &str = match &self.union {
            Some(s) => s.as_str(),
            None => "",
        };
        proof {
            reveal_strlit("");
        }
        assert(t@ == (match self.template { Some(s) => s@, None => default_template() }));
        assert(u@ == (match self.union { Some(s) => s@, None => Seq::<char>::empty() }));
        match render(t.as_slice(), violation, validation_report.contract_path.as_str(), u) {
            Ok(s) => Ok(s),
            Err(e) => Err(PolicyError::TemplateError(e)),
        }
    }
}

proof fn lemma_missing_empty_iff(have: Seq<Seq<char>>, clauses: Seq<Seq<char>>)
    ensures
        missing_errors(have, clauses).len() == 0 <==> (forall|k: int|
            0 <= k < clauses.len() ==> have.contains(#[trigger] clauses[k])),
    decreases clauses.len(),
{
    if clauses.len() > 0 {
        lemma_missing_empty_iff(have, clauses.drop_last());
        if missing_errors(have, clauses).len() == 0 {
            assert forall|k: int| 0 <= k < clauses.len() implies have.contains(#[trigger] clauses[k]) by {
                if k < clauses.len() - 1 {
                    assert(clauses.drop_last()[k] == clauses[k]);
                }
            }
        } else if forall|k: int| 0 <= k < clauses.len() ==> have.contains(#[trigger] clauses[k]) {
            assert forall|k: int| 0 <= k < clauses.drop_last().len() implies have.contains(#[trigger] clauses.drop_last()[k]) by {
                assert(clauses.drop_last()[k] == clauses[k]);
            }
            assert(have.contains(clauses[clauses.len() - 1]));
        }
    }
}

/// In checked mode a contract is valid exactly when it attests every
/// clause the schema requires; in lax mode every contract is valid.
pub proof fn lemma_checked_valid_iff_attested(doc: A2mlDocument, clauses: Seq<Seq<char>>)
    ensures
        validate_spec(ValidationMode::Checked, doc, clauses).valid <==> (forall|k: int|
            0 <= k < clauses.len() ==> doc@.requirements.contains(#[trigger] clauses[k])),
        validate_spec(ValidationMode::Lax, doc, clauses).valid,
{
    lemma_missing_empty_iff(doc@.requirements, clauses);
}

/// The patterns that occur in a contract text, in order.
pub open spec fn red_flags_spec(text: Seq<char>, patterns: Seq<Seq<char>>) -> Seq<Seq<char>>
    decreases patterns.len(),
{
    if patterns.len() == 0 {
        Seq::empty()
    } else {
        let r = red_flags_spec(text, patterns.drop_last());
        if crate::text::seq_contains(text, patterns.last()) {
            r.push(patterns.last())
        } else {
            r
        }
    }
}

/// The red-flag patterns found in a contract text, in the order given.
pub fn red_flags_in(text: &str, patterns: &[String]) -> (r: Vec<String>)
    ensures
        r@.map_values(|s: String| s@) == red_flags_spec(text@, patterns@.map_values(|s: String| s@)),
{
    let ghost ps = patterns@.map_values(|s: String| s@);
    let hay = chars_of(text);
    let mut out: Vec<String> = Vec::new();
    let mut i: usize = 0;
    assert(ps.subrange(0, 0) =~= Seq::<Seq<char>>::empty());
    assert(out@.map_values(|s: String| s@) =~= Seq::<Seq<char>>::empty());
    while i < patterns.len()
        invariant
            i <= patterns@.len(),
            hay@ == text@,
            ps == patterns@.map_values(|s: String| s@),
            out@.map_values(|s: String| s@) == red_flags_spec(text@, ps.subrange(0, i as int)),
        decreases patterns@.len() - i,
    {
        let pat = chars_of(patterns[i].as_str());
        let ghost before = out@;
        if crate::text::chars_contain(hay.as_slice(), pat.as_slice()) {
            out.push(string_from(pat.as_slice()));
            assert(out@.map_values(|s: String| s@) =~= before.map_values(|s: String| s@).push(ps[i as int]));
        }
        assert(ps.subrange(0, i + 1).drop_last() =~= ps.subrange(0, i as int));
        assert(ps.subrange(0, i + 1).last() == ps[i as int]);
        i = i + 1;
    }
    assert(ps.subrange(0, ps.len() as int) =~= ps);
    out
}

} // verus!

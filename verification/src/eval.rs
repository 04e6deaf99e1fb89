//! Policy evaluation: a pure, total function from a policy and a fact set
//! to an evaluation. Findings come in effective-rule order, and for each
//! rule in the order of its subject's instances.
use vstd::prelude::*;
use crate::ast::{ActionKind, Condition, Modality, Overlay, OverlayEffect, Policy, Resource, Rule, Subject};
use crate::catalog::{char_rows, lemma_split_nonempty, split_chars, split_on};
use crate::facts::{FactSet, header_lookup, metadata_lookup, opt_clone, opt_text, texts};
use crate::finding::{Evaluation, Finding, FindingStatus, FindingView, Severity, Summary, finding_views, opt_view};
use crate::spdx::{expr_same, parse_spdx_expr, parse_spec};
use crate::text::{chars_eq, chars_of, debug_str, digits_value, has_prefix, is_ascii_digit, str_debug_text, str_eq, str_starts_with, trim, trim_chars};

verus! {

/// Name for the outcome of compiling a glob pattern with the `glob` crate
/// and matching a path against it: `None` when the pattern is malformed.
pub uninterp spec fn glob_result(pattern: Seq<char>, path: Seq<char>) -> Option<bool>;

/// `glob::Pattern::new(pattern)`, then `Pattern::matches(path)` with the
/// default match options. The contract names the outcome; it claims
/// nothing of glob syntax.
#[verifier::external_body]
pub(crate) fn glob_match(pattern: &str, path: &str) -> (r: Option<bool>)
    ensures
        r == glob_result(pattern@, path@),
{
    glob::Pattern::new(pattern).ok().map(|p| p.matches(path))
}

/// Glob matching over `/`-separated paths, where a leading `**/` may also
/// match zero directories; a malformed pattern matches nothing.
pub open spec fn glob_matches_spec(pattern: Seq<char>, path: Seq<char>) -> bool {
    match glob_result(pattern, path) {
        None => false,
        Some(true) => true,
        Some(false) => if has_prefix(pattern, "**/"@) {
            match glob_result(pattern.subrange(3, pattern.len() as int), path) {
                Some(b) => b,
                None => false,
            }
        } else {
            false
        },
    }
}

/// Does the glob `pattern` match `path`?
pub fn glob_matches(pattern: &str, path: &str) -> (r: bool)
    ensures
        r == glob_matches_spec(pattern@, path@),
{
    match glob_match(pattern, path) {
        None => false,
        Some(true) => true,
        Some(false) => {
            proof {
                reveal_strlit("**/");
            }
            if str_starts_with(pattern, "**/") {
                let chars = chars_of(pattern);
                let rest = crate::text::string_from_range(chars.as_slice(), 3, chars.len());
                match glob_match(rest.as_str(), path) {
                    Some(b) => b,
                    None => false,
                }
            } else {
                false
            }
        },
    }
}

/// A concrete instance a rule is checked against.
#[derive(Debug, Clone, PartialEq, Eq)]
pub enum Instance {
    Repo,
    Path(String),
    Metadata(String),
}

/// Mathematical model of an [`Instance`].
pub enum InstanceView {
    Repo,
    Path(Seq<char>),
    Metadata(Seq<char>),
}

impl View for Instance {
    type V = InstanceView;

    open spec fn view(&self) -> InstanceView {
        match self {
            Instance::Repo => InstanceView::Repo,
            Instance::Path(p) => InstanceView::Path(p@),
            Instance::Metadata(k) => InstanceView::Metadata(k@),
        }
    }
}

/// `repo`, the path, or `metadata:<key>`.
pub open spec fn label_spec(i: InstanceView) -> Seq<char> {
    match i {
        InstanceView::Repo => "repo"@,
        InstanceView::Path(p) => p,
        InstanceView::Metadata(k) => "metadata:"@ + k,
    }
}

impl Instance {
    /// The subject text of a finding for this instance.
    pub fn label(&self) -> (s: String)
        ensures
            s@ == label_spec(self@),
    {
        match self {
            Instance::Repo => String::from_str("repo"),
            Instance::Path(p) => p.clone(),
            Instance::Metadata(k) => {
                let mut s = String::from_str("metadata:");
                s.append(k.as_str());
                s
            },
        }
    }
}

/// Some pattern matches the file.
pub open spec fn any_pattern(patterns: Seq<String>, file: Seq<char>) -> bool {
    exists|k: int| 0 <= k < patterns.len() && glob_matches_spec(#[trigger] patterns[k]@, file)
}

/// Some file matches the pattern.
pub open spec fn any_file(files: Seq<String>, pattern: Seq<char>) -> bool {
    exists|k: int| 0 <= k < files.len() && glob_matches_spec(pattern, #[trigger] files[k]@)
}

/// The files matching one of the patterns, in order, as path instances.
pub open spec fn pattern_instances(files: Seq<String>, patterns: Seq<String>) -> Seq<InstanceView>
    decreases files.len(),
{
    if files.len() == 0 {
        seq![]
    } else {
        let rest = pattern_instances(files.drop_last(), patterns);
        if any_pattern(patterns, files.last()@) {
            rest.push(InstanceView::Path(files.last()@))
        } else {
            rest
        }
    }
}

/// The concrete instances of a subject.
pub open spec fn expand_spec(subject: Subject, facts: FactSet) -> Seq<InstanceView> {
    match subject {
        Subject::Repo => seq![InstanceView::Repo],
        Subject::File { path } => seq![InstanceView::Path(path@)],
        Subject::FilePattern { patterns } => pattern_instances(facts.files@, patterns@),
        Subject::Metadata { key } => seq![InstanceView::Metadata(key@)],
        Subject::Release { .. } => seq![],
    }
}

fn any_pattern_matches(patterns: &Vec<String>, file: &str) -> (r: bool)
    ensures
        r == any_pattern(patterns@, file@),
{
    let mut k: usize = 0;
    while k < patterns.len()
        invariant
            k <= patterns@.len(),
            forall|j: int| 0 <= j < k ==> !glob_matches_spec(#[trigger] patterns@[j]@, file@),
        decreases patterns@.len() - k,
    {
        if glob_matches(patterns[k].as_str(), file) {
            return true;
        }
        k = k + 1;
    }
    false
}

fn any_file_matches(files: &Vec<String>, pattern: &str) -> (r: bool)
    ensures
        r == any_file(files@, pattern@),
{
    let mut k: usize = 0;
    while k < files.len()
        invariant
            k <= files@.len(),
            forall|j: int| 0 <= j < k ==> !glob_matches_spec(pattern@, #[trigger] files@[j]@),
        decreases files@.len() - k,
    {
        if glob_matches(pattern, files[k].as_str()) {
            return true;
        }
        k = k + 1;
    }
    false
}

/// The views of a sequence of instances.
pub open spec fn instance_views(v: Seq<Instance>) -> Seq<InstanceView> {
    v.map_values(|i: Instance| i@)
}

/// Expand a subject to its concrete instances.
pub fn expand_subject(subject: &Subject, facts: &FactSet) -> (r: Vec<Instance>)
    ensures
        instance_views(r@) == expand_spec(*subject, *facts),
{
    match subject {
        Subject::Repo => {
            let r = vec![Instance::Repo];
            assert(instance_views(r@) =~= seq![InstanceView::Repo]);
            r
        },
        Subject::File { path } => {
            let r = vec![Instance::Path(path.clone())];
            assert(instance_views(r@) =~= seq![InstanceView::Path(path@)]);
            r
        },
        Subject::FilePattern { patterns } => {
            let mut r: Vec<Instance> = Vec::new();
            let mut i: usize = 0;
            while i < facts.files.len()
                invariant
                    i <= facts.files@.len(),
                    instance_views(r@) == pattern_instances(
                        facts.files@.subrange(0, i as int),
                        patterns@,
                    ),
                decreases facts.files@.len() - i,
            {
                let ghost pre = facts.files@.subrange(0, i + 1);
                assert(pre.drop_last() =~= facts.files@.subrange(0, i as int));
                if any_pattern_matches(patterns, facts.files[i].as_str()) {
                    r.push(Instance::Path(facts.files[i].clone()));
                    assert(instance_views(r@) =~= pattern_instances(pre, patterns@));
                }
                i = i + 1;
            }
            assert(facts.files@.subrange(0, facts.files@.len() as int) =~= facts.files@);
            r
        },
        Subject::Metadata { key } => {
            let r = vec![Instance::Metadata(key.clone())];
            assert(instance_views(r@) =~= seq![InstanceView::Metadata(key@)]);
            r
        },
        Subject::Release { .. } => {
            let r: Vec<Instance> = Vec::new();
            assert(instance_views(r@) =~= Seq::<InstanceView>::empty());
            r
        },
    }
}

/// The leading ASCII digits of a text.
pub open spec fn leading_digits(p: Seq<char>) -> Seq<char>
    decreases p.len(),
{
    if p.len() > 0 && is_ascii_digit(p[0]) {
        seq![p[0]] + leading_digits(p.drop_first())
    } else {
        seq![]
    }
}

/// The numeric components of a dotted version: the leading digits of each
/// `.`-piece, up to the first piece without any (or whose value exceeds
/// `u64`).
pub open spec fn components(parts: Seq<Seq<char>>) -> Seq<u64>
    decreases parts.len(),
{
    if parts.len() == 0 {
        seq![]
    } else {
        let d = leading_digits(parts[0]);
        if d.len() > 0 && digits_value(d) <= u64::MAX {
            seq![digits_value(d) as u64] + components(parts.drop_first())
        } else {
            seq![]
        }
    }
}

/// The components of a trimmed version text; `None` when there are none.
pub open spec fn version_parts(s: Seq<char>) -> Option<Seq<u64>> {
    let c = components(split_on(trim(s), '.'));
    if c.len() == 0 {
        None
    } else {
        Some(c)
    }
}

/// Component `i`, or 0 when missing.
pub open spec fn component_at(c: Seq<u64>, i: int) -> u64 {
    if 0 <= i < c.len() {
        c[i]
    } else {
        0
    }
}

/// `a >= m` on components from `i` on, missing components counting as 0.
pub open spec fn at_least_from(a: Seq<u64>, m: Seq<u64>, i: nat, len: nat) -> bool
    decreases len - i,
{
    if i >= len {
        true
    } else if component_at(a, i as int) != component_at(m, i as int) {
        component_at(a, i as int) > component_at(m, i as int)
    } else {
        at_least_from(a, m, i + 1, len)
    }
}

/// `Some(actual >= minimum)`, or `None` when either side has no leading
/// numeric component.
pub open spec fn compare_versions_spec(actual: Seq<char>, minimum: Seq<char>) -> Option<bool> {
    match (version_parts(actual), version_parts(minimum)) {
        (Some(a), Some(m)) => Some(
            at_least_from(a, m, 0, if a.len() >= m.len() { a.len() } else { m.len() }),
        ),
        _ => None,
    }
}

fn leading_value(p: &Vec<char>) -> (r: Option<u64>)
    ensures
        ({
            let d = leading_digits(p@);
            r == (if d.len() > 0 && digits_value(d) <= u64::MAX {
                Some(digits_value(d) as u64)
            } else {
                None::<u64>
            })
        }),
{
    let mut i: usize = 0;
    let mut value: u64 = 0;
    let mut overflow = false;
    proof {
        lemma_leading_digits(p@, 0);
    }
    while i < p.len() && '0' <= p[i] && p[i] <= '9'
        invariant
            i <= p@.len(),
            leading_digits(p@) == p@.subrange(0, i as int) + leading_digits(p@.subrange(i as int, p@.len() as int)),
            forall|k: int| 0 <= k < i ==> is_ascii_digit(#[trigger] p@[k]),
            overflow <==> digits_value(p@.subrange(0, i as int)) > u64::MAX,
            !overflow ==> value == digits_value(p@.subrange(0, i as int)),
        decreases p@.len() - i,
    {
        let c = p[i];
        let ghost rest = p@.subrange(i as int, p@.len() as int);
        assert(rest[0] == c);
        assert(rest.drop_first() =~= p@.subrange(i + 1, p@.len() as int));
        assert(p@.subrange(0, i as int) + seq![c] =~= p@.subrange(0, i + 1));
        assert(p@.subrange(0, i + 1).drop_last() =~= p@.subrange(0, i as int));
        if !overflow {
            let d: u64 = (c as u32 - '0' as u32) as u64;
            if value > (0xffff_ffff_ffff_ffffu64 - d) / 10 {
                overflow = true;
            } else {
                value = value * 10 + d;
            }
        }
        i = i + 1;
    }
    proof {
        let rest = p@.subrange(i as int, p@.len() as int);
        if i < p@.len() {
            assert(rest[0] == p@[i as int]);
        }
        assert(leading_digits(rest) =~= Seq::<char>::empty());
        assert(leading_digits(p@) =~= p@.subrange(0, i as int));
    }
    if i == 0 || overflow {
        None
    } else {
        Some(value)
    }
}

proof fn lemma_leading_digits(p: Seq<char>, i: int)
    requires
        i == 0,
    ensures
        leading_digits(p) == p.subrange(0, 0) + leading_digits(p.subrange(0, p.len() as int)),
{
    assert(p.subrange(0, p.len() as int) =~= p);
    assert(p.subrange(0, 0) + leading_digits(p) =~= leading_digits(p));
}

fn version_components(s: &str) -> (r: Option<Vec<u64>>)
    ensures
        match r {
            Some(v) => version_parts(s@) == Some(v@),
            None => version_parts(s@) is None,
        },
{
    let chars = chars_of(s);
    let t = trim_chars(chars.as_slice());
    let parts = split_chars(t.as_slice(), '.');
    let ghost rows = char_rows(parts@);
    let mut out: Vec<u64> = Vec::new();
    let mut i: usize = 0;
    let mut done = false;
    assert(rows.subrange(0, rows.len() as int) =~= rows);
    while i < parts.len() && !done
        invariant
            i <= parts@.len(),
            done ==> components(rows) == out@,
            rows == char_rows(parts@),
            rows == split_on(trim(s@), '.'),
            components(rows) == out@ + components(rows.subrange(i as int, rows.len() as int)),
        decreases parts@.len() - i + (if done { 0int } else { 1int }),
    {
        let ghost rest = rows.subrange(i as int, rows.len() as int);
        assert(rest[0] == parts@[i as int]@);
        assert(rest.drop_first() =~= rows.subrange(i + 1, rows.len() as int));
        match leading_value(&parts[i]) {
            Some(v) => {
                let ghost before = out@;
                out.push(v);
                assert(components(rows) =~= out@ + components(rows.subrange(i + 1, rows.len() as int)));
            },
            None => {
                assert(components(rows) =~= out@);
                done = true;
            },
        }
        if !done {
            i = i + 1;
        }
    }
    proof {
        if !done {
            assert(components(rows.subrange(i as int, rows.len() as int)) =~= Seq::<u64>::empty());
            assert(components(rows) =~= out@);
        }
    }
    if out.len() == 0 {
        None
    } else {
        Some(out)
    }
}

/// Numeric dotted-version comparison: `Some(actual >= minimum)`, `None`
/// when either side has no leading numeric component.
#[verifier::loop_isolation(false)]
pub fn compare_versions(actual: &str, minimum: &str) -> (r: Option<bool>)
    ensures
        r == compare_versions_spec(actual@, minimum@),
{
    let a = match version_components(actual) {
        Some(a) => a,
        None => return None,
    };
    let m = match version_components(minimum) {
        Some(m) => m,
        None => return None,
    };
    let len = if a.len() >= m.len() {
        a.len()
    } else {
        m.len()
    };
    let mut i: usize = 0;
    while i < len
        invariant
            i <= len,
            len == (if a@.len() >= m@.len() { a@.len() } else { m@.len() }),
            at_least_from(a@, m@, 0, len as nat) == at_least_from(a@, m@, i as nat, len as nat),
        decreases len - i,
    {
        let av = if i < a.len() {
            a[i]
        } else {
            0
        };
        let mv = if i < m.len() {
            m[i]
        } else {
            0
        };
        if av != mv {
            return Some(av > mv);
        }
        i = i + 1;
    }
    Some(true)
}

/// Two SPDX expressions are equal when both parse to the same expression;
/// otherwise their trimmed texts are compared.
pub open spec fn spdx_equal_spec(actual: Seq<char>, expected: Seq<char>) -> bool {
    match (parse_spec(actual), parse_spec(expected)) {
        (Ok(a), Ok(b)) => a == b,
        _ => trim(actual) == trim(expected),
    }
}

fn spdx_equal(actual: &str, expected: &str) -> (r: bool)
    ensures
        r == spdx_equal_spec(actual@, expected@),
{
    match (parse_spdx_expr(actual), parse_spdx_expr(expected)) {
        (Ok(a), Ok(b)) => expr_same(&a, &b),
        _ => {
            let x = chars_of(actual);
            let y = chars_of(expected);
            let tx = trim_chars(x.as_slice());
            let ty = trim_chars(y.as_slice());
            chars_eq(tx.as_slice(), ty.as_slice())
        },
    }
}

/// The subject file has an SPDX header.
pub open spec fn has_header(inst: InstanceView, facts: FactSet) -> bool {
    match inst {
        InstanceView::Path(p) => header_lookup(facts.spdx_headers@, p) matches Some(Some(_)),
        _ => false,
    }
}

/// Condition semantics over (facts, instance).
pub open spec fn cond_holds(c: Condition, inst: InstanceView, facts: FactSet) -> bool
    decreases c,
{
    match c {
        Condition::True => true,
        Condition::Not { of } => !cond_holds(*of, inst, facts),
        Condition::All { of } => all_hold(of@, inst, facts),
        Condition::Any { of } => any_holds(of@, inst, facts),
        Condition::RepoHasFile { path } => any_file(facts.files@, path@),
        Condition::HasSpdxHeader => has_header(inst, facts),
        Condition::SpdxLicenseIs { expr } => match inst {
            InstanceView::Path(p) => match header_lookup(facts.spdx_headers@, p) {
                Some(Some(raw)) => spdx_equal_spec(raw, expr@),
                _ => false,
            },
            _ => false,
        },
        Condition::GovernanceFlagSet { key, value } => metadata_lookup(facts.metadata@, key@)
            == Some(value@),
        Condition::VersionAtLeast { version } => match metadata_lookup(
            facts.metadata@,
            "version"@,
        ) {
            Some(actual) => compare_versions_spec(actual, version@) == Some(true),
            None => false,
        },
        Condition::FileMatchesPattern { .. } => false,
    }
}

/// Every condition of the sequence holds.
pub open spec fn all_hold(cs: Seq<Condition>, inst: InstanceView, facts: FactSet) -> bool
    decreases cs,
{
    if cs.len() == 0 {
        true
    } else {
        cond_holds(cs[0], inst, facts) && all_hold(cs.drop_first(), inst, facts)
    }
}

/// Some condition of the sequence holds.
pub open spec fn any_holds(cs: Seq<Condition>, inst: InstanceView, facts: FactSet) -> bool
    decreases cs,
{
    if cs.len() == 0 {
        false
    } else {
        cond_holds(cs[0], inst, facts) || any_holds(cs.drop_first(), inst, facts)
    }
}

fn header_present(inst: &Instance, facts: &FactSet) -> (r: bool)
    ensures
        r == has_header(inst@, *facts),
{
    match inst {
        Instance::Path(p) => match facts.header_of(p.as_str()) {
            Some(Some(_)) => true,
            _ => false,
        },
        _ => false,
    }
}

/// Evaluate a condition for an instance.
#[verifier::loop_isolation(false)]
pub fn eval_condition(condition: &Condition, instance: &Instance, facts: &FactSet) -> (r: bool)
    ensures
        r == cond_holds(*condition, instance@, *facts),
    decreases condition,
{
    match condition {
        Condition::True => true,
        Condition::Not { of } => !eval_condition(of, instance, facts),
        Condition::All { of } => {
            let mut i: usize = 0;
            assert(of@.subrange(0, of@.len() as int) =~= of@);
            while i < of.len()
                invariant
                    i <= of@.len(),
                    all_hold(of@, instance@, *facts) == all_hold(
                        of@.subrange(i as int, of@.len() as int),
                        instance@,
                        *facts,
                    ),
                decreases of@.len() - i,
            {
                let ghost rest = of@.subrange(i as int, of@.len() as int);
                assert(rest[0] == of@[i as int]);
                assert(rest.drop_first() =~= of@.subrange(i + 1, of@.len() as int));
                if !eval_condition(&of[i], instance, facts) {
                    return false;
                }
                i = i + 1;
            }
            true
        },
        Condition::Any { of } => {
            let mut i: usize = 0;
            assert(of@.subrange(0, of@.len() as int) =~= of@);
            while i < of.len()
                invariant
                    i <= of@.len(),
                    any_holds(of@, instance@, *facts) == any_holds(
                        of@.subrange(i as int, of@.len() as int),
                        instance@,
                        *facts,
                    ),
                decreases of@.len() - i,
            {
                let ghost rest = of@.subrange(i as int, of@.len() as int);
                assert(rest[0] == of@[i as int]);
                assert(rest.drop_first() =~= of@.subrange(i + 1, of@.len() as int));
                if eval_condition(&of[i], instance, facts) {
                    return true;
                }
                i = i + 1;
            }
            false
        },
        Condition::RepoHasFile { path } => any_file_matches(&facts.files, path.as_str()),
        Condition::HasSpdxHeader => header_present(instance, facts),
        Condition::SpdxLicenseIs { expr } => match instance {
            Instance::Path(p) => match facts.header_of(p.as_str()) {
                Some(Some(raw)) => spdx_equal(raw.as_str(), expr.as_str()),
                _ => false,
            },
            _ => false,
        },
        Condition::GovernanceFlagSet { key, value } => match facts.metadata_value(key.as_str()) {
            Some(v) => str_eq(v.as_str(), value.as_str()),
            None => false,
        },
        Condition::VersionAtLeast { version } => match facts.metadata_value("version") {
            Some(actual) => match compare_versions(actual.as_str(), version.as_str()) {
                Some(b) => b,
                None => false,
            },
            None => false,
        },
        Condition::FileMatchesPattern { .. } => false,
    }
}

/// Does the resource exist for the instance?
pub open spec fn exists_spec(resource: Resource, inst: InstanceView, facts: FactSet) -> bool {
    match resource {
        Resource::File { path } => any_file(facts.files@, path@),
        Resource::Manifest { path } => any_file(facts.files@, path@),
        Resource::Header => has_header(inst, facts),
        Resource::GovernanceField { key } => metadata_lookup(facts.metadata@, key@) is Some,
        Resource::Release => false,
    }
}

/// Is the resource structurally valid for the instance? For a header:
/// it parses as an SPDX expression; otherwise validity is existence.
pub open spec fn valid_spec(resource: Resource, inst: InstanceView, facts: FactSet) -> bool {
    match resource {
        Resource::Header => match inst {
            InstanceView::Path(p) => match header_lookup(facts.spdx_headers@, p) {
                Some(Some(raw)) => parse_spec(raw) is Ok,
                _ => false,
            },
            _ => false,
        },
        _ => exists_spec(resource, inst, facts),
    }
}

/// A valid resource exists.
pub proof fn lemma_valid_implies_exists(resource: Resource, inst: InstanceView, facts: FactSet)
    ensures
        valid_spec(resource, inst, facts) ==> exists_spec(resource, inst, facts),
{
}

fn resource_exists(resource: &Resource, instance: &Instance, facts: &FactSet) -> (r: bool)
    ensures
        r == exists_spec(*resource, instance@, *facts),
{
    match resource {
        Resource::File { path } => any_file_matches(&facts.files, path.as_str()),
        Resource::Manifest { path } => any_file_matches(&facts.files, path.as_str()),
        Resource::Header => header_present(instance, facts),
        Resource::GovernanceField { key } => facts.metadata_value(key.as_str()).is_some(),
        Resource::Release => false,
    }
}

fn resource_valid(resource: &Resource, instance: &Instance, facts: &FactSet) -> (r: bool)
    ensures
        r == valid_spec(*resource, instance@, *facts),
{
    match resource {
        Resource::Header => match instance {
            Instance::Path(p) => match facts.header_of(p.as_str()) {
                Some(Some(raw)) => parse_spdx_expr(raw.as_str()).is_ok(),
                _ => false,
            },
            _ => false,
        },
        _ => resource_exists(resource, instance, facts),
    }
}

/// How a resource is named in finding messages.
pub open spec fn describe_spec(resource: Resource) -> Seq<char> {
    match resource {
        Resource::File { path } => "file "@ + str_debug_text(path@),
        Resource::Header => "SPDX header"@,
        Resource::Manifest { path } => "manifest "@ + str_debug_text(path@),
        Resource::GovernanceField { key } => "governance field "@ + str_debug_text(key@),
        Resource::Release => "release"@,
    }
}

fn describe_resource(resource: &Resource) -> (s: String)
    ensures
        s@ == describe_spec(*resource),
{
    match resource {
        Resource::File { path } => {
            let mut s = String::from_str("file ");
            let d = debug_str(path.as_str());
            s.append(d.as_str());
            s
        },
        Resource::Header => String::from_str("SPDX header"),
        Resource::Manifest { path } => {
            let mut s = String::from_str("manifest ");
            let d = debug_str(path.as_str());
            s.append(d.as_str());
            s
        },
        Resource::GovernanceField { key } => {
            let mut s = String::from_str("governance field ");
            let d = debug_str(key.as_str());
            s.append(d.as_str());
            s
        },
        Resource::Release => String::from_str("release"),
    }
}

/// The deontic matrix: whether the (rule, instance) pair is violated, and
/// the message of its finding.
pub open spec fn verdict_spec(rule: Rule, inst: InstanceView, facts: FactSet) -> (bool, Seq<char>) {
    let exists = exists_spec(rule.resource, inst, facts);
    let valid = valid_spec(rule.resource, inst, facts);
    let d = describe_spec(rule.resource);
    let l = label_spec(inst);
    match (rule.modality, rule.action) {
        (Modality::Permission, _) => (false, d + " is permitted for "@ + l),
        (Modality::Obligation, ActionKind::Present) => if exists {
            (false, d + " present for "@ + l)
        } else {
            (true, d + " missing for "@ + l)
        },
        (Modality::Obligation, ActionKind::Absent) => if exists {
            (true, d + " present for "@ + l + " but must be absent"@)
        } else {
            (false, d + " absent for "@ + l)
        },
        (Modality::Obligation, ActionKind::Valid) => if valid {
            (false, d + " valid for "@ + l)
        } else {
            (true, d + " invalid for "@ + l)
        },
        (Modality::Prohibition, ActionKind::Present) => if exists {
            (true, d + " present for "@ + l + " but is prohibited"@)
        } else {
            (false, d + " absent for "@ + l)
        },
        (Modality::Prohibition, ActionKind::Absent) => if exists {
            (false, d + " present for "@ + l)
        } else {
            (true, d + " absent for "@ + l + " but its absence is prohibited"@)
        },
        (Modality::Prohibition, ActionKind::Valid) => if valid {
            (true, d + " valid for "@ + l + " but validity is prohibited"@)
        } else {
            (false, d + " not valid for "@ + l)
        },
        (_, ActionKind::ConsistentWith { .. }) => (false, "consistency check skipped for "@ + l),
    }
}

/// The finding of a rule (with its origin overlay, if any) at an instance.
pub open spec fn check_spec(rule: Rule, origin: Option<Seq<char>>, inst: InstanceView, facts: FactSet) -> FindingView {
    let (violated, message) = verdict_spec(rule, inst, facts);
    FindingView {
        rule_id: rule.id@,
        modality: rule.modality,
        severity: rule.severity,
        subject: label_spec(inst),
        message,
        rationale: opt_view(rule.rationale),
        source: match opt_view(rule.source) {
            Some(s) => Some(s),
            None => match origin {
                Some(o) => Some("overlay:"@ + o),
                None => None,
            },
        },
        status: if violated {
            FindingStatus::Violation
        } else {
            FindingStatus::Pass
        },
    }
}

fn text3(a: &String, b: &str, c: &String) -> (s: String)
    ensures
        s@ == a@ + b@ + c@,
{
    let mut s = a.clone();
    s.append(b);
    s.append(c.as_str());
    s
}

fn text4(a: &String, b: &str, c: &String, d: &str) -> (s: String)
    ensures
        s@ == a@ + b@ + c@ + d@,
{
    let mut s = text3(a, b, c);
    s.append(d);
    s
}

/// Apply the deontic matrix for one (rule, instance) pair.
pub fn check_rule(rule: &Rule, origin: Option<&str>, instance: &Instance, facts: &FactSet) -> (f: Finding)
    ensures
        f@ == check_spec(*rule, match origin {
            Some(o) => Some(o@),
            None => None,
        }, instance@, *facts),
{
    let exists = resource_exists(&rule.resource, instance, facts);
    let d = describe_resource(&rule.resource);
    let l = instance.label();
    let (violated, message) = match (&rule.modality, &rule.action) {
        (Modality::Permission, _) => (false, text3(&d, " is permitted for ", &l)),
        (Modality::Obligation, ActionKind::Present) => if exists {
            (false, text3(&d, " present for ", &l))
        } else {
            (true, text3(&d, " missing for ", &l))
        },
        (Modality::Obligation, ActionKind::Absent) => if exists {
            (true, text4(&d, " present for ", &l, " but must be absent"))
        } else {
            (false, text3(&d, " absent for ", &l))
        },
        (Modality::Obligation, ActionKind::Valid) => {
            let valid = resource_valid(&rule.resource, instance, facts);
            if valid {
                (false, text3(&d, " valid for ", &l))
            } else {
                (true, text3(&d, " invalid for ", &l))
            }
        },
        (Modality::Prohibition, ActionKind::Present) => if exists {
            (true, text4(&d, " present for ", &l, " but is prohibited"))
        } else {
            (false, text3(&d, " absent for ", &l))
        },
        (Modality::Prohibition, ActionKind::Absent) => if exists {
            (false, text3(&d, " present for ", &l))
        } else {
            (true, text4(&d, " absent for ", &l, " but its absence is prohibited"))
        },
        (Modality::Prohibition, ActionKind::Valid) => {
            let valid = resource_valid(&rule.resource, instance, facts);
            if valid {
                (true, text4(&d, " valid for ", &l, " but validity is prohibited"))
            } else {
                (false, text3(&d, " not valid for ", &l))
            }
        },
        (_, ActionKind::ConsistentWith { .. }) => {
            let mut s = String::from_str("consistency check skipped for ");
            s.append(l.as_str());
            (false, s)
        },
    };
    let source = match &rule.source {
        Some(s) => Some(s.clone()),
        None => match origin {
            Some(o) => {
                let mut s = String::from_str("overlay:");
                s.append(o);
                Some(s)
            },
            None => None,
        },
    };
    Finding {
        rule_id: rule.id.clone(),
        modality: rule.modality,
        severity: rule.severity,
        subject: l,
        message,
        rationale: opt_clone(&rule.rationale),
        source,
        status: if violated {
            FindingStatus::Violation
        } else {
            FindingStatus::Pass
        },
    }
}

/// The effect removes the rule with this id from the base set.
pub open spec fn effect_overrides(e: OverlayEffect, id: Seq<char>) -> bool {
    match e {
        OverlayEffect::OverrideRules { ids } => exists|k: int|
            0 <= k < ids@.len() && (#[trigger] ids@[k])@ == id,
        _ => false,
    }
}

/// Some effect of the overlay overrides the id.
pub open spec fn overlay_overrides(o: Overlay, id: Seq<char>) -> bool {
    exists|e: int| 0 <= e < o.effects@.len() && effect_overrides(#[trigger] o.effects@[e], id)
}

/// Some overlay of the policy overrides the id.
pub open spec fn overridden(policy: Policy, id: Seq<char>) -> bool {
    exists|o: int| 0 <= o < policy.overlays@.len() && overlay_overrides(#[trigger] policy.overlays@[o], id)
}

/// A rule of the effective set, with the overlay that added it.
pub type EffectiveRule = (Rule, Option<Seq<char>>);

/// The base rules that no overlay overrides, in order.
pub open spec fn base_effective(rules: Seq<Rule>, policy: Policy) -> Seq<EffectiveRule>
    decreases rules.len(),
{
    if rules.len() == 0 {
        seq![]
    } else {
        let rest = base_effective(rules.drop_last(), policy);
        if overridden(policy, rules.last().id@) {
            rest
        } else {
            rest.push((rules.last(), None))
        }
    }
}

/// The rules added by a sequence of effects of overlay `oid`.
pub open spec fn effects_added(es: Seq<OverlayEffect>, oid: Seq<char>) -> Seq<EffectiveRule>
    decreases es.len(),
{
    if es.len() == 0 {
        seq![]
    } else {
        effects_added(es.drop_last(), oid) + match es.last() {
            OverlayEffect::AddRules { rules } => rules@.map_values(|r: Rule| (r, Some(oid))),
            _ => seq![],
        }
    }
}

/// The rules added by a sequence of overlays, in order.
pub open spec fn overlays_added(os: Seq<Overlay>) -> Seq<EffectiveRule>
    decreases os.len(),
{
    if os.len() == 0 {
        seq![]
    } else {
        overlays_added(os.drop_last()) + effects_added(os.last().effects@, os.last().id@)
    }
}

/// The effective rule set: base rules minus overridden ones, then the
/// rules overlays add, each with its origin overlay.
pub open spec fn effective_spec(policy: Policy) -> Seq<EffectiveRule> {
    base_effective(policy.rules@, policy) + overlays_added(policy.overlays@)
}

/// The views of effective-rule references.
pub open spec fn eff_views(v: Seq<(&Rule, Option<&str>)>) -> Seq<EffectiveRule> {
    v.map_values(
        |p: (&Rule, Option<&str>)|
            (
                *p.0,
                match p.1 {
                    Some(s) => Some(s@),
                    None => None,
                },
            ),
    )
}

#[verifier::loop_isolation(false)]
fn effect_overrides_id(e: &OverlayEffect, id: &str) -> (r: bool)
    ensures
        r == effect_overrides(*e, id@),
{
    match e {
        OverlayEffect::OverrideRules { ids } => {
            let mut k: usize = 0;
            while k < ids.len()
                invariant
                    k <= ids@.len(),
                    forall|j: int| 0 <= j < k ==> (#[trigger] ids@[j])@ != id@,
                decreases ids@.len() - k,
            {
                if str_eq(ids[k].as_str(), id) {
                    assert((ids@[k as int])@ == id@);
                    return true;
                }
                k = k + 1;
            }
            false
        },
        _ => false,
    }
}

#[verifier::loop_isolation(false)]
fn is_overridden(policy: &Policy, id: &str) -> (r: bool)
    ensures
        r == overridden(*policy, id@),
{
    let mut o: usize = 0;
    while o < policy.overlays.len()
        invariant
            o <= policy.overlays@.len(),
            forall|j: int| 0 <= j < o ==> !overlay_overrides(#[trigger] policy.overlays@[j], id@),
        decreases policy.overlays@.len() - o,
    {
        let overlay = &policy.overlays[o];
        let mut e: usize = 0;
        while e < overlay.effects.len()
            invariant
                e <= overlay.effects@.len(),
                forall|j: int| 0 <= j < e ==> !effect_overrides(#[trigger] overlay.effects@[j], id@),
            decreases overlay.effects@.len() - e,
        {
            if effect_overrides_id(&overlay.effects[e], id) {
                assert(effect_overrides(overlay.effects@[e as int], id@));
                assert(overlay_overrides(policy.overlays@[o as int], id@));
                return true;
            }
            e = e + 1;
        }
        o = o + 1;
    }
    false
}

/// Base rules (minus overridden ones) followed by overlay-added rules, each
/// with its origin overlay id.
#[verifier::loop_isolation(false)]
pub fn effective_rules<'a>(policy: &'a Policy) -> (r: Vec<(&'a Rule, Option<&'a str>)>)
    ensures
        eff_views(r@) == effective_spec(*policy),
{
    let mut r: Vec<(&'a Rule, Option<&'a str>)> = Vec::new();
    let mut i: usize = 0;
    while i < policy.rules.len()
        invariant
            i <= policy.rules@.len(),
            eff_views(r@) == base_effective(policy.rules@.subrange(0, i as int), *policy),
        decreases policy.rules@.len() - i,
    {
        let ghost pre = policy.rules@.subrange(0, i + 1);
        assert(pre.drop_last() =~= policy.rules@.subrange(0, i as int));
        let rule = &policy.rules[i];
        if !is_overridden(policy, rule.id.as_str()) {
            r.push((rule, None));
            assert(eff_views(r@) =~= base_effective(pre, *policy));
        }
        i = i + 1;
    }
    assert(policy.rules@.subrange(0, policy.rules@.len() as int) =~= policy.rules@);
    let ghost base = eff_views(r@);
    let mut o: usize = 0;
    while o < policy.overlays.len()
        invariant
            o <= policy.overlays@.len(),
            base == base_effective(policy.rules@, *policy),
            eff_views(r@) == base + overlays_added(policy.overlays@.subrange(0, o as int)),
        decreases policy.overlays@.len() - o,
    {
        let overlay = &policy.overlays[o];
        let ghost before_o = eff_views(r@);
        let mut e: usize = 0;
        while e < overlay.effects.len()
            invariant
                e <= overlay.effects@.len(),
                eff_views(r@) == before_o + effects_added(
                    overlay.effects@.subrange(0, e as int),
                    overlay.id@,
                ),
            decreases overlay.effects@.len() - e,
        {
            let ghost pre_e = overlay.effects@.subrange(0, e + 1);
            assert(pre_e.drop_last() =~= overlay.effects@.subrange(0, e as int));
            let ghost before_e = eff_views(r@);
            match &overlay.effects[e] {
                OverlayEffect::AddRules { rules } => {
                    let mut k: usize = 0;
                    while k < rules.len()
                        invariant
                            k <= rules@.len(),
                            eff_views(r@) == before_e + rules@.subrange(0, k as int).map_values(
                                |x: Rule| (x, Some(overlay.id@)),
                            ),
                        decreases rules@.len() - k,
                    {
                        let ghost old_r = r@;
                        r.push((&rules[k], Some(overlay.id.as_str())));
                        assert(eff_views(r@) =~= eff_views(old_r).push((rules@[k as int], Some(overlay.id@))));
                        assert(rules@.subrange(0, k + 1).map_values(|x: Rule| (x, Some(overlay.id@)))
                            =~= rules@.subrange(0, k as int).map_values(
                            |x: Rule| (x, Some(overlay.id@)),
                        ).push((rules@[k as int], Some(overlay.id@))));
                        assert(eff_views(r@) =~= before_e + rules@.subrange(0, k + 1).map_values(
                            |x: Rule| (x, Some(overlay.id@)),
                        ));
                        k = k + 1;
                    }
                    assert(rules@.subrange(0, rules@.len() as int) =~= rules@);
                    assert(eff_views(r@) =~= before_o + effects_added(pre_e, overlay.id@));
                },
                _ => {
                    assert(eff_views(r@) =~= before_o + effects_added(pre_e, overlay.id@));
                },
            }
            e = e + 1;
        }
        assert(overlay.effects@.subrange(0, overlay.effects@.len() as int) =~= overlay.effects@);
        let ghost pre_o = policy.overlays@.subrange(0, o + 1);
        assert(pre_o.drop_last() =~= policy.overlays@.subrange(0, o as int));
        assert(eff_views(r@) =~= base + overlays_added(pre_o));
        o = o + 1;
    }
    assert(policy.overlays@.subrange(0, policy.overlays@.len() as int) =~= policy.overlays@);
    r
}

/// The findings of one rule over instances: one per instance whose
/// condition holds.
pub open spec fn instance_findings(
    rule: Rule,
    origin: Option<Seq<char>>,
    insts: Seq<InstanceView>,
    facts: FactSet,
) -> Seq<FindingView>
    decreases insts.len(),
{
    if insts.len() == 0 {
        seq![]
    } else {
        let rest = instance_findings(rule, origin, insts.drop_last(), facts);
        if cond_holds(rule.condition, insts.last(), facts) {
            rest.push(check_spec(rule, origin, insts.last(), facts))
        } else {
            rest
        }
    }
}

/// The findings of a sequence of effective rules, in order.
pub open spec fn rule_findings(eff: Seq<EffectiveRule>, facts: FactSet) -> Seq<FindingView>
    decreases eff.len(),
{
    if eff.len() == 0 {
        seq![]
    } else {
        rule_findings(eff.drop_last(), facts) + instance_findings(
            eff.last().0,
            eff.last().1,
            expand_spec(eff.last().0.subject, facts),
            facts,
        )
    }
}

/// All findings of evaluating a policy against facts.
pub open spec fn eval_findings(policy: Policy, facts: FactSet) -> Seq<FindingView> {
    rule_findings(effective_spec(policy), facts)
}

/// Number of findings that are violations of the given severity.
pub open spec fn count_violations(fs: Seq<FindingView>, sev: Severity) -> nat
    decreases fs.len(),
{
    if fs.len() == 0 {
        0
    } else {
        count_violations(fs.drop_last(), sev) + (if fs.last().status == FindingStatus::Violation
            && fs.last().severity == sev {
            1nat
        } else {
            0nat
        })
    }
}

/// Number of passing findings.
pub open spec fn count_passes(fs: Seq<FindingView>) -> nat
    decreases fs.len(),
{
    if fs.len() == 0 {
        0
    } else {
        count_passes(fs.drop_last()) + (if fs.last().status == FindingStatus::Pass {
            1nat
        } else {
            0nat
        })
    }
}

/// A count as a `u32`, saturating at `u32::MAX`.
pub open spec fn saturate(n: nat) -> u32 {
    if n <= u32::MAX {
        n as u32
    } else {
        u32::MAX
    }
}

/// The summary of a sequence of findings.
pub open spec fn summary_spec(fs: Seq<FindingView>) -> Summary {
    Summary {
        errors: saturate(count_violations(fs, Severity::Error)),
        warnings: saturate(count_violations(fs, Severity::Warning)),
        info: saturate(count_violations(fs, Severity::Info)),
        passes: saturate(count_passes(fs)),
    }
}

fn bump(n: u32) -> (r: u32)
    ensures
        r == (if n < u32::MAX { (n + 1) as u32 } else { n }),
{
    if n < 0xffff_ffff {
        n + 1
    } else {
        n
    }
}

/// Count violations by severity, and passes.
pub fn summarize(findings: &Vec<Finding>) -> (s: Summary)
    ensures
        s == summary_spec(finding_views(findings@)),
{
    let mut s = Summary { errors: 0, warnings: 0, info: 0, passes: 0 };
    let mut i: usize = 0;
    while i < findings.len()
        invariant
            i <= findings@.len(),
            s == summary_spec(finding_views(findings@.subrange(0, i as int))),
        decreases findings@.len() - i,
    {
        let ghost pre = finding_views(findings@.subrange(0, i + 1));
        assert(pre.drop_last() =~= finding_views(findings@.subrange(0, i as int)));
        assert(pre.last() == findings@[i as int]@);
        let f = &findings[i];
        match f.status {
            FindingStatus::Pass => {
                s.passes = bump(s.passes);
            },
            FindingStatus::Violation => match f.severity {
                Severity::Error => {
                    s.errors = bump(s.errors);
                },
                Severity::Warning => {
                    s.warnings = bump(s.warnings);
                },
                Severity::Info => {
                    s.info = bump(s.info);
                },
            },
        }
        i = i + 1;
    }
    assert(findings@.subrange(0, findings@.len() as int) =~= findings@);
    s
}

/// Evaluate a policy against a fact set.
#[verifier::loop_isolation(false)]
pub fn evaluate(policy: &Policy, facts: &FactSet) -> (e: Evaluation)
    ensures
        finding_views(e.findings@) == eval_findings(*policy, *facts),
        e.summary == summary_spec(eval_findings(*policy, *facts)),
        e.root@ == facts.root@,
        e.policy_id@ == policy.id@,
        e.policy_version == policy.version,
        e.schema_version == policy.schema_version,
{
    let eff = effective_rules(policy);
    let ghost effv = eff_views(eff@);
    let mut findings: Vec<Finding> = Vec::new();
    let mut k: usize = 0;
    while k < eff.len()
        invariant
            k <= eff@.len(),
            effv == eff_views(eff@),
            finding_views(findings@) == rule_findings(effv.subrange(0, k as int), *facts),
        decreases eff@.len() - k,
    {
        let (rule, origin) = eff[k];
        let ghost ov = match origin {
            Some(s) => Some(s@),
            None => None,
        };
        assert(effv[k as int] == (*rule, ov));
        let insts = expand_subject(&rule.subject, facts);
        let ghost base = finding_views(findings@);
        let mut j: usize = 0;
        while j < insts.len()
            invariant
                j <= insts@.len(),
                finding_views(findings@) == base + instance_findings(
                    *rule,
                    ov,
                    instance_views(insts@).subrange(0, j as int),
                    *facts,
                ),
            decreases insts@.len() - j,
        {
            let ghost pre = instance_views(insts@).subrange(0, j + 1);
            assert(pre.drop_last() =~= instance_views(insts@).subrange(0, j as int));
            assert(pre.last() == insts@[j as int]@);
            if eval_condition(&rule.condition, &insts[j], facts) {
                let f = check_rule(rule, origin, &insts[j], facts);
                let ghost old_f = finding_views(findings@);
                assert(f@ == check_spec(*rule, ov, pre.last(), *facts));
                assert(instance_findings(*rule, ov, pre, *facts) == instance_findings(*rule, ov, pre.drop_last(), *facts).push(f@));
                findings.push(f);
                assert(finding_views(findings@) =~= old_f.push(f@));
                assert(finding_views(findings@) =~= base + instance_findings(*rule, ov, pre, *facts));
            }
            j = j + 1;
        }
        assert(instance_views(insts@).subrange(0, insts@.len() as int) =~= instance_views(insts@));
        let ghost pre_k = effv.subrange(0, k + 1);
        assert(pre_k.drop_last() =~= effv.subrange(0, k as int));
        assert(finding_views(findings@) =~= rule_findings(pre_k, *facts));
        k = k + 1;
    }
    assert(effv.subrange(0, effv.len() as int) =~= effv);
    let summary = summarize(&findings);
    Evaluation {
        root: facts.root.clone(),
        policy_id: policy.id.clone(),
        policy_version: policy.version,
        schema_version: policy.schema_version,
        findings,
        summary,
    }
}

/// A permission never yields a violation.
pub proof fn lemma_permission_never_violates(
    rule: Rule,
    origin: Option<Seq<char>>,
    inst: InstanceView,
    facts: FactSet,
)
    requires
        rule.modality == Modality::Permission,
    ensures
        check_spec(rule, origin, inst, facts).status == FindingStatus::Pass,
{
}


/// Component `i` of a version, zero past its end.
pub open spec fn padded(c: Seq<u64>, i: int) -> int {
    if 0 <= i < c.len() {
        c[i] as int
    } else {
        0
    }
}

/// `a >= m` for versions compared component by component, the shorter one
/// extended with zeros: at the first component where they differ (if any)
/// `a` has the larger one.
pub open spec fn version_geq(a: Seq<u64>, m: Seq<u64>) -> bool {
    forall|k: int|
        #![trigger padded(a, k)]
        0 <= k && (forall|j: int| 0 <= j < k ==> padded(a, j) == padded(m, j)) ==> padded(a, k)
            >= padded(m, k)
}

proof fn lemma_at_least_from_geq(a: Seq<u64>, m: Seq<u64>, i: nat, len: nat)
    requires
        a.len() <= len,
        m.len() <= len,
    ensures
        at_least_from(a, m, i, len) == (forall|k: int|
            #![trigger padded(a, k)]
            i <= k && (forall|j: int| i <= j < k ==> padded(a, j) == padded(m, j)) ==> padded(a, k)
                >= padded(m, k)),
    decreases len - i,
{
    if i >= len {
        assert forall|k: int| i <= k implies padded(a, k) >= padded(m, k) by {}
    } else {
        assert(component_at(a, i as int) == padded(a, i as int));
        assert(component_at(m, i as int) == padded(m, i as int));
        lemma_at_least_from_geq(a, m, i + 1, len);
        if padded(a, i as int) != padded(m, i as int) {
            assert forall|k: int|
                i <= k && (forall|j: int| i <= j < k ==> padded(a, j) == padded(m, j)) && padded(
                    a,
                    i as int,
                ) > padded(m, i as int) implies #[trigger] padded(a, k) >= padded(m, k) by {
                if k > i {
                    assert(padded(a, i as int) == padded(m, i as int));
                }
            }
        } else {
            let p = forall|k: int|
                #![trigger padded(a, k)]
                i + 1 <= k && (forall|j: int| i + 1 <= j < k ==> padded(a, j) == padded(m, j))
                    ==> padded(a, k) >= padded(m, k);
            let q = forall|k: int|
                #![trigger padded(a, k)]
                i <= k && (forall|j: int| i <= j < k ==> padded(a, j) == padded(m, j)) ==> padded(
                    a,
                    k,
                ) >= padded(m, k);
            if p {
                assert forall|k: int|
                    i <= k && (forall|j: int| i <= j < k ==> padded(a, j) == padded(m, j)) implies #[trigger] padded(
                    a,
                    k,
                ) >= padded(m, k) by {
                    if k > i {
                        assert forall|j: int| i + 1 <= j < k implies padded(a, j) == padded(m, j) by {}
                    }
                }
            }
            if q {
                assert forall|k: int|
                    i + 1 <= k && (forall|j: int| i + 1 <= j < k ==> padded(a, j) == padded(m, j)) implies #[trigger] padded(
                    a,
                    k,
                ) >= padded(m, k) by {
                    assert forall|j: int| i <= j < k implies padded(a, j) == padded(m, j) by {
                        if j == i {
                        }
                    }
                }
            }
        }
    }
}

/// Version comparison is numeric and component-wise, missing components
/// counting as zero: `compare_versions(actual, minimum)` is `Some(true)`
/// exactly when `actual`'s components, extended with zeros, are at least
/// `minimum`'s in lexicographic order. So a version is never below itself,
/// and `1.0` is not at least `1.0.1`.
pub proof fn lemma_compare_versions_order(actual: Seq<char>, minimum: Seq<char>)
    ensures
        match (version_parts(actual), version_parts(minimum)) {
            (Some(a), Some(m)) => compare_versions_spec(actual, minimum) == Some(version_geq(a, m)),
            _ => compare_versions_spec(actual, minimum) is None,
        },
{
    match (version_parts(actual), version_parts(minimum)) {
        (Some(a), Some(m)) => {
            let len: nat = if a.len() >= m.len() { a.len() } else { m.len() };
            lemma_at_least_from_geq(a, m, 0, len);
        },
        _ => {},
    }
}

} // verus!

//! The action planner: every violation of an evaluation becomes either a
//! mechanical action or a manual item with a reason; nothing is dropped.
use vstd::prelude::*;
use crate::ast::{ActionKind, Modality, Policy, Resource, Rule};
use crate::catalog::{char_rows, lemma_split_nonempty, split_chars, split_on};
use crate::eval::{EffectiveRule, eff_views, effective_rules, effective_spec};
use crate::finding::{Evaluation, FindingStatus, FindingView, finding_views};
use crate::text::{chars_of, seq_contains, str_eq, string_from};

verus! {

/// What the planner needs to write new headers.
#[derive(Debug, Clone)]
pub struct FixContext {
    /// SPDX identifier written into new headers.
    pub license: String,
    /// Copyright holder line for new headers.
    pub author: String,
    /// Year written into new headers (given, never read from a clock).
    pub year: String,
}

impl Default for FixContext {
    fn default() -> (r: FixContext)
        ensures
            r.license@ == "MPL-2.0"@,
            r.author@ == "CHANGE-ME <your@email.com>"@,
            r.year@ == "2026"@,
    {
        FixContext {
            license: String::from_str("MPL-2.0"),
            author: String::from_str("CHANGE-ME <your@email.com>"),
            year: String::from_str("2026"),
        }
    }
}

/// A concrete corrective action.
#[derive(Debug, Clone, PartialEq, Eq)]
pub enum Action {
    /// Prepend an SPDX header to a source file that lacks one.
    AddSpdxHeader { file: String, license: String, author: String, year: String },
    /// Create a missing required file with placeholder content.
    CreateFile { path: String, contents: String },
}

/// Mathematical model of an [`Action`].
pub enum ActionView {
    AddSpdxHeader { file: Seq<char>, license: Seq<char>, author: Seq<char>, year: Seq<char> },
    CreateFile { path: Seq<char>, contents: Seq<char> },
}

impl View for Action {
    type V = ActionView;

    open spec fn view(&self) -> ActionView {
        match self {
            Action::AddSpdxHeader { file, license, author, year } => ActionView::AddSpdxHeader {
                file: file@,
                license: license@,
                author: author@,
                year: year@,
            },
            Action::CreateFile { path, contents } => ActionView::CreateFile {
                path: path@,
                contents: contents@,
            },
        }
    }
}

/// The path names no single file: it holds a glob metacharacter.
pub open spec fn glob_like(path: Seq<char>) -> bool {
    path.contains('*') || path.contains('?') || path.contains('[') || path.contains(']')
        || path.contains('{') || path.contains('}')
}

/// Does `path` contain a glob metacharacter?
pub fn is_glob(path: &str) -> (r: bool)
    ensures
        r == glob_like(path@),
{
    let chars = chars_of(path);
    let mut i: usize = 0;
    while i < chars.len()
        invariant
            i <= chars@.len(),
            chars@ == path@,
            forall|k: int|
                0 <= k < i ==> {
                    let c = #[trigger] chars@[k];
                    c != '*' && c != '?' && c != '[' && c != ']' && c != '{' && c != '}'
                },
        decreases chars@.len() - i,
    {
        let c = chars[i];
        if c == '*' || c == '?' || c == '[' || c == ']' || c == '{' || c == '}' {
            assert(chars@[i as int] == c);
            return true;
        }
        i = i + 1;
    }
    false
}

/// The pieces that are path components: not empty, not `.`.
pub open spec fn component_pieces(s: Seq<Seq<char>>) -> Seq<Seq<char>>
    decreases s.len(),
{
    if s.len() == 0 {
        seq![]
    } else {
        let rest = component_pieces(s.drop_last());
        if s.last().len() > 0 && s.last() != "."@ {
            rest.push(s.last())
        } else {
            rest
        }
    }
}

/// The last normal component of a `/`-separated path (`.` pieces and empty
/// pieces ignored); none for `..` or when there is no component.
pub open spec fn file_name_of(path: Seq<char>) -> Option<Seq<char>> {
    let pieces = component_pieces(split_on(path, '/'));
    if pieces.len() == 0 || pieces.last() == ".."@ {
        None
    } else {
        Some(pieces.last())
    }
}

/// The text after the final dot of a file name; none when there is no dot
/// or the only dot leads the name.
pub open spec fn name_extension(name: Seq<char>) -> Option<Seq<char>> {
    if exists|k: int| 1 <= k < name.len() && name[k] == '.' {
        let k = choose|k: int|
            1 <= k < name.len() && name[k] == '.' && forall|j: int| k < j < name.len() ==> name[j] != '.';
        Some(name.subrange(k + 1, name.len() as int))
    } else {
        None
    }
}

/// The extension of a path, as `Path::extension` gives it.
pub open spec fn path_extension(path: Seq<char>) -> Option<Seq<char>> {
    match file_name_of(path) {
        Some(n) => name_extension(n),
        None => None,
    }
}

fn last_name(path: &str) -> (r: Option<Vec<char>>)
    ensures
        match r {
            Some(v) => file_name_of(path@) == Some(v@),
            None => file_name_of(path@) is None,
        },
{
    let chars = chars_of(path);
    let pieces = split_chars(chars.as_slice(), '/');
    let ghost rows = char_rows(pieces@);
    let dot = chars_of(".");
    let dotdot = chars_of("..");
    let mut last: Option<usize> = None;
    let mut i: usize = 0;
    while i < pieces.len()
        invariant
            i <= pieces@.len(),
            rows == char_rows(pieces@),
            rows == split_on(path@, '/'),
            dot@ == "."@,
            dotdot@ == ".."@,
            match last {
                None => component_pieces(rows.subrange(0, i as int)).len() == 0,
                Some(j) => j < i && component_pieces(rows.subrange(0, i as int)).len() > 0
                    && component_pieces(rows.subrange(0, i as int)).last() == rows[j as int],
            },
        decreases pieces@.len() - i,
    {
        let ghost pre = rows.subrange(0, i + 1);
        assert(pre.drop_last() =~= rows.subrange(0, i as int));
        assert(pre.last() == pieces@[i as int]@);
        if pieces[i].len() > 0 && !crate::text::chars_eq(pieces[i].as_slice(), dot.as_slice()) {
            last = Some(i);
        }
        i = i + 1;
    }
    assert(rows.subrange(0, rows.len() as int) =~= rows);
    match last {
        None => None,
        Some(j) => {
            if crate::text::chars_eq(pieces[j].as_slice(), dotdot.as_slice()) {
                None
            } else {
                let mut v: Vec<char> = Vec::new();
                let mut k: usize = 0;
                while k < pieces[j].len()
                    invariant
                        j < pieces@.len(),
                        k <= pieces@[j as int]@.len(),
                        v@ == pieces@[j as int]@.subrange(0, k as int),
                    decreases pieces@[j as int]@.len() - k,
                {
                    v.push(pieces[j][k]);
                    k = k + 1;
                    assert(v@ =~= pieces@[j as int]@.subrange(0, k as int));
                }
                assert(v@ =~= pieces@[j as int]@);
                Some(v)
            }
        },
    }
}

fn extension_of_name(name: &Vec<char>) -> (r: Option<Vec<char>>)
    ensures
        match r {
            Some(v) => name_extension(name@) == Some(v@),
            None => name_extension(name@) is None,
        },
{
    let n = name.len();
    let mut k: usize = n;
    while k > 1 && name[k - 1] != '.'
        invariant
            1 <= k <= n || (k == n && n <= 1),
            n == name@.len(),
            forall|j: int| k <= j < n ==> name@[j] != '.',
        decreases k,
    {
        k = k - 1;
    }
    if k <= 1 || n == 0 {
        assert(!exists|j: int| 1 <= j < name@.len() && name@[j] == '.');
        return None;
    }
    let dot = k - 1;
    assert(name@[dot as int] == '.');
    assert(forall|j: int| dot < j < name@.len() ==> name@[j] != '.');
    let ghost w = choose|j: int|
        1 <= j < name@.len() && name@[j] == '.' && forall|i: int| j < i < name@.len() ==> name@[i] != '.';
    assert(w == dot) by {
        if w < dot {
        } else if w > dot {
        }
    }
    let mut v: Vec<char> = Vec::new();
    let mut i: usize = k;
    while i < n
        invariant
            k <= i <= n,
            n == name@.len(),
            v@ == name@.subrange(k as int, i as int),
        decreases n - i,
    {
        v.push(name[i]);
        i = i + 1;
        assert(v@ =~= name@.subrange(k as int, i as int));
    }
    Some(v)
}

/// The extension of a path (`Path::extension`).
pub fn extension_of(path: &str) -> (r: Option<String>)
    ensures
        match r {
            Some(v) => path_extension(path@) == Some(v@),
            None => path_extension(path@) is None,
        },
{
    match last_name(path) {
        None => None,
        Some(n) => match extension_of_name(&n) {
            Some(e) => Some(string_from(e.as_slice())),
            None => None,
        },
    }
}

/// Placeholder content for a created file: a Markdown/AsciiDoc stub for
/// `md`, `adoc` and `markdown` files, plain text otherwise.
pub open spec fn stub_spec(path: Seq<char>, rule_id: Seq<char>) -> Seq<char> {
    let markup = match path_extension(path) {
        Some(e) => e == "md"@ || e == "adoc"@ || e == "markdown"@,
        None => false,
    };
    if markup {
        "# TODO\n\nPlaceholder created by `plasma fix` to satisfy policy rule `"@ + rule_id
            + "`. Replace this with real content.\n"@
    } else {
        "Placeholder created by plasma fix to satisfy policy rule "@ + rule_id
            + ". Replace this with real content.\n"@
    }
}

/// Placeholder content for a newly created required file.
pub fn stub_for(path: &str, rule_id: &str) -> (s: String)
    ensures
        s@ == stub_spec(path@, rule_id@),
{
    let markup = match extension_of(path) {
        Some(e) => str_eq(e.as_str(), "md") || str_eq(e.as_str(), "adoc") || str_eq(
            e.as_str(),
            "markdown",
        ),
        None => false,
    };
    if markup {
        let mut s = String::from_str(
            "# TODO\n\nPlaceholder created by `plasma fix` to satisfy policy rule `",
        );
        s.append(rule_id);
        s.append("`. Replace this with real content.\n");
        s
    } else {
        let mut s = String::from_str("Placeholder created by plasma fix to satisfy policy rule ");
        s.append(rule_id);
        s.append(". Replace this with real content.\n");
        s
    }
}

/// An action bound to the finding it resolves.
#[derive(Debug, Clone, PartialEq, Eq)]
pub struct PlannedAction {
    pub rule_id: String,
    pub subject: String,
    pub action: Action,
}

/// A violation with no mechanical fix, and why.
#[derive(Debug, Clone, PartialEq, Eq)]
pub struct ManualItem {
    pub rule_id: String,
    pub subject: String,
    pub reason: String,
}

/// The remediation plan of an evaluation.
#[derive(Debug, Clone, PartialEq, Eq)]
pub struct Plan {
    pub actions: Vec<PlannedAction>,
    pub manual: Vec<ManualItem>,
}

impl Plan {
    /// Nothing to do and nothing to report.
    pub fn is_empty(&self) -> (r: bool)
        ensures
            r == (self.actions@.len() == 0 && self.manual@.len() == 0),
    {
        self.actions.len() == 0 && self.manual.len() == 0
    }
}

/// The mechanical fix for a violated rule at a subject, if any: a missing
/// header gets one; a missing required file at a concrete path is created.
pub open spec fn fix_spec(rule: Rule, subject: Seq<char>, ctx: FixContext) -> Option<ActionView> {
    match (rule.modality, rule.action, rule.resource) {
        (Modality::Obligation, ActionKind::Present, Resource::Header) => Some(
            ActionView::AddSpdxHeader {
                file: subject,
                license: ctx.license@,
                author: ctx.author@,
                year: ctx.year@,
            },
        ),
        (Modality::Obligation, ActionKind::Present, Resource::File { path }) => if !glob_like(
            path@,
        ) {
            Some(ActionView::CreateFile { path: path@, contents: stub_spec(path@, rule.id@) })
        } else {
            None
        },
        (Modality::Obligation, ActionKind::Present, Resource::Manifest { path }) => if !glob_like(
            path@,
        ) {
            Some(ActionView::CreateFile { path: path@, contents: stub_spec(path@, rule.id@) })
        } else {
            None
        },
        _ => None,
    }
}

/// Why a violated rule has no mechanical fix.
pub open spec fn manual_reason_spec(rule: Rule) -> Seq<char> {
    match (rule.modality, rule.action, rule.resource) {
        (Modality::Obligation, ActionKind::Present, Resource::File { .. }) =>
            "cannot create a required file from a glob pattern (specify a concrete path)"@,
        (Modality::Obligation, ActionKind::Present, Resource::Manifest { .. }) =>
            "cannot create a required file from a glob pattern (specify a concrete path)"@,
        (Modality::Obligation, ActionKind::Valid, Resource::Header) =>
            "an unparsable SPDX header must be corrected by hand"@,
        (Modality::Prohibition, _, _) => "removing a prohibited resource is not auto-applied"@,
        _ => "no automatic fix is available for this rule"@,
    }
}

fn fix_for(rule: &Rule, subject: &str, ctx: &FixContext) -> (r: Option<Action>)
    ensures
        match r {
            Some(a) => fix_spec(*rule, subject@, *ctx) == Some(a@),
            None => fix_spec(*rule, subject@, *ctx) is None,
        },
{
    match (&rule.modality, &rule.action, &rule.resource) {
        (Modality::Obligation, ActionKind::Present, Resource::Header) => Some(
            Action::AddSpdxHeader {
                file: String::from_str(subject),
                license: ctx.license.clone(),
                author: ctx.author.clone(),
                year: ctx.year.clone(),
            },
        ),
        (Modality::Obligation, ActionKind::Present, Resource::File { path }) => if !is_glob(
            path.as_str(),
        ) {
            Some(
                Action::CreateFile {
                    path: path.clone(),
                    contents: stub_for(path.as_str(), rule.id.as_str()),
                },
            )
        } else {
            None
        },
        (Modality::Obligation, ActionKind::Present, Resource::Manifest { path }) => if !is_glob(
            path.as_str(),
        ) {
            Some(
                Action::CreateFile {
                    path: path.clone(),
                    contents: stub_for(path.as_str(), rule.id.as_str()),
                },
            )
        } else {
            None
        },
        _ => None,
    }
}

fn manual_reason(rule: &Rule) -> (s: String)
    ensures
        s@ == manual_reason_spec(*rule),
{
    match (&rule.modality, &rule.action, &rule.resource) {
        (Modality::Obligation, ActionKind::Present, Resource::File { .. }) => String::from_str(
            "cannot create a required file from a glob pattern (specify a concrete path)",
        ),
        (Modality::Obligation, ActionKind::Present, Resource::Manifest { .. }) => String::from_str(
            "cannot create a required file from a glob pattern (specify a concrete path)",
        ),
        (Modality::Obligation, ActionKind::Valid, Resource::Header) => String::from_str(
            "an unparsable SPDX header must be corrected by hand",
        ),
        (Modality::Prohibition, _, _) => String::from_str(
            "removing a prohibited resource is not auto-applied",
        ),
        _ => String::from_str("no automatic fix is available for this rule"),
    }
}

/// The rule a finding's id names: the last effective rule with that id.
pub open spec fn rule_for(eff: Seq<EffectiveRule>, id: Seq<char>) -> Option<Rule>
    decreases eff.len(),
{
    if eff.len() == 0 {
        None
    } else if eff.last().0.id@ == id {
        Some(eff.last().0)
    } else {
        rule_for(eff.drop_last(), id)
    }
}

/// Mathematical model of a planned action.
pub struct PlannedView {
    pub rule_id: Seq<char>,
    pub subject: Seq<char>,
    pub action: ActionView,
}

/// Mathematical model of a manual item.
pub struct ManualView {
    pub rule_id: Seq<char>,
    pub subject: Seq<char>,
    pub reason: Seq<char>,
}

/// The plan of a sequence of findings: violations only, in order.
pub open spec fn plan_spec(eff: Seq<EffectiveRule>, fs: Seq<FindingView>, ctx: FixContext) -> (
    Seq<PlannedView>,
    Seq<ManualView>,
)
    decreases fs.len(),
{
    if fs.len() == 0 {
        (seq![], seq![])
    } else {
        let (acts, man) = plan_spec(eff, fs.drop_last(), ctx);
        let f = fs.last();
        if f.status != FindingStatus::Violation {
            (acts, man)
        } else {
            match rule_for(eff, f.rule_id) {
                None => (
                    acts,
                    man.push(
                        ManualView {
                            rule_id: f.rule_id,
                            subject: f.subject,
                            reason: "no rule found for finding"@,
                        },
                    ),
                ),
                Some(rule) => match fix_spec(rule, f.subject, ctx) {
                    Some(a) => (
                        acts.push(PlannedView { rule_id: f.rule_id, subject: f.subject, action: a }),
                        man,
                    ),
                    None => (
                        acts,
                        man.push(
                            ManualView {
                                rule_id: f.rule_id,
                                subject: f.subject,
                                reason: manual_reason_spec(rule),
                            },
                        ),
                    ),
                },
            }
        }
    }
}

/// The views of planned actions.
pub open spec fn planned_views(v: Seq<PlannedAction>) -> Seq<PlannedView> {
    v.map_values(
        |p: PlannedAction| PlannedView { rule_id: p.rule_id@, subject: p.subject@, action: p.action@ },
    )
}

/// The views of manual items.
pub open spec fn manual_views(v: Seq<ManualItem>) -> Seq<ManualView> {
    v.map_values(
        |m: ManualItem| ManualView { rule_id: m.rule_id@, subject: m.subject@, reason: m.reason@ },
    )
}

fn rule_index_lookup<'a>(eff: &Vec<(&'a Rule, Option<&'a str>)>, id: &str) -> (r: Option<&'a Rule>)
    ensures
        match r {
            Some(rule) => rule_for(eff_views(eff@), id@) == Some(*rule),
            None => rule_for(eff_views(eff@), id@) is None,
        },
{
    let ghost ev = eff_views(eff@);
    let mut i: usize = eff.len();
    assert(ev.subrange(0, ev.len() as int) =~= ev);
    while i > 0
        invariant
            i <= eff@.len(),
            ev == eff_views(eff@),
            rule_for(ev, id@) == rule_for(ev.subrange(0, i as int), id@),
        decreases i,
    {
        let ghost pre = ev.subrange(0, i as int);
        assert(pre.drop_last() =~= ev.subrange(0, i - 1));
        assert(pre.last() == ev[i - 1]);
        let (rule, _) = eff[i - 1];
        if str_eq(rule.id.as_str(), id) {
            return Some(rule);
        }
        i = i - 1;
    }
    None
}

/// Build the remediation plan of an evaluation.
#[verifier::loop_isolation(false)]
pub fn plan(policy: &Policy, evaluation: &Evaluation, ctx: &FixContext) -> (p: Plan)
    ensures
        (planned_views(p.actions@), manual_views(p.manual@)) == plan_spec(
            effective_spec(*policy),
            finding_views(evaluation.findings@),
            *ctx,
        ),
{
    let eff = effective_rules(policy);
    let ghost fs = finding_views(evaluation.findings@);
    let mut actions: Vec<PlannedAction> = Vec::new();
    let mut manual: Vec<ManualItem> = Vec::new();
    let mut i: usize = 0;
    while i < evaluation.findings.len()
        invariant
            i <= evaluation.findings@.len(),
            (planned_views(actions@), manual_views(manual@)) == plan_spec(
                eff_views(eff@),
                fs.subrange(0, i as int),
                *ctx,
            ),
        decreases evaluation.findings@.len() - i,
    {
        let ghost pre = fs.subrange(0, i + 1);
        assert(pre.drop_last() =~= fs.subrange(0, i as int));
        assert(pre.last() == evaluation.findings@[i as int]@);
        let finding = &evaluation.findings[i];
        let ghost old_a = actions@;
        let ghost old_m = manual@;
        if finding.status == FindingStatus::Violation {
            match rule_index_lookup(&eff, finding.rule_id.as_str()) {
                None => {
                    manual.push(
                        ManualItem {
                            rule_id: finding.rule_id.clone(),
                            subject: finding.subject.clone(),
                            reason: String::from_str("no rule found for finding"),
                        },
                    );
                    assert(manual_views(manual@) =~= manual_views(old_m).push(manual_views(manual@).last()));
                },
                Some(rule) => match fix_for(rule, finding.subject.as_str(), ctx) {
                    Some(action) => {
                        actions.push(
                            PlannedAction {
                                rule_id: finding.rule_id.clone(),
                                subject: finding.subject.clone(),
                                action,
                            },
                        );
                        assert(planned_views(actions@) =~= planned_views(old_a).push(planned_views(actions@).last()));
                    },
                    None => {
                        manual.push(
                            ManualItem {
                                rule_id: finding.rule_id.clone(),
                                subject: finding.subject.clone(),
                                reason: manual_reason(rule),
                            },
                        );
                        assert(manual_views(manual@) =~= manual_views(old_m).push(manual_views(manual@).last()));
                    },
                },
            }
        }
        i = i + 1;
    }
    assert(fs.subrange(0, fs.len() as int) =~= fs);
    Plan { actions, manual }
}

/// Number of violations among findings.
pub open spec fn violation_count(fs: Seq<FindingView>) -> nat
    decreases fs.len(),
{
    if fs.len() == 0 {
        0
    } else {
        violation_count(fs.drop_last()) + (if fs.last().status == FindingStatus::Violation {
            1nat
        } else {
            0nat
        })
    }
}

/// Nothing is dropped: every violation becomes exactly one action or one
/// manual item, and passes become neither. In particular an evaluation
/// without violations has an empty plan.
pub proof fn lemma_plan_accounts_for_violations(
    eff: Seq<EffectiveRule>,
    fs: Seq<FindingView>,
    ctx: FixContext,
)
    ensures
        plan_spec(eff, fs, ctx).0.len() + plan_spec(eff, fs, ctx).1.len() == violation_count(fs),
    decreases fs.len(),
{
    if fs.len() > 0 {
        lemma_plan_accounts_for_violations(eff, fs.drop_last(), ctx);
    }
}

/// A finding the planner can fix mechanically.
pub open spec fn fixable(eff: Seq<EffectiveRule>, f: FindingView, ctx: FixContext) -> bool {
    match rule_for(eff, f.rule_id) {
        Some(rule) => fix_spec(rule, f.subject, ctx) is Some,
        None => false,
    }
}

/// The (rule id, subject) pairs of the violations for which `fixable`
/// equals `want`, in order.
pub open spec fn violation_keys(eff: Seq<EffectiveRule>, fs: Seq<FindingView>, ctx: FixContext, want: bool) -> Seq<(Seq<char>, Seq<char>)>
    decreases fs.len(),
{
    if fs.len() == 0 {
        seq![]
    } else {
        let r = violation_keys(eff, fs.drop_last(), ctx, want);
        let f = fs.last();
        if f.status == FindingStatus::Violation && fixable(eff, f, ctx) == want {
            r.push((f.rule_id, f.subject))
        } else {
            r
        }
    }
}

proof fn lemma_manual_reason_nonempty(rule: Rule)
    ensures
        manual_reason_spec(rule).len() > 0,
{
    reveal_strlit("cannot create a required file from a glob pattern (specify a concrete path)");
    reveal_strlit("an unparsable SPDX header must be corrected by hand");
    reveal_strlit("removing a prohibited resource is not auto-applied");
    reveal_strlit("no automatic fix is available for this rule");
}

/// The plan covers every violation exactly once: the actions are the
/// fixable violations and the manual items the others, each in the order
/// of the findings (so the two are disjoint and together cover all
/// violations); passes contribute nothing, and every manual item carries
/// a reason.
pub proof fn lemma_plan_covers_violations(eff: Seq<EffectiveRule>, fs: Seq<FindingView>, ctx: FixContext)
    ensures
        plan_spec(eff, fs, ctx).0.map_values(|p: PlannedView| (p.rule_id, p.subject))
            == violation_keys(eff, fs, ctx, true),
        plan_spec(eff, fs, ctx).1.map_values(|m: ManualView| (m.rule_id, m.subject))
            == violation_keys(eff, fs, ctx, false),
        forall|i: int| 0 <= i < plan_spec(eff, fs, ctx).1.len() ==> (#[trigger] plan_spec(eff, fs, ctx).1[i]).reason.len() > 0,
    decreases fs.len(),
{
    reveal_strlit("no rule found for finding");
    if fs.len() == 0 {
        assert(plan_spec(eff, fs, ctx).0.map_values(|p: PlannedView| (p.rule_id, p.subject)) =~= Seq::<(Seq<char>, Seq<char>)>::empty());
        assert(plan_spec(eff, fs, ctx).1.map_values(|m: ManualView| (m.rule_id, m.subject)) =~= Seq::<(Seq<char>, Seq<char>)>::empty());
    } else {
        lemma_plan_covers_violations(eff, fs.drop_last(), ctx);
        let (acts, man) = plan_spec(eff, fs.drop_last(), ctx);
        let f = fs.last();
        match rule_for(eff, f.rule_id) {
            Some(rule) => {
                lemma_manual_reason_nonempty(rule);
            },
            None => {},
        }
        let (a2, m2) = plan_spec(eff, fs, ctx);
        if a2.len() > acts.len() {
            assert(a2.map_values(|p: PlannedView| (p.rule_id, p.subject)) =~= acts.map_values(|p: PlannedView| (p.rule_id, p.subject)).push((f.rule_id, f.subject)));
        } else {
            assert(a2 == acts);
        }
        if m2.len() > man.len() {
            assert(m2.map_values(|m: ManualView| (m.rule_id, m.subject)) =~= man.map_values(|m: ManualView| (m.rule_id, m.subject)).push((f.rule_id, f.subject)));
            assert forall|i: int| 0 <= i < m2.len() implies (#[trigger] m2[i]).reason.len() > 0 by {
                if i < man.len() {
                    assert(m2[i] == man[i]);
                }
            }
        } else {
            assert(m2 == man);
        }
    }
}

} // verus!

//! The decisions of the command-line front end: option parsing, exit
//! codes, and the text each command prints. Reading the repository and
//! writing to the terminal are the caller's.
use vstd::prelude::*;
use crate::action::{Action, ActionView, FixContext, Plan};
use crate::apply::ApplyOutcome;
use crate::ast::{OverlayEffect, Overlay, Policy, policy_version_text};
use crate::diff::{FactsDiff, HeaderChange, MetadataChange};
use crate::facts::opt_text;
use crate::finding::{Evaluation, Severity, blocking};
use crate::migrate::{replace_all, replace_spec};
use crate::union::{Union, ValidationMode};
use crate::text::{debug_str, decimal, decimal_string, seq_contains, str_contains, str_debug_text, str_eq};

verus! {

/// Exit code of a check with violations at or above the threshold.
pub const EXIT_VIOLATIONS: i32 = 1;

/// Exit code when fix actions remain unapplied (dry-run) or an apply failed.
pub const EXIT_PENDING: i32 = 1;

/// Exit code when two snapshots differ.
pub const EXIT_DIFFERENT: i32 = 1;

/// The options of `plasma check`.
pub struct CheckOptions<'a> {
    /// Repository root.
    pub path: &'a str,
    /// Policy file (`.toml` or `.json`); the bundled repo-hygiene policy when absent.
    pub policy: Option<&'a str>,
    /// Output format: `human`, `json` or `sarif`.
    pub format: &'a str,
    /// Minimum violation severity that fails the check.
    pub severity: &'a str,
    /// Exit code only, no output.
    pub quiet: bool,
    /// Include satisfied findings in the output.
    pub verbose: bool,
}

/// The options of `plasma fix`.
pub struct FixOptions<'a> {
    /// Repository root.
    pub path: &'a str,
    /// Policy file; the bundled repo-hygiene policy when absent.
    pub policy: Option<&'a str>,
    /// SPDX identifier written into added headers.
    pub license: &'a str,
    /// Author line for added headers.
    pub author: Option<&'a str>,
    /// Make the changes (otherwise only plan them).
    pub apply_changes: bool,
    /// Back up modified files first.
    pub backup: bool,
    /// Output format: `human` or `json`.
    pub format: &'a str,
}

/// What `plasma fix` writes into new headers: the chosen license, the
/// given author (a placeholder when none is given) and the year 2026.
pub fn fix_context(opts: &FixOptions) -> (r: FixContext)
    ensures
        r.license@ == opts.license@,
        r.author@ == (match opts.author {
            Some(a) => a@,
            None => "CHANGE-ME <your@email.com>"@,
        }),
        r.year@ == "2026"@,
{
    FixContext {
        license: String::from_str(opts.license),
        author: match opts.author {
            Some(a) => String::from_str(a),
            None => String::from_str("CHANGE-ME <your@email.com>"),
        },
        year: String::from_str("2026"),
    }
}

/// The severity a `--severity` value names.
pub open spec fn severity_named(s: Seq<char>) -> Option<Severity> {
    if s == "error"@ {
        Some(Severity::Error)
    } else if s == "warning"@ {
        Some(Severity::Warning)
    } else if s == "info"@ {
        Some(Severity::Info)
    } else {
        None
    }
}

/// Parses a `--severity` value: `error`, `warning` or `info`.
pub fn parse_severity(s: &str) -> (r: Result<Severity, String>)
    ensures
        match severity_named(s@) {
            Some(v) => r == Ok::<Severity, String>(v),
            None => r matches Err(m) && m@ == "unknown severity "@ + str_debug_text(s@)
                + ": use error, warning, or info"@,
        },
{
    if str_eq(s, "error") {
        Ok(Severity::Error)
    } else if str_eq(s, "warning") {
        Ok(Severity::Warning)
    } else if str_eq(s, "info") {
        Ok(Severity::Info)
    } else {
        let mut m = String::from_str("unknown severity ");
        let d = debug_str(s);
        m.append(d.as_str());
        m.append(": use error, warning, or info");
        Err(m)
    }
}

/// No violation at or above the threshold.
pub open spec fn clean_spec(e: Evaluation, threshold: Severity) -> bool {
    !(exists|i: int| 0 <= i < e.findings@.len() && blocking(#[trigger] e.findings@[i]@, threshold))
}

/// The exit code of `plasma check`: 0 when clean at the threshold.
pub fn check_exit_code(evaluation: &Evaluation, threshold: Severity) -> (r: i32)
    ensures
        r == (if clean_spec(*evaluation, threshold) { 0 } else { EXIT_VIOLATIONS }),
{
    if evaluation.clean_at(threshold) {
        0
    } else {
        EXIT_VIOLATIONS
    }
}

/// The one-line description of a planned action.
pub open spec fn describe_spec(a: ActionView) -> Seq<char> {
    match a {
        ActionView::AddSpdxHeader { file, license, .. } => "add SPDX header ("@ + license
            + ") to "@ + file,
        ActionView::CreateFile { path, .. } => "create "@ + path + " (placeholder content)"@,
    }
}

/// Describes a planned action for the dry-run listing.
pub fn describe_action(action: &Action) -> (r: String)
    ensures
        r@ == describe_spec(action@),
{
    match action {
        Action::AddSpdxHeader { file, license, .. } => {
            let mut s = String::from_str("add SPDX header (");
            s.append(license.as_str());
            s.append(") to ");
            s.append(file.as_str());
            s
        },
        Action::CreateFile { path, .. } => {
            let mut s = String::from_str("create ");
            s.append(path.as_str());
            s.append(" (placeholder content)");
            s
        },
    }
}

/// The exit code of `plasma fix`: non-zero when the tree is not clean
/// afterwards — in a dry-run when anything is planned, when applying if
/// any action failed.
pub open spec fn fix_exit_spec(applied: bool, plan_empty: bool, outcome: Option<ApplyOutcome>) -> i32 {
    if applied {
        match outcome {
            Some(o) => if o.errors@.len() == 0 { 0 } else { EXIT_PENDING },
            None => 0,
        }
    } else if plan_empty {
        0
    } else {
        EXIT_PENDING
    }
}

pub fn fix_exit_code(applied: bool, remediation: &Plan, outcome: Option<&ApplyOutcome>) -> (r: i32)
    ensures
        r == fix_exit_spec(
            applied,
            remediation.actions@.len() == 0 && remediation.manual@.len() == 0,
            match outcome { Some(o) => Some(*o), None => None },
        ),
{
    if applied {
        match outcome {
            Some(o) => if o.is_clean() {
                0
            } else {
                EXIT_PENDING
            },
            None => 0,
        }
    } else if remediation.is_empty() {
        0
    } else {
        EXIT_PENDING
    }
}

/// Rules an overlay's effects add.
pub open spec fn effect_rules(effects: Seq<OverlayEffect>) -> nat
    decreases effects.len(),
{
    if effects.len() == 0 {
        0
    } else {
        effect_rules(effects.drop_last()) + match effects.last() {
            OverlayEffect::AddRules { rules } => rules@.len(),
            _ => 0,
        }
    }
}

/// Rules all overlays add.
pub open spec fn overlay_rules(overlays: Seq<Overlay>) -> nat
    decreases overlays.len(),
{
    if overlays.len() == 0 {
        0
    } else {
        overlay_rules(overlays.drop_last()) + effect_rules(overlays.last().effects@)
    }
}

/// `n`, or the largest `usize` when it is larger.
pub open spec fn saturated(n: nat) -> nat {
    if n <= usize::MAX {
        n
    } else {
        usize::MAX as nat
    }
}

/// The number of rules the overlays of a policy add (saturating at the
/// largest `usize`).
pub fn overlay_rule_count(policy: &Policy) -> (r: usize)
    ensures
        r == saturated(overlay_rules(policy.overlays@)),
{
    let mut total: usize = 0;
    let mut i: usize = 0;
    let ghost os = policy.overlays@;
    assert(os.subrange(0, 0) =~= Seq::<Overlay>::empty());
    while i < policy.overlays.len()
        invariant
            i <= os.len(),
            os == policy.overlays@,
            total == (if overlay_rules(os.subrange(0, i as int)) <= usize::MAX { overlay_rules(
                os.subrange(0, i as int),
            ) } else { usize::MAX as nat }),
        decreases os.len() - i,
    {
        let effects = &policy.overlays[i].effects;
        let ghost es = effects@;
        let ghost before = overlay_rules(os.subrange(0, i as int));
        let mut j: usize = 0;
        let mut sub: usize = total;
        assert(es.subrange(0, 0) =~= Seq::<OverlayEffect>::empty());
        while j < effects.len()
            invariant
                j <= es.len(),
                es == effects@,
                sub == (if before + effect_rules(es.subrange(0, j as int)) <= usize::MAX {
                    before + effect_rules(es.subrange(0, j as int))
                } else {
                    usize::MAX as nat
                }),
            decreases es.len() - j,
        {
            let n: usize = match &effects[j] {
                OverlayEffect::AddRules { rules } => rules.len(),
                _ => 0,
            };
            assert(es.subrange(0, j + 1).drop_last() =~= es.subrange(0, j as int));
            sub = sub.saturating_add(n);
            j = j + 1;
        }
        assert(es.subrange(0, es.len() as int) =~= es);
        assert(os.subrange(0, i + 1).drop_last() =~= os.subrange(0, i as int));
        total = sub;
        i = i + 1;
    }
    assert(os.subrange(0, os.len() as int) =~= os);
    total
}

/// The line `plasma policy validate` prints for a valid policy.
pub open spec fn policy_summary_spec(p: Policy, overlay_count: nat) -> Seq<char> {
    "OK: "@ + p.id@ + " v"@ + policy_version_text(p.version) + " (schema "@ + policy_version_text(
        p.schema_version,
    ) + ") — "@ + decimal(p.rules@.len()) + " base rule(s), "@ + decimal(overlay_count)
        + " overlay rule(s)"@
}

/// The summary of a validated policy.
pub fn policy_summary(policy: &Policy) -> (r: String)
    ensures
        r@ == policy_summary_spec(*policy, saturated(overlay_rules(policy.overlays@))),
{
    let overlays = overlay_rule_count(policy);
    let mut s = String::from_str("OK: ");
    s.append(policy.id.as_str());
    s.append(" v");
    s.append(policy.version.to_string().as_str());
    s.append(" (schema ");
    s.append(policy.schema_version.to_string().as_str());
    s.append(") — ");
    s.append(decimal_string(policy.rules.len() as u64).as_str());
    s.append(" base rule(s), ");
    s.append(decimal_string(overlays as u64).as_str());
    s.append(" overlay rule(s)");
    s
}

/// The text of an optional value, or `missing` when absent.
pub open spec fn or_text(o: Option<Seq<char>>, missing: Seq<char>) -> Seq<char> {
    match o {
        Some(v) => v,
        None => missing,
    }
}

/// One line per name, each `prefix` + name.
pub open spec fn prefixed_lines(names: Seq<String>, prefix: Seq<char>) -> Seq<char>
    decreases names.len(),
{
    if names.len() == 0 {
        Seq::empty()
    } else {
        prefixed_lines(names.drop_last(), prefix) + prefix + names.last()@ + "\n"@
    }
}

/// The line of one header transition.
pub open spec fn header_line(h: HeaderChange) -> Seq<char> {
    "  ~ header:  "@ + h.file@ + " ("@ + or_text(opt_text(h.before), "<none>"@) + " -> "@
        + or_text(opt_text(h.after), "<none>"@) + ")\n"@
}

pub open spec fn header_lines(hs: Seq<HeaderChange>) -> Seq<char>
    decreases hs.len(),
{
    if hs.len() == 0 {
        Seq::empty()
    } else {
        header_lines(hs.drop_last()) + header_line(hs.last())
    }
}

/// The line of one metadata transition.
pub open spec fn metadata_line(m: MetadataChange) -> Seq<char> {
    "  ~ metadata: "@ + m.key@ + " ("@ + or_text(opt_text(m.before), "<absent>"@) + " -> "@
        + or_text(opt_text(m.after), "<absent>"@) + ")\n"@
}

pub open spec fn metadata_lines(ms: Seq<MetadataChange>) -> Seq<char>
    decreases ms.len(),
{
    if ms.len() == 0 {
        Seq::empty()
    } else {
        metadata_lines(ms.drop_last()) + metadata_line(ms.last())
    }
}

/// The total number of changes of a diff.
pub open spec fn change_total(d: FactsDiff) -> nat {
    d.files_added@.len() + d.files_removed@.len() + d.headers_changed@.len()
        + d.metadata_changed@.len() + (if d.git_changed is Some { 1nat } else { 0nat })
}

/// The human-readable rendering of a snapshot diff.
pub open spec fn diff_text(d: FactsDiff) -> Seq<char> {
    if d.no_changes() {
        "Snapshots are identical.\n"@
    } else {
        "Snapshots differ ("@ + decimal(change_total(d)) + " change(s)):\n\n"@ + prefixed_lines(
            d.files_added@,
            "  + added:   "@,
        ) + prefixed_lines(d.files_removed@, "  - removed: "@) + header_lines(d.headers_changed@)
            + metadata_lines(d.metadata_changed@) + match d.git_changed {
            Some(g) => "  ~ git:     "@ + or_text(opt_text(g.before.head_ref), "<not a repo>"@)
                + " -> "@ + or_text(opt_text(g.after.head_ref), "<not a repo>"@) + "\n"@,
            None => Seq::empty(),
        }
    }
}

fn append_or(out: &mut String, o: &Option<String>, missing: &str)
    ensures
        final(out)@ == old(out)@ + or_text(opt_text(*o), missing@),
{
    match o {
        Some(v) => out.append(v.as_str()),
        None => out.append(missing),
    }
}

fn append_prefixed(out: &mut String, names: &Vec<String>, prefix: &str)
    ensures
        final(out)@ == old(out)@ + prefixed_lines(names@, prefix@),
{
    let mut i: usize = 0;
    assert(names@.subrange(0, 0) =~= Seq::<String>::empty());
    assert(old(out)@ + prefixed_lines(names@.subrange(0, 0), prefix@) =~= old(out)@);
    while i < names.len()
        invariant
            i <= names@.len(),
            out@ == old(out)@ + prefixed_lines(names@.subrange(0, i as int), prefix@),
        decreases names@.len() - i,
    {
        out.append(prefix);
        out.append(names[i].as_str());
        out.append("\n");
        assert(names@.subrange(0, i + 1).drop_last() =~= names@.subrange(0, i as int));
        assert(out@ =~= old(out)@ + prefixed_lines(names@.subrange(0, i + 1), prefix@));
        i = i + 1;
    }
    assert(names@.subrange(0, names@.len() as int) =~= names@);
}

fn append_header_lines(out: &mut String, hs: &Vec<HeaderChange>)
    ensures
        final(out)@ == old(out)@ + header_lines(hs@),
{
    let mut i: usize = 0;
    assert(hs@.subrange(0, 0) =~= Seq::<HeaderChange>::empty());
    assert(old(out)@ + header_lines(hs@.subrange(0, 0)) =~= old(out)@);
    while i < hs.len()
        invariant
            i <= hs@.len(),
            out@ == old(out)@ + header_lines(hs@.subrange(0, i as int)),
        decreases hs@.len() - i,
    {
        let h = &hs[i];
        let ghost pre = out@;
        out.append("  ~ header:  ");
        out.append(h.file.as_str());
        out.append(" (");
        append_or(out, &h.before, "<none>");
        out.append(" -> ");
        append_or(out, &h.after, "<none>");
        out.append(")\n");
        assert(out@ =~= pre + header_line(*h));
        assert(hs@.subrange(0, i + 1).drop_last() =~= hs@.subrange(0, i as int));
        assert(out@ =~= old(out)@ + header_lines(hs@.subrange(0, i + 1)));
        i = i + 1;
    }
    assert(hs@.subrange(0, hs@.len() as int) =~= hs@);
}

fn append_metadata_lines(out: &mut String, ms: &Vec<MetadataChange>)
    ensures
        final(out)@ == old(out)@ + metadata_lines(ms@),
{
    let mut k: usize = 0;
    assert(ms@.subrange(0, 0) =~= Seq::<MetadataChange>::empty());
    assert(old(out)@ + metadata_lines(ms@.subrange(0, 0)) =~= old(out)@);
    while k < ms.len()
        invariant
            k <= ms@.len(),
            out@ == old(out)@ + metadata_lines(ms@.subrange(0, k as int)),
        decreases ms@.len() - k,
    {
        let m = &ms[k];
        let ghost pre = out@;
        out.append("  ~ metadata: ");
        out.append(m.key.as_str());
        out.append(" (");
        append_or(out, &m.before, "<absent>");
        out.append(" -> ");
        append_or(out, &m.after, "<absent>");
        out.append(")\n");
        assert(out@ =~= pre + metadata_line(*m));
        assert(ms@.subrange(0, k + 1).drop_last() =~= ms@.subrange(0, k as int));
        assert(out@ =~= old(out)@ + metadata_lines(ms@.subrange(0, k + 1)));
        k = k + 1;
    }
    assert(ms@.subrange(0, ms@.len() as int) =~= ms@);
}

/// Renders a snapshot diff for the terminal.
pub fn render_diff(d: &FactsDiff) -> (r: String)
    requires
        d.files_added@.len() + d.files_removed@.len() + d.headers_changed@.len()
            + d.metadata_changed@.len() + 1 <= usize::MAX,
    ensures
        r@ == diff_text(*d),
{
    if d.is_empty() {
        return String::from_str("Snapshots are identical.\n");
    }
    let mut out = String::from_str("Snapshots differ (");
    let n = d.change_count();
    out.append(decimal_string(n as u64).as_str());
    out.append(" change(s)):\n\n");
    append_prefixed(&mut out, &d.files_added, "  + added:   ");
    append_prefixed(&mut out, &d.files_removed, "  - removed: ");
    append_header_lines(&mut out, &d.headers_changed);
    append_metadata_lines(&mut out, &d.metadata_changed);
    match &d.git_changed {
        Some(g) => {
            out.append("  ~ git:     ");
            append_or(&mut out, &g.before.head_ref, "<not a repo>");
            out.append(" -> ");
            append_or(&mut out, &g.after.head_ref, "<not a repo>");
            out.append("\n");
        },
        None => {},
    }
    assert(out@ =~= diff_text(*d));
    out
}

/// The exit code of `plasma diff`: 0 identical, 1 different.
pub fn diff_exit_code(d: &FactsDiff) -> (r: i32)
    ensures
        r == (if d.no_changes() { 0 } else { EXIT_DIFFERENT }),
{
    if d.is_empty() {
        0
    } else {
        EXIT_DIFFERENT
    }
}

/// The shields.io badge image URL: `-` in the label doubled.
pub open spec fn badge_url_spec(license: Seq<char>, style: Seq<char>) -> Seq<char> {
    "https://img.shields.io/badge/License-"@ + replace_spec(license, "-"@, "--"@)
        + "-blue.svg?style="@ + style
}

/// The SPDX page of a license.
pub open spec fn link_url_spec(license: Seq<char>) -> Seq<char> {
    "https://spdx.org/licenses/"@ + license + ".html"@
}

/// The badge markup `plasma badge` prints, in Markdown, AsciiDoc, HTML and
/// reStructuredText.
pub open spec fn badge_text_spec(l: Seq<char>, style: Seq<char>) -> Seq<char> {
    let b = badge_url_spec(l, style);
    let k = link_url_spec(l);
    l + " Badge\n\nMarkdown:\n  [![License: "@ + l + "]("@ + b + ")]("@ + k + ")\n\nAsciiDoc:\n  image:"@
        + b + "[License: "@ + l + ",link=\""@ + k + "\"]\n\nHTML:\n  <a href=\""@ + k
        + "\"><img src=\""@ + b + "\" alt=\"License: "@ + l
        + "\"></a>\n\nreStructuredText:\n  .. image:: "@ + b + "\n     :target: "@ + k
        + "\n     :alt: License: "@ + l + "\n"@
}

/// The badge markup for a license in a shields.io style.
pub fn badge_text(license: &str, style: &str) -> (r: String)
    ensures
        r@ == badge_text_spec(license@, style@),
{
    proof {
        reveal_strlit("-");
    }
    let escaped = replace_all(license, "-", "--");
    let mut b = String::from_str("https://img.shields.io/badge/License-");
    b.append(escaped.as_str());
    b.append("-blue.svg?style=");
    b.append(style);
    let mut k = String::from_str("https://spdx.org/licenses/");
    k.append(license);
    k.append(".html");
    let mut s = String::from_str(license);
    s.append(" Badge\n\nMarkdown:\n  [![License: ");
    s.append(license);
    s.append("](");
    s.append(b.as_str());
    s.append(")](");
    s.append(k.as_str());
    s.append(")\n\nAsciiDoc:\n  image:");
    s.append(b.as_str());
    s.append("[License: ");
    s.append(license);
    s.append(",link=\"");
    s.append(k.as_str());
    s.append("\"]\n\nHTML:\n  <a href=\"");
    s.append(k.as_str());
    s.append("\"><img src=\"");
    s.append(b.as_str());
    s.append("\" alt=\"License: ");
    s.append(license);
    s.append("\"></a>\n\nreStructuredText:\n  .. image:: ");
    s.append(b.as_str());
    s.append("\n     :target: ");
    s.append(k.as_str());
    s.append("\n     :alt: License: ");
    s.append(license);
    s.append("\n");
    s
}

/// The LICENSE stub `plasma init` writes for a license whose text it does
/// not carry.
pub fn license_stub(license: &str) -> (r: String)
    ensures
        r@ == "SPDX-License-Identifier: "@ + license@
            + "\n\nTODO: replace this stub with the full "@ + license@ + " license text.\n"@,
{
    let mut s = String::from_str("SPDX-License-Identifier: ");
    s.append(license);
    s.append("\n\nTODO: replace this stub with the full ");
    s.append(license);
    s.append(" license text.\n");
    s
}

/// The `#`-comment SPDX header `plasma init` puts on config files.
pub fn init_header(license: &str, year: &str, author: &str) -> (r: String)
    ensures
        r@ == "# SPDX-License-Identifier: "@ + license@ + "\n# SPDX-FileCopyrightText: "@ + year@
            + " "@ + author@ + "\n"@,
{
    let mut s = String::from_str("# SPDX-License-Identifier: ");
    s.append(license);
    s.append("\n# SPDX-FileCopyrightText: ");
    s.append(year);
    s.append(" ");
    s.append(author);
    s.append("\n");
    s
}

/// A config file's content with `header` in front, unless it already
/// mentions `SPDX-License-Identifier`.
pub fn with_init_header(content: &str, header: &str) -> (r: Option<String>)
    ensures
        seq_contains(content@, "SPDX-License-Identifier"@) ==> r is None,
        !seq_contains(content@, "SPDX-License-Identifier"@) ==> (r matches Some(s) && s@ == header@
            + content@),
{
    if str_contains(content, "SPDX-License-Identifier") {
        None
    } else {
        let mut s = String::from_str(header);
        s.append(content);
        Some(s)
    }
}


/// The exit code of `plasma audit`: 1 when files fail the audit and they
/// were not being fixed, else 0.
pub fn audit_exit_code(noncompliant: u64, fix: bool) -> (r: i32)
    ensures
        r == (if noncompliant > 0 && !fix { 1int } else { 0int }),
{
    if noncompliant > 0 && !fix {
        1
    } else {
        0
    }
}

/// A character with ASCII upper case letters lowered.
pub open spec fn ascii_lower_char(c: char) -> char {
    if 'A' <= c && c <= 'Z' {
        ((c as u32) + 32) as char
    } else {
        c
    }
}

/// `str::to_ascii_lowercase`: ASCII letters lowered, the rest kept.
pub open spec fn ascii_lower(s: Seq<char>) -> Seq<char> {
    s.map_values(|c: char| ascii_lower_char(c))
}

fn ascii_lowercase(s: &str) -> (r: String)
    ensures
        r@ == ascii_lower(s@),
{
    let cs = crate::text::chars_of(s);
    let mut r = String::new();
    let mut i: usize = 0;
    while i < cs.len()
        invariant
            cs@ == s@,
            i <= cs@.len(),
            r@ == ascii_lower(s@.subrange(0, i as int)),
        decreases cs@.len() - i,
    {
        let c = cs[i];
        let d: char = if 'A' <= c && c <= 'Z' {
            ((c as u8) + 32) as char
        } else {
            c
        };
        assert(d == ascii_lower_char(c));
        crate::text::push_char(&mut r, d);
        assert(ascii_lower(s@.subrange(0, i + 1)) =~= ascii_lower(s@.subrange(0, i as int)).push(d));
        i = i + 1;
    }
    assert(s@.subrange(0, cs@.len() as int) =~= s@);
    r
}

/// The union a schema name names, case-insensitively in ASCII.
pub open spec fn union_named_spec(name: Seq<char>) -> Result<Union, Seq<char>> {
    let l = ascii_lower(name);
    if l == "nuj"@ {
        Ok(Union::Nuj)
    } else if l == "iww"@ {
        Ok(Union::Iww)
    } else if l == "ucu"@ {
        Ok(Union::Ucu)
    } else {
        Err("unknown union "@ + str_debug_text(l) + ": use nuj, iww, or ucu"@)
    }
}

/// The union named by a `--schema` option, or the error message.
pub fn union_named(name: &str) -> (r: Result<Union, String>)
    ensures
        match union_named_spec(name@) {
            Ok(u) => r == Ok::<Union, String>(u),
            Err(m) => r matches Err(e) && e@ == m,
        },
{
    let l = ascii_lowercase(name);
    if str_eq(l.as_str(), "nuj") {
        Ok(Union::Nuj)
    } else if str_eq(l.as_str(), "iww") {
        Ok(Union::Iww)
    } else if str_eq(l.as_str(), "ucu") {
        Ok(Union::Ucu)
    } else {
        let mut m = String::from_str("unknown union ");
        m.append(debug_str(l.as_str()).as_str());
        m.append(": use nuj, iww, or ucu");
        Err(m)
    }
}

/// The validation mode a `--mode` option names.
pub open spec fn mode_named_spec(name: Seq<char>) -> Result<ValidationMode, Seq<char>> {
    if name == "lax"@ {
        Ok(ValidationMode::Lax)
    } else if name == "checked"@ {
        Ok(ValidationMode::Checked)
    } else if name == "attested"@ {
        Ok(ValidationMode::Attested)
    } else {
        Err("unknown mode "@ + str_debug_text(name) + ": use lax, checked, or attested"@)
    }
}

/// The validation mode named by a `--mode` option, or the error message.
pub fn mode_named(name: &str) -> (r: Result<ValidationMode, String>)
    ensures
        match mode_named_spec(name@) {
            Ok(m) => r == Ok::<ValidationMode, String>(m),
            Err(t) => r matches Err(e) && e@ == t,
        },
{
    if str_eq(name, "lax") {
        Ok(ValidationMode::Lax)
    } else if str_eq(name, "checked") {
        Ok(ValidationMode::Checked)
    } else if str_eq(name, "attested") {
        Ok(ValidationMode::Attested)
    } else {
        let mut m = String::from_str("unknown mode ");
        m.append(debug_str(name).as_str());
        m.append(": use lax, checked, or attested");
        Err(m)
    }
}

} // verus!

//! What applying a remediation plan decides: the header text prepended to
//! a file, whether a file already carries one (so applying is idempotent),
//! the backup name, and the outcome record. Reading and writing the files
//! is the caller's.
use vstd::prelude::*;
use crate::action::{Action, ActionView, extension_of, path_extension};
use crate::catalog::split_on;
use crate::header::{
    comment_prefix, comment_prefix_spec, extract_spdx_raw_from_content, header_value, raw_header,
    spdx_marker, uncommented,
};
use crate::lexer::{is_word_char, lemma_lex_skip_space, lemma_lex_window, lex};
use crate::spdx::parse_spec;
use crate::text::{alphanumeric, has_prefix, is_white_space, trim, trim_end, trim_start};

verus! {

/// Options controlling how a plan is applied.
#[derive(Debug, Clone)]
pub struct ApplyOptions {
    /// Write a `<file>.bak` copy before modifying an existing file.
    pub backup: bool,
}

impl Default for ApplyOptions {
    fn default() -> (r: ApplyOptions)
        ensures
            r.backup,
    {
        ApplyOptions { backup: true }
    }
}

/// The result of applying a plan.
#[derive(Debug, Clone, Default)]
pub struct ApplyOutcome {
    /// Files successfully modified (relative paths as given in the plan).
    pub applied: Vec<String>,
    /// Actions skipped because they were already satisfied, with a reason.
    pub skipped: Vec<(String, String)>,
    /// Actions that failed, with the error message.
    pub errors: Vec<(String, String)>,
}

impl ApplyOutcome {
    /// No action failed.
    pub fn is_clean(&self) -> (r: bool)
        ensures
            r == (self.errors@.len() == 0),
    {
        self.errors.len() == 0
    }
}

/// The two header lines (and a blank line) written above a file's content.
pub open spec fn header_block_spec(prefix: Seq<char>, license: Seq<char>, year: Seq<char>, author: Seq<char>) -> Seq<char> {
    prefix + " SPDX-License-Identifier: "@ + license + "\n"@ + prefix + " Copyright (c) "@ + year
        + " "@ + author + "\n\n"@
}

/// The header block for the given comment prefix.
pub fn header_block(prefix: &str, license: &str, year: &str, author: &str) -> (r: String)
    ensures
        r@ == header_block_spec(prefix@, license@, year@, author@),
{
    let mut s = String::from_str(prefix);
    s.append(" SPDX-License-Identifier: ");
    s.append(license);
    s.append("\n");
    s.append(prefix);
    s.append(" Copyright (c) ");
    s.append(year);
    s.append(" ");
    s.append(author);
    s.append("\n\n");
    s
}

/// The new content of `file` once its header is added: `None` when the
/// content already carries an SPDX header (nothing is added twice).
pub open spec fn with_header_spec(file: Seq<char>, content: Seq<char>, license: Seq<char>, author: Seq<char>, year: Seq<char>) -> Option<Seq<char>> {
    if raw_header(content) is Some {
        None
    } else {
        let ext = match path_extension(file) {
            Some(e) => e,
            None => Seq::empty(),
        };
        Some(header_block_spec(comment_prefix_spec(ext), license, year, author) + content)
    }
}

/// Prepends an SPDX header (in the file's comment syntax) to `content`,
/// unless it already has one.
pub fn with_spdx_header(file: &str, content: &str, license: &str, author: &str, year: &str) -> (r: Option<String>)
    ensures
        match with_header_spec(file@, content@, license@, author@, year@) {
            Some(s) => r matches Some(x) && x@ == s,
            None => r is None,
        },
{
    if extract_spdx_raw_from_content(content).is_some() {
        return None;
    }
    let prefix = match extension_of(file) {
        Some(e) => comment_prefix(e.as_str()),
        None => {
            proof {
                reveal_strlit("");
                assert(""@ =~= Seq::<char>::empty());
            }
            comment_prefix("")
        },
    };
    let ghost ext = match path_extension(file@) {
        Some(e) => e,
        None => Seq::<char>::empty(),
    };
    assert(prefix@ == comment_prefix_spec(ext));
    let mut s = header_block(prefix, license, year, author);
    s.append(content);
    Some(s)
}

/// The extension a backup copy gets: `bak`, or the file's own extension
/// followed by `.bak`.
pub fn backup_extension(ext: &str) -> (r: String)
    ensures
        ext@.len() == 0 ==> r@ == "bak"@,
        ext@.len() > 0 ==> r@ == ext@ + ".bak"@,
{
    if ext.is_empty() {
        String::from_str("bak")
    } else {
        let mut s = String::from_str(ext);
        s.append(".bak");
        s
    }
}

proof fn lemma_split_no_sep(a: Seq<char>, sep: char)
    requires
        forall|i: int| 0 <= i < a.len() ==> a[i] != sep,
    ensures
        split_on(a, sep) == seq![a],
    decreases a.len(),
{
    if a.len() == 0 {
        assert(a =~= Seq::<char>::empty());
        assert(split_on(a, sep) =~= seq![a]);
    } else {
        lemma_split_no_sep(a.drop_last(), sep);
        assert(a[a.len() - 1] != sep);
        let r = split_on(a.drop_last(), sep);
        assert(r.last() == a.drop_last());
        assert(a.drop_last().push(a.last()) =~= a);
        assert(r.update(0, a) =~= seq![a]);
        assert(split_on(a, sep) =~= seq![a]);
    }
}

/// The first piece of a split ends before the first separator.
proof fn lemma_split_first(s: Seq<char>, k: int, sep: char)
    requires
        0 <= k < s.len(),
        s[k] == sep,
        forall|i: int| 0 <= i < k ==> s[i] != sep,
    ensures
        split_on(s, sep).len() >= 2,
        split_on(s, sep)[0] == s.subrange(0, k),
    decreases s.len(),
{
    if s.len() == k + 1 {
        let a = s.subrange(0, k);
        assert(s.drop_last() =~= a);
        lemma_split_no_sep(a, sep);
    } else {
        assert(s.drop_last()[k] == s[k]);
        lemma_split_first(s.drop_last(), k, sep);
        assert(s.drop_last().subrange(0, k) =~= s.subrange(0, k));
    }
}

/// The first separator at or after `i`, given one at `w`.
proof fn first_sep_from(s: Seq<char>, sep: char, i: int, w: int) -> (k: int)
    requires
        0 <= i <= w < s.len(),
        s[w] == sep,
    ensures
        i <= k <= w,
        s[k] == sep,
        forall|m: int| i <= m < k ==> s[m] != sep,
    decreases w - i,
{
    if s[i] == sep {
        i
    } else {
        first_sep_from(s, sep, i + 1, w)
    }
}

proof fn lemma_trim_end_keeps(s: Seq<char>, j: int)
    requires
        0 <= j < s.len(),
        !is_white_space(s[j]),
    ensures
        j < trim_end(s).len() <= s.len(),
        trim_end(s) == s.subrange(0, trim_end(s).len() as int),
    decreases s.len(),
{
    if is_white_space(s.last()) {
        assert(s.drop_last()[j] == s[j]);
        lemma_trim_end_keeps(s.drop_last(), j);
        let e = trim_end(s).len() as int;
        assert(s.drop_last().subrange(0, e) =~= s.subrange(0, e));
    } else {
        assert(s.subrange(0, s.len() as int) =~= s);
    }
}

/// A text that starts with a space and the SPDX marker trims to a text
/// that starts with the marker.
proof fn lemma_marker_after_space(s: Seq<char>)
    requires
        s.len() >= 25,
        s[0] == ' ',
        forall|i: int| 0 <= i < 24 ==> s[i + 1] == #[trigger] spdx_marker()[i],
    ensures
        has_prefix(trim(s), spdx_marker()),
{
    reveal_strlit("SPDX-License-Identifier:");
    let d = s.drop_first();
    assert(d[0] == spdx_marker()[0]);
    assert(trim_start(d) == d);
    assert(trim_start(s) == d);
    assert(d[23] == spdx_marker()[23]);
    lemma_trim_end_keeps(d, 23);
    let u = trim(s);
    assert(u.subrange(0, 24) =~= spdx_marker()) by {
        assert forall|i: int| 0 <= i < 24 implies u.subrange(0, 24)[i] == spdx_marker()[i] by {
            assert(u[i] == d[i]);
            assert(d[i] == s[i + 1]);
        }
    }
}

/// A line that starts with a comment prefix followed by
/// ` SPDX-License-Identifier:` is a header line.
proof fn lemma_marker_line(line: Seq<char>, p: Seq<char>)
    requires
        p == "//"@ || p == "#"@ || p == "--"@ || p == ";;"@,
        line.len() >= p.len() + 25,
        forall|i: int| 0 <= i < p.len() ==> line[i] == p[i],
        forall|i: int| 0 <= i < 25 ==> line[p.len() + i] == #[trigger] " SPDX-License-Identifier: "@[i],
    ensures
        header_value(line) is Some,
        uncommented(line) == trim(trim(line).subrange(p.len() as int, trim(line).len() as int)),
{
    reveal_strlit("//");
    reveal_strlit("#");
    reveal_strlit("--");
    reveal_strlit(";;");
    reveal_strlit(" SPDX-License-Identifier: ");
    reveal_strlit("SPDX-License-Identifier:");
    let n = p.len() as int;
    assert(line[0] == p[0]);
    assert(!is_white_space(line[0]));
    assert(trim_start(line) == line);
    assert(line[n + 24] == " SPDX-License-Identifier: "@[24]);
    lemma_trim_end_keeps(line, n + 24);
    let t = trim(line);
    assert(t.len() > n + 24);
    assert forall|i: int| 0 <= i < t.len() implies t[i] == line[i] by {}
    let rest = t.subrange(n, t.len() as int);
    assert(rest[0] == ' ') by {
        assert(line[n + 0] == " SPDX-License-Identifier: "@[0]);
    }
    assert forall|i: int| 0 <= i < 24 implies rest[i + 1] == #[trigger] spdx_marker()[i] by {
        assert(line[n + (i + 1)] == " SPDX-License-Identifier: "@[i + 1]);
    }
    lemma_marker_after_space(rest);
    if p == "//"@ {
        assert(t.subrange(0, 2) =~= "//"@);
        assert(uncommented(line) == trim(rest));
    } else if p == "#"@ {
        assert(t[0] == '#');
        assert(!has_prefix(t, "//"@)) by {
            if has_prefix(t, "//"@) {
                assert(t.subrange(0, 2)[0] == '/');
            }
        }
        assert(t.subrange(0, 1) =~= "#"@);
        assert(uncommented(line) == trim(rest));
    } else if p == "--"@ {
        assert(t[0] == '-');
        assert(!has_prefix(t, "//"@)) by {
            if has_prefix(t, "//"@) {
                assert(t.subrange(0, 2)[0] == '/');
            }
        }
        assert(!has_prefix(t, "#"@)) by {
            if has_prefix(t, "#"@) {
                assert(t.subrange(0, 1)[0] == '#');
            }
        }
        assert(t.subrange(0, 2) =~= "--"@);
        assert(uncommented(line) == trim(rest));
    } else {
        assert(t[0] == ';');
        assert(!has_prefix(t, "//"@)) by {
            if has_prefix(t, "//"@) {
                assert(t.subrange(0, 2)[0] == '/');
            }
        }
        assert(!has_prefix(t, "#"@)) by {
            if has_prefix(t, "#"@) {
                assert(t.subrange(0, 1)[0] == '#');
            }
        }
        assert(!has_prefix(t, "--"@)) by {
            if has_prefix(t, "--"@) {
                assert(t.subrange(0, 2)[0] == '-');
            }
        }
        assert(t.subrange(0, 2) =~= ";;"@);
        assert(uncommented(line) == trim(rest));
    }
}

/// Adding a header is idempotent: once `with_spdx_header` has added a
/// header, the new content carries one, so a second application adds
/// nothing.
pub proof fn lemma_header_added_once(file: Seq<char>, content: Seq<char>, license: Seq<char>, author: Seq<char>, year: Seq<char>)
    ensures
        match with_header_spec(file, content, license, author, year) {
            Some(s) => with_header_spec(file, s, license, author, year) is None,
            None => true,
        },
{
    if with_header_spec(file, content, license, author, year) is Some {
        reveal_strlit("//");
        reveal_strlit("#");
        reveal_strlit("--");
        reveal_strlit(";;");
        reveal_strlit(" SPDX-License-Identifier: ");
        reveal_strlit("\n");
        let ext = match path_extension(file) {
            Some(e) => e,
            None => Seq::empty(),
        };
        let p = comment_prefix_spec(ext);
        let m = " SPDX-License-Identifier: "@;
        let h = header_block_spec(p, license, year, author) + content;
        let hd = p + m;
        assert(h.subrange(0, hd.len() as int) =~= hd);
        let w: int = (hd.len() + license.len()) as int;
        assert(h[w] == '\n');
        let k = first_sep_from(h, '\n', hd.len() as int, w);
        assert forall|i: int| 0 <= i < k implies h[i] != '\n' by {
            if i < hd.len() {
                assert(h[i] == h.subrange(0, hd.len() as int)[i]);
            }
        }
        lemma_split_first(h, k, '\n');
        let raw = split_on(h, '\n');
        let a = h.subrange(0, k);
        let ls = crate::header::lines_of(h);
        assert(ls[0] == crate::header::strip_cr(a));
        let line = crate::header::strip_cr(a);
        assert(line.len() >= hd.len()) by {
            if k == hd.len() {
                assert(a[a.len() - 1] == ' ');
            }
        }
        assert forall|i: int| 0 <= i < p.len() implies line[i] == p[i] by {
            assert(line[i] == h[i]);
            assert(h[i] == h.subrange(0, hd.len() as int)[i]);
        }
        assert forall|i: int| 0 <= i < 25 implies line[p.len() + i] == #[trigger] m[i] by {
            assert(line[p.len() + i] == h[p.len() + i]);
            assert(h[p.len() + i] == h.subrange(0, hd.len() as int)[p.len() + i]);
        }
        lemma_marker_line(line, p);
        let limit: int = if ls.len() < 15 { ls.len() as int } else { 15 };
        assert(ls.subrange(0, limit)[0] == line);
    }
}

/// The file an action writes.
pub open spec fn action_target(a: ActionView) -> Seq<char> {
    match a {
        ActionView::AddSpdxHeader { file, .. } => file,
        ActionView::CreateFile { path, .. } => path,
    }
}

/// Why an action whose effect is already present is skipped.
pub open spec fn skip_reason(a: ActionView) -> Seq<char> {
    match a {
        ActionView::AddSpdxHeader { .. } => "already has an SPDX header"@,
        ActionView::CreateFile { .. } => "file already exists"@,
    }
}

/// Mathematical model of an [`ApplyOutcome`].
pub struct OutcomeView {
    pub applied: Seq<Seq<char>>,
    pub skipped: Seq<(Seq<char>, Seq<char>)>,
    pub errors: Seq<(Seq<char>, Seq<char>)>,
}

pub open spec fn pair_texts(v: Seq<(String, String)>) -> Seq<(Seq<char>, Seq<char>)> {
    v.map_values(|p: (String, String)| (p.0@, p.1@))
}

pub open spec fn outcome_view(o: ApplyOutcome) -> OutcomeView {
    OutcomeView {
        applied: o.applied@.map_values(|s: String| s@),
        skipped: pair_texts(o.skipped@),
        errors: pair_texts(o.errors@),
    }
}

/// The outcome once one more action has run: `Ok(true)` applied it,
/// `Ok(false)` found its effect already present, `Err` failed with a
/// message.
pub open spec fn record_spec(o: OutcomeView, a: ActionView, result: Result<bool, Seq<char>>) -> OutcomeView {
    match result {
        Ok(true) => OutcomeView { applied: o.applied.push(action_target(a)), ..o },
        Ok(false) => OutcomeView { skipped: o.skipped.push((action_target(a), skip_reason(a))), ..o },
        Err(e) => OutcomeView { errors: o.errors.push((action_target(a), e)), ..o },
    }
}

/// The outcome of running the actions in order with the given results,
/// from an empty outcome.
pub open spec fn outcomes_spec(actions: Seq<ActionView>, results: Seq<Result<bool, Seq<char>>>) -> OutcomeView
    decreases actions.len(),
{
    if actions.len() == 0 || results.len() == 0 {
        OutcomeView { applied: Seq::empty(), skipped: Seq::empty(), errors: Seq::empty() }
    } else {
        record_spec(
            outcomes_spec(actions.drop_last(), results.drop_last()),
            actions.last(),
            results.last(),
        )
    }
}

/// The text view of an action's result.
pub open spec fn result_text(r: Result<bool, String>) -> Result<bool, Seq<char>> {
    match r {
        Ok(b) => Ok(b),
        Err(e) => Err(e@),
    }
}

/// Records the result of running one action.
pub fn record_result(outcome: &mut ApplyOutcome, action: &Action, result: Result<bool, String>)
    ensures
        outcome_view(*final(outcome)) == record_spec(outcome_view(*old(outcome)), action@, result_text(result)),
{
    let target = match action {
        Action::AddSpdxHeader { file, .. } => file.clone(),
        Action::CreateFile { path, .. } => path.clone(),
    };
    let ghost pre = outcome_view(*outcome);
    match result {
        Ok(true) => {
            outcome.applied.push(target);
            assert(outcome_view(*outcome).applied =~= pre.applied.push(action_target(action@)));
            assert(outcome_view(*outcome).skipped =~= pre.skipped);
            assert(outcome_view(*outcome).errors =~= pre.errors);
        },
        Ok(false) => {
            let reason = match action {
                Action::AddSpdxHeader { .. } => String::from_str("already has an SPDX header"),
                Action::CreateFile { .. } => String::from_str("file already exists"),
            };
            outcome.skipped.push((target, reason));
            assert(outcome_view(*outcome).skipped =~= pre.skipped.push(
                (action_target(action@), skip_reason(action@)),
            ));
            assert(outcome_view(*outcome).applied =~= pre.applied);
            assert(outcome_view(*outcome).errors =~= pre.errors);
        },
        Err(e) => {
            let ghost ev = e@;
            outcome.errors.push((target, e));
            assert(outcome_view(*outcome).errors =~= pre.errors.push((action_target(action@), ev)));
            assert(outcome_view(*outcome).applied =~= pre.applied);
            assert(outcome_view(*outcome).skipped =~= pre.skipped);
        },
    }
}

/// Applying a plan records every action exactly once: each action's file
/// goes to exactly one of applied, skipped or errors, in plan order, and
/// a failure does not stop the actions after it.
pub proof fn lemma_every_action_recorded(actions: Seq<ActionView>, results: Seq<Result<bool, Seq<char>>>)
    requires
        actions.len() == results.len(),
    ensures
        outcomes_spec(actions, results).applied.len() + outcomes_spec(actions, results).skipped.len()
            + outcomes_spec(actions, results).errors.len() == actions.len(),
        outcomes_spec(actions, results).applied == applied_targets(actions, results),
    decreases actions.len(),
{
    if actions.len() > 0 {
        lemma_every_action_recorded(actions.drop_last(), results.drop_last());
    }
}

/// The files of the actions whose result is `Ok(true)`, in plan order.
pub open spec fn applied_targets(actions: Seq<ActionView>, results: Seq<Result<bool, Seq<char>>>) -> Seq<Seq<char>>
    decreases actions.len(),
{
    if actions.len() == 0 || results.len() == 0 {
        Seq::empty()
    } else {
        let r = applied_targets(actions.drop_last(), results.drop_last());
        if results.last() == Ok::<bool, Seq<char>>(true) {
            r.push(action_target(actions.last()))
        } else {
            r
        }
    }
}

/// `trim_start` drops exactly a leading run of white space.
proof fn lemma_trim_start_at(y: Seq<char>, k: int)
    requires
        0 <= k <= y.len(),
        forall|i: int| 0 <= i < k ==> is_white_space(#[trigger] y[i]),
        k < y.len() ==> !is_white_space(y[k]),
    ensures
        trim_start(y) == y.subrange(k, y.len() as int),
    decreases k,
{
    if k == 0 {
        assert(y.subrange(0, y.len() as int) =~= y);
    } else {
        let z = y.drop_first();
        assert forall|i: int| 0 <= i < k - 1 implies is_white_space(#[trigger] z[i]) by {
            assert(z[i] == y[i + 1]);
        }
        if k < y.len() {
            assert(z[k - 1] == y[k]);
        }
        lemma_trim_start_at(z, k - 1);
        assert(z.subrange(k - 1, z.len() as int) =~= y.subrange(k, y.len() as int));
    }
}

/// `trim_end` drops exactly a trailing run of white space.
proof fn lemma_trim_end_at(y: Seq<char>, j: int)
    requires
        0 <= j <= y.len(),
        forall|i: int| j <= i < y.len() ==> is_white_space(#[trigger] y[i]),
        j > 0 ==> !is_white_space(y[j - 1]),
    ensures
        trim_end(y) == y.subrange(0, j),
    decreases y.len() - j,
{
    if j == y.len() {
        assert(y.subrange(0, j) =~= y);
        if y.len() > 0 {
            assert(y.last() == y[j - 1]);
        }
    } else {
        let z = y.drop_last();
        assert(is_white_space(y[y.len() - 1]));
        assert forall|i: int| j <= i < z.len() implies is_white_space(#[trigger] z[i]) by {
            assert(z[i] == y[i]);
        }
        if j > 0 {
            assert(z[j - 1] == y[j - 1]);
        }
        lemma_trim_end_at(z, j);
        assert(z.subrange(0, j) =~= y.subrange(0, j));
    }
}

/// The first position that is not white space (or the length).
proof fn first_non_ws(y: Seq<char>, k: int) -> (r: int)
    requires
        0 <= k <= y.len(),
        forall|i: int| 0 <= i < k ==> is_white_space(#[trigger] y[i]),
    ensures
        k <= r <= y.len(),
        forall|i: int| 0 <= i < r ==> is_white_space(#[trigger] y[i]),
        r < y.len() ==> !is_white_space(y[r]),
    decreases y.len() - k,
{
    if k == y.len() || !is_white_space(y[k]) {
        k
    } else {
        first_non_ws(y, k + 1)
    }
}

/// One past the last position that is not white space (or 0).
proof fn last_non_ws(y: Seq<char>, j: int) -> (r: int)
    requires
        0 <= j <= y.len(),
        forall|i: int| j <= i < y.len() ==> is_white_space(#[trigger] y[i]),
    ensures
        0 <= r <= j,
        forall|i: int| r <= i < y.len() ==> is_white_space(#[trigger] y[i]),
        r > 0 ==> !is_white_space(y[r - 1]),
    decreases j,
{
    if j == 0 || !is_white_space(y[j - 1]) {
        j
    } else {
        last_non_ws(y, j - 1)
    }
}

/// Trimming the end first or the start first gives the same.
proof fn lemma_trim_commutes(y: Seq<char>)
    ensures
        trim_start(trim_end(y)) == trim(y),
{
    let k = first_non_ws(y, 0);
    let j = last_non_ws(y, y.len() as int);
    lemma_trim_start_at(y, k);
    lemma_trim_end_at(y, j);
    if k < j {
        let e = y.subrange(0, j);
        assert forall|i: int| 0 <= i < k implies is_white_space(#[trigger] e[i]) by {
            assert(e[i] == y[i]);
        }
        assert(e[k] == y[k]);
        lemma_trim_start_at(e, k);
        let st = y.subrange(k, y.len() as int);
        assert forall|i: int| j - k <= i < st.len() implies is_white_space(#[trigger] st[i]) by {
            assert(st[i] == y[i + k]);
        }
        assert(st[j - k - 1] == y[j - 1]);
        lemma_trim_end_at(st, j - k);
        assert(e.subrange(k, e.len() as int) =~= st.subrange(0, j - k));
    } else {
        // no character that is not white space: both sides are empty
        if j > 0 {
            assert(!is_white_space(y[j - 1]));
            assert(j - 1 < k);
        }
        let e = y.subrange(0, j);
        assert forall|i: int| 0 <= i < e.len() implies is_white_space(#[trigger] e[i]) by {
            assert(e[i] == y[i]);
        }
        lemma_trim_start_at(e, e.len() as int);
        let st = y.subrange(k, y.len() as int);
        assert forall|i: int| 0 <= i < st.len() implies is_white_space(#[trigger] st[i]) by {
            assert(st[i] == y[i + k]);
        }
        lemma_trim_end_at(st, 0);
    }
}

/// Reading a header back gives what was written: for any comment prefix
/// (as `comment_prefix` chooses it), any text `s` without a line break and
/// any following content, the SPDX header found in
/// `prefix + " SPDX-License-Identifier: " + s + "\n" + body` is `s`
/// trimmed, so `extract_spdx_from_content` gives the parse of that text.
#[verifier::spinoff_prover]
#[verifier::rlimit(60)]
pub proof fn lemma_header_round_trip(ext: Seq<char>, s: Seq<char>, body: Seq<char>)
    requires
        forall|i: int| 0 <= i < s.len() ==> s[i] != '\n',
    ensures
        raw_header(comment_prefix_spec(ext) + " SPDX-License-Identifier: "@ + s + "\n"@ + body)
            == Some(trim(s)),
{
    reveal_strlit("//");
    reveal_strlit("#");
    reveal_strlit("--");
    reveal_strlit(";;");
    reveal_strlit(" SPDX-License-Identifier: ");
    reveal_strlit("SPDX-License-Identifier:");
    reveal_strlit("\n");
    let p = comment_prefix_spec(ext);
    let m = " SPDX-License-Identifier: "@;
    let x = p + m;
    let n = x.len() as int;
    let pn = p.len() as int;
    let h = x + s + "\n"@ + body;
    let k = n + s.len();
    assert(h[k] == '\n');
    assert forall|i: int| 0 <= i < k implies h[i] != '\n' by {
        if i < n {
            assert(h[i] == x[i]);
            if i < pn {
                assert(x[i] == p[i]);
            } else {
                assert(x[i] == m[i - pn]);
            }
        } else {
            assert(h[i] == s[i - n]);
        }
    }
    lemma_split_first(h, k, '\n');
    let a = h.subrange(0, k);
    assert(a =~= x + s);
    let ls = crate::header::lines_of(h);
    let line = crate::header::strip_cr(a);
    assert(ls[0] == line);
    let s1 = crate::header::strip_cr(s);
    assert(line =~= x + s1) by {
        if s.len() > 0 {
            assert((x + s).last() == s.last());
            assert((x + s).drop_last() =~= x + s.drop_last());
        } else {
            assert(a =~= x);
            assert(x.last() == ' ');
        }
    }
    assert(trim_end(s1) == trim_end(s)) by {
        if s.len() > 0 && s.last() == '\r' {
            assert(is_white_space(s.last()));
        }
    }
    let j1 = last_non_ws(s1, s1.len() as int);
    lemma_trim_end_at(s1, j1);
    let e = s1.subrange(0, j1);
    assert(line[0] == p[0]);
    lemma_trim_start_at(line, 0);
    assert(trim_start(line) =~= line);
    // what trimming the line leaves
    if j1 > 0 {
        assert forall|i: int| n + j1 <= i < line.len() implies is_white_space(#[trigger] line[i]) by {
            assert(line[i] == s1[i - n]);
        }
        assert(line[n + j1 - 1] == s1[j1 - 1]);
        lemma_trim_end_at(line, n + j1);
    } else {
        assert forall|i: int| n - 1 <= i < line.len() implies is_white_space(#[trigger] line[i]) by {
            if i == n - 1 {
                assert(line[i] == m[25]);
            } else {
                assert(line[i] == s1[i - n]);
            }
        }
        assert(line[n - 2] == m[24]);
        lemma_trim_end_at(line, n - 1);
    }
    let t = trim(line);
    assert forall|i: int| 0 <= i < pn implies line[i] == p[i] by {}
    assert forall|i: int| 0 <= i < 25 implies line[pn + i] == #[trigger] m[i] by {
        assert(line[pn + i] == x[pn + i]);
    }
    lemma_marker_line(line, p);
    let rest = t.subrange(pn, t.len() as int);
    assert(rest[0] == ' ') by {
        assert(rest[0] == line[pn]);
        assert(line[pn] == m[0]);
    }
    assert(rest[1] == 'S') by {
        assert(rest[1] == line[pn + 1]);
        assert(line[pn + 1] == m[1]);
    }
    lemma_trim_start_at(rest, 1);
    let d = rest.subrange(1, rest.len() as int);
    assert(d.len() >= 24);
    assert(!is_white_space(d[d.len() - 1])) by {
        if j1 > 0 {
            assert(d[d.len() - 1] == line[n + j1 - 1]);
        } else {
            assert(d[d.len() - 1] == line[n - 2]);
        }
    }
    lemma_trim_end_at(d, d.len() as int);
    assert(d.subrange(0, d.len() as int) =~= d);
    assert(uncommented(line) == d);
    assert(d.subrange(0, 24) =~= spdx_marker()) by {
        assert forall|i: int| 0 <= i < 24 implies d[i] == spdx_marker()[i] by {
            assert(d[i] == line[pn + 1 + i]);
            assert(line[pn + 1 + i] == m[1 + i]);
        }
    }
    let w = d.subrange(24, d.len() as int);
    assert(crate::header::header_value(line) == Some(trim(w)));
    lemma_trim_commutes(s);
    if j1 > 0 {
        assert(w.len() == j1 + 1);
        assert(w[0] == ' ') by {
            assert(w[0] == line[n - 1]);
            assert(line[n - 1] == m[25]);
        }
        assert forall|i: int| 0 <= i < j1 implies w[i + 1] == #[trigger] e[i] by {
            assert(w[i + 1] == line[n + i]);
        }
        let ke = first_non_ws(e, 0);
        assert(!is_white_space(e[j1 - 1]));
        lemma_trim_start_at(e, ke);
        assert forall|i: int| 0 <= i < 1 + ke implies is_white_space(#[trigger] w[i]) by {
            if i > 0 {
                assert(w[i] == e[i - 1]);
            }
        }
        if 1 + ke < w.len() {
            assert(w[1 + ke] == e[ke]);
        }
        lemma_trim_start_at(w, 1 + ke);
        let ws = w.subrange(1 + ke, w.len() as int);
        assert(ws =~= e.subrange(ke, e.len() as int)) by {
            assert forall|i: int| 0 <= i < ws.len() implies ws[i] == e.subrange(ke, e.len() as int)[i] by {
                assert(ws[i] == w[1 + ke + i]);
            }
        }
        assert(!is_white_space(ws[ws.len() - 1])) by {
            assert(ws[ws.len() - 1] == e[j1 - 1]);
        }
        lemma_trim_end_at(ws, ws.len() as int);
        assert(ws.subrange(0, ws.len() as int) =~= ws);
    } else {
        assert(w.len() == 0);
        assert(e.len() == 0);
        assert(trim(w) =~= Seq::<char>::empty());
        assert(trim_start(e) =~= Seq::<char>::empty());
    }
    let limit: int = if ls.len() < 15 { ls.len() as int } else { 15 };
    assert(ls.subrange(0, limit)[0] == line);
}


/// White space around an SPDX expression text changes neither its tokens
/// nor its parse, provided no white space character of the text counts as
/// alphanumeric. On ASCII the library knows that it does not; for the other
/// Unicode white space characters it is a fact of the Unicode tables that
/// the wrapper of `char::is_alphanumeric` does not state.
pub proof fn lemma_parse_ignores_surrounding_space(s: Seq<char>)
    requires
        forall|i: int| 0 <= i < s.len() && is_white_space(#[trigger] s[i]) ==> !alphanumeric(s[i]),
    ensures
        lex(trim(s)) == lex(s),
        parse_spec(trim(s)) == parse_spec(s),
{
    let n = s.len() as int;
    let k = first_non_ws(s, 0);
    let j = last_non_ws(s, n);
    lemma_trim_start_at(s, k);
    let st = s.subrange(k, n);
    let m: int = if k < j { j } else { k };
    if k < j {
        assert forall|i: int| j - k <= i < st.len() implies is_white_space(#[trigger] st[i]) by {
            assert(st[i] == s[i + k]);
        }
        assert(st[j - k - 1] == s[j - 1]);
        lemma_trim_end_at(st, j - k);
        assert(st.subrange(0, j - k) =~= s.subrange(k, j));
    } else {
        if j > 0 {
            assert(!is_white_space(s[j - 1]));
        }
        assert forall|i: int| 0 <= i < st.len() implies is_white_space(#[trigger] st[i]) by {
            assert(st[i] == s[i + k]);
        }
        lemma_trim_end_at(st, 0);
        assert(st.subrange(0, 0) =~= s.subrange(k, k));
    }
    assert(trim(s) == s.subrange(k, m));
    assert forall|i: int| m <= i < s.len() implies is_white_space(#[trigger] s[i]) && !is_word_char(s[i]) by {
        assert(is_white_space(s[i]));
    }
    lemma_lex_window(s, k as nat, m as nat, 0);
    lemma_lex_skip_space(s, 0, k as nat);
}

/// Reading back a header gives the parse of the value that was written:
/// the header found in `prefix + " SPDX-License-Identifier: " + s + "\n" +
/// body` parses exactly as `s` does (for `s` without a line break, and
/// whose white space is not alphanumeric; see the lemma above).
pub proof fn lemma_header_reads_back_value(ext: Seq<char>, s: Seq<char>, body: Seq<char>)
    requires
        forall|i: int| 0 <= i < s.len() ==> s[i] != '\n',
        forall|i: int| 0 <= i < s.len() && is_white_space(#[trigger] s[i]) ==> !alphanumeric(s[i]),
    ensures
        raw_header(comment_prefix_spec(ext) + " SPDX-License-Identifier: "@ + s + "\n"@ + body)
            matches Some(v) && parse_spec(v) == parse_spec(s),
{
    lemma_header_round_trip(ext, s, body);
    lemma_parse_ignores_surrounding_space(s);
}

} // verus!

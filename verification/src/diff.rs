//! The difference between two fact snapshots: exactly what changed in the
//! repository as far as policy evaluation is concerned.
use vstd::prelude::*;
use crate::facts::{FactSet, GitFacts, header_lookup, keys_of, metadata_lookup, opt_clone, opt_str_eq, opt_text, texts};
use crate::order::{str_less, str_lt, strictly_sorted};
use crate::text::str_eq;

verus! {

/// A value that changed between two snapshots.
#[derive(Debug, Clone, PartialEq, Eq)]
pub struct Changed<T> {
    pub before: T,
    pub after: T,
}

/// A per-file SPDX header transition.
#[derive(Debug, Clone, PartialEq, Eq)]
pub struct HeaderChange {
    pub file: String,
    /// `None`: no header (or no file) in that snapshot.
    pub before: Option<String>,
    pub after: Option<String>,
}

/// A governance metadata transition.
#[derive(Debug, Clone, PartialEq, Eq)]
pub struct MetadataChange {
    pub key: String,
    /// `None`: key absent in that snapshot.
    pub before: Option<String>,
    pub after: Option<String>,
}

/// Mathematical model of a header or metadata transition.
pub struct ChangeView {
    pub name: Seq<char>,
    pub before: Option<Seq<char>>,
    pub after: Option<Seq<char>>,
}

impl HeaderChange {
    pub open spec fn view_of(self) -> ChangeView {
        ChangeView { name: self.file@, before: opt_text(self.before), after: opt_text(self.after) }
    }
}

impl MetadataChange {
    pub open spec fn view_of(self) -> ChangeView {
        ChangeView { name: self.key@, before: opt_text(self.before), after: opt_text(self.after) }
    }
}

/// The views of header transitions.
pub open spec fn header_changes(v: Seq<HeaderChange>) -> Seq<ChangeView> {
    v.map_values(|h: HeaderChange| h.view_of())
}

/// The views of metadata transitions.
pub open spec fn metadata_changes(v: Seq<MetadataChange>) -> Seq<ChangeView> {
    v.map_values(|m: MetadataChange| m.view_of())
}

/// The difference between two snapshots.
#[derive(Debug, Clone, PartialEq, Eq)]
pub struct FactsDiff {
    pub root_before: String,
    pub root_after: String,
    /// Files present after but not before.
    pub files_added: Vec<String>,
    /// Files present before but not after.
    pub files_removed: Vec<String>,
    /// Header transitions on files present in both snapshots.
    pub headers_changed: Vec<HeaderChange>,
    /// Metadata keys added, removed or changed.
    pub metadata_changed: Vec<MetadataChange>,
    /// The git state, when it changed.
    pub git_changed: Option<Changed<GitFacts>>,
}

impl FactsDiff {
    /// No change at all (the roots may differ).
    pub open spec fn no_changes(&self) -> bool {
        &&& self.files_added@.len() == 0
        &&& self.files_removed@.len() == 0
        &&& self.headers_changed@.len() == 0
        &&& self.metadata_changed@.len() == 0
        &&& self.git_changed is None
    }

    /// True when the two snapshots describe identical repository state.
    pub fn is_empty(&self) -> (r: bool)
        ensures
            r == self.no_changes(),
    {
        self.files_added.len() == 0 && self.files_removed.len() == 0
            && self.headers_changed.len() == 0 && self.metadata_changed.len() == 0
            && self.git_changed.is_none()
    }

    /// Total number of recorded changes.
    pub fn change_count(&self) -> (r: usize)
        requires
            self.files_added@.len() + self.files_removed@.len() + self.headers_changed@.len()
                + self.metadata_changed@.len() + 1 <= usize::MAX,
        ensures
            r == self.files_added@.len() + self.files_removed@.len() + self.headers_changed@.len()
                + self.metadata_changed@.len() + (if self.git_changed is Some { 1int } else { 0int }),
            r == 0 <==> self.no_changes(),
    {
        let git: usize = if self.git_changed.is_some() {
            1
        } else {
            0
        };
        self.files_added.len() + self.files_removed.len() + self.headers_changed.len()
            + self.metadata_changed.len() + git
    }
}

/// The texts of `xs` that `ys` lacks, in the order of `xs`.
pub open spec fn missing_from(xs: Seq<Seq<char>>, ys: Seq<Seq<char>>) -> Seq<Seq<char>>
    decreases xs.len(),
{
    if xs.len() == 0 {
        seq![]
    } else {
        let rest = missing_from(xs.drop_last(), ys);
        if ys.contains(xs.last()) {
            rest
        } else {
            rest.push(xs.last())
        }
    }
}

/// The header entry as an optional header (no entry = no header).
pub open spec fn header_after(v: Seq<(String, Option<String>)>, file: Seq<char>) -> Option<Seq<char>> {
    match header_lookup(v, file) {
        Some(h) => h,
        None => None,
    }
}

/// Header transitions of files that had an entry before and still exist.
pub open spec fn changed_entries(
    entries: Seq<(String, Option<String>)>,
    after: FactSet,
) -> Seq<ChangeView>
    decreases entries.len(),
{
    if entries.len() == 0 {
        seq![]
    } else {
        let rest = changed_entries(entries.drop_last(), after);
        let (file, bh) = entries.last();
        let ah = header_after(after.spdx_headers@, file@);
        if texts(after.files@).contains(file@) && opt_text(bh) != ah {
            rest.push(ChangeView { name: file@, before: opt_text(bh), after: ah })
        } else {
            rest
        }
    }
}

/// Headers of files that existed before without an entry, and now have one.
pub open spec fn gained_entries(entries: Seq<(String, Option<String>)>, before: FactSet) -> Seq<
    ChangeView,
>
    decreases entries.len(),
{
    if entries.len() == 0 {
        seq![]
    } else {
        let rest = gained_entries(entries.drop_last(), before);
        let (file, ah) = entries.last();
        if texts(before.files@).contains(file@) && !keys_of(before.spdx_headers@).contains(file@)
            && ah is Some {
            rest.push(ChangeView { name: file@, before: None, after: opt_text(ah) })
        } else {
            rest
        }
    }
}

/// Merge two sequences ordered by name (ties keep the first sequence's
/// element first): a stable sort of their concatenation when both are
/// sorted.
pub open spec fn merge_changes(xs: Seq<ChangeView>, ys: Seq<ChangeView>) -> Seq<ChangeView>
    decreases xs.len() + ys.len(),
{
    if xs.len() == 0 {
        ys
    } else if ys.len() == 0 {
        xs
    } else if str_lt(ys[0].name, xs[0].name) {
        seq![ys[0]] + merge_changes(xs, ys.drop_first())
    } else {
        seq![xs[0]] + merge_changes(xs.drop_first(), ys)
    }
}

/// The union of two ascending key sequences, ascending, each key once.
pub open spec fn union_keys(xs: Seq<Seq<char>>, ys: Seq<Seq<char>>) -> Seq<Seq<char>>
    decreases xs.len() + ys.len(),
{
    if xs.len() == 0 {
        ys
    } else if ys.len() == 0 {
        xs
    } else if xs[0] == ys[0] {
        seq![xs[0]] + union_keys(xs.drop_first(), ys.drop_first())
    } else if str_lt(xs[0], ys[0]) {
        seq![xs[0]] + union_keys(xs.drop_first(), ys)
    } else {
        seq![ys[0]] + union_keys(xs, ys.drop_first())
    }
}

/// Metadata transitions over a sequence of keys.
pub open spec fn metadata_diff(keys: Seq<Seq<char>>, before: FactSet, after: FactSet) -> Seq<
    ChangeView,
>
    decreases keys.len(),
{
    if keys.len() == 0 {
        seq![]
    } else {
        let rest = metadata_diff(keys.drop_last(), before, after);
        let k = keys.last();
        let b = metadata_lookup(before.metadata@, k);
        let a = metadata_lookup(after.metadata@, k);
        if b != a {
            rest.push(ChangeView { name: k, before: b, after: a })
        } else {
            rest
        }
    }
}

/// The git states differ.
pub open spec fn git_differs(a: GitFacts, b: GitFacts) -> bool {
    a.is_repo != b.is_repo || opt_text(a.head_ref) != opt_text(b.head_ref)
}

fn files_missing(xs: &Vec<String>, other: &FactSet) -> (r: Vec<String>)
    ensures
        texts(r@) == missing_from(texts(xs@), texts(other.files@)),
{
    let mut r: Vec<String> = Vec::new();
    let mut i: usize = 0;
    while i < xs.len()
        invariant
            i <= xs@.len(),
            texts(r@) == missing_from(texts(xs@).subrange(0, i as int), texts(other.files@)),
        decreases xs@.len() - i,
    {
        let ghost pre = texts(xs@).subrange(0, i + 1);
        assert(pre.drop_last() =~= texts(xs@).subrange(0, i as int));
        assert(pre.last() == xs@[i as int]@);
        if !other.has_file(xs[i].as_str()) {
            r.push(xs[i].clone());
            assert(texts(r@) =~= missing_from(pre, texts(other.files@)));
        }
        i = i + 1;
    }
    assert(texts(xs@).subrange(0, xs@.len() as int) =~= texts(xs@));
    r
}

fn header_change_copy(h: &HeaderChange) -> (r: HeaderChange)
    ensures
        r.view_of() == h.view_of(),
{
    HeaderChange { file: h.file.clone(), before: opt_clone(&h.before), after: opt_clone(&h.after) }
}

#[verifier::loop_isolation(false)]
fn merge_header_changes(xs: &Vec<HeaderChange>, ys: &Vec<HeaderChange>) -> (r: Vec<HeaderChange>)
    ensures
        header_changes(r@) == merge_changes(header_changes(xs@), header_changes(ys@)),
{
    let ghost hx = header_changes(xs@);
    let ghost hy = header_changes(ys@);
    let mut r: Vec<HeaderChange> = Vec::new();
    let mut i: usize = 0;
    let mut j: usize = 0;
    assert(hx.subrange(0, hx.len() as int) =~= hx);
    assert(hy.subrange(0, hy.len() as int) =~= hy);
    while i < xs.len() || j < ys.len()
        invariant
            i <= xs@.len(),
            j <= ys@.len(),
            header_changes(r@) + merge_changes(
                hx.subrange(i as int, hx.len() as int),
                hy.subrange(j as int, hy.len() as int),
            ) == merge_changes(hx, hy),
        decreases xs@.len() - i + ys@.len() - j,
    {
        let ghost sx = hx.subrange(i as int, hx.len() as int);
        let ghost sy = hy.subrange(j as int, hy.len() as int);
        let ghost old_r = header_changes(r@);
        if i < xs.len() && j < ys.len() {
            assert(sx[0] == xs@[i as int].view_of());
            assert(sy[0] == ys@[j as int].view_of());
        }
        if i >= xs.len() || (j < ys.len() && str_less(ys[j].file.as_str(), xs[i].file.as_str())) {
            r.push(header_change_copy(&ys[j]));
            assert(sy.drop_first() =~= hy.subrange(j + 1, hy.len() as int));
            assert(header_changes(r@) =~= old_r.push(ys@[j as int].view_of()));
            if i >= xs.len() {
                assert(sx.len() == 0);
                assert(sy =~= seq![sy[0]] + sy.drop_first());
            }
            j = j + 1;
        } else {
            r.push(header_change_copy(&xs[i]));
            assert(sx.drop_first() =~= hx.subrange(i + 1, hx.len() as int));
            assert(header_changes(r@) =~= old_r.push(xs@[i as int].view_of()));
            if j >= ys.len() {
                assert(sy.len() == 0);
                assert(sx =~= seq![sx[0]] + sx.drop_first());
                assert(merge_changes(sx.drop_first(), sy) == sx.drop_first());
            }
            i = i + 1;
        }
    }
    r
}

/// Compute the difference between two fact snapshots.
#[verifier::loop_isolation(false)]
pub fn diff(before: &FactSet, after: &FactSet) -> (d: FactsDiff)
    ensures
        d.root_before@ == before.root@,
        d.root_after@ == after.root@,
        texts(d.files_added@) == files_added_spec(*before, *after),
        texts(d.files_removed@) == files_removed_spec(*before, *after),
        header_changes(d.headers_changed@) == merge_changes(
            changed_entries(before.spdx_headers@, *after),
            gained_entries(after.spdx_headers@, *before),
        ),
        metadata_changes(d.metadata_changed@) == metadata_diff(
            union_keys(keys_of(before.metadata@), keys_of(after.metadata@)),
            *before,
            *after,
        ),
        git_differs(before.git, after.git) <==> d.git_changed is Some,
        d.git_changed matches Some(c) ==> (c.before.is_repo == before.git.is_repo && opt_text(
            c.before.head_ref,
        ) == opt_text(before.git.head_ref) && c.after.is_repo == after.git.is_repo && opt_text(
            c.after.head_ref,
        ) == opt_text(after.git.head_ref)),
{
    let files_added = files_missing(&after.files, before);
    let files_removed = files_missing(&before.files, after);
    // Header transitions of files that had an entry before and still exist.
    let mut first: Vec<HeaderChange> = Vec::new();
    let mut i: usize = 0;
    while i < before.spdx_headers.len()
        invariant
            i <= before.spdx_headers@.len(),
            header_changes(first@) == changed_entries(
                before.spdx_headers@.subrange(0, i as int),
                *after,
            ),
        decreases before.spdx_headers@.len() - i,
    {
        let ghost pre = before.spdx_headers@.subrange(0, i + 1);
        assert(pre.drop_last() =~= before.spdx_headers@.subrange(0, i as int));
        let (file, bh) = &before.spdx_headers[i];
        if after.has_file(file.as_str()) {
            let ah: Option<String> = match after.header_of(file.as_str()) {
                Some(h) => opt_clone(h),
                None => None,
            };
            if !opt_str_eq(bh, &ah) {
                let ghost old_f = header_changes(first@);
                first.push(HeaderChange { file: file.clone(), before: opt_clone(bh), after: ah });
                assert(header_changes(first@) =~= old_f.push(first@.last().view_of()));
            }
        }
        i = i + 1;
    }
    assert(before.spdx_headers@.subrange(0, before.spdx_headers@.len() as int)
        =~= before.spdx_headers@);
    // Files that existed before without an entry and now have a header.
    let mut second: Vec<HeaderChange> = Vec::new();
    let mut k: usize = 0;
    while k < after.spdx_headers.len()
        invariant
            k <= after.spdx_headers@.len(),
            header_changes(second@) == gained_entries(
                after.spdx_headers@.subrange(0, k as int),
                *before,
            ),
        decreases after.spdx_headers@.len() - k,
    {
        let ghost pre = after.spdx_headers@.subrange(0, k + 1);
        assert(pre.drop_last() =~= after.spdx_headers@.subrange(0, k as int));
        let (file, ah) = &after.spdx_headers[k];
        if before.has_file(file.as_str()) && before.header_of(file.as_str()).is_none()
            && ah.is_some() {
            proof {
                if keys_of(before.spdx_headers@).contains(file@) {
                    let w = choose|w: int|
                        0 <= w < keys_of(before.spdx_headers@).len() && keys_of(
                            before.spdx_headers@,
                        )[w] == file@;
                    lemma_lookup_found(before.spdx_headers@, file@, w);
                }
            }
            let ghost old_s = header_changes(second@);
            second.push(HeaderChange { file: file.clone(), before: None, after: opt_clone(ah) });
            assert(header_changes(second@) =~= old_s.push(second@.last().view_of()));
        } else {
            proof {
                if !keys_of(before.spdx_headers@).contains(file@) {
                    lemma_lookup_missing(before.spdx_headers@, file@);
                }
            }
        }
        k = k + 1;
    }
    assert(after.spdx_headers@.subrange(0, after.spdx_headers@.len() as int)
        =~= after.spdx_headers@);
    let headers_changed = merge_header_changes(&first, &second);
    // Metadata: the union of keys, in order; record every difference.
    let metadata_changed = diff_metadata(before, after);
    let git_changed = if !before.git.same(&after.git) {
        Some(Changed { before: before.git.duplicate(), after: after.git.duplicate() })
    } else {
        None
    };
    FactsDiff {
        root_before: before.root.clone(),
        root_after: after.root.clone(),
        files_added,
        files_removed,
        headers_changed,
        metadata_changed,
        git_changed,
    }
}

proof fn lemma_lookup_found(v: Seq<(String, Option<String>)>, key: Seq<char>, w: int)
    requires
        0 <= w < v.len(),
        keys_of(v)[w] == key,
    ensures
        header_lookup(v, key) is Some,
    decreases w,
{
    if v[0].0@ != key {
        assert(keys_of(v.drop_first())[w - 1] == keys_of(v)[w]);
        lemma_lookup_found(v.drop_first(), key, w - 1);
    }
}

proof fn lemma_lookup_missing(v: Seq<(String, Option<String>)>, key: Seq<char>)
    requires
        !keys_of(v).contains(key),
    ensures
        header_lookup(v, key) is None,
    decreases v.len(),
{
    if v.len() > 0 {
        assert(keys_of(v)[0] == v[0].0@);
        assert forall|w: int| 0 <= w < keys_of(v.drop_first()).len() implies keys_of(
            v.drop_first(),
        )[w] != key by {
            assert(keys_of(v)[w + 1] == keys_of(v.drop_first())[w]);
        }
        lemma_lookup_missing(v.drop_first(), key);
    }
}

fn meta_change(key: &String, before: &FactSet, after: &FactSet) -> (r: Option<MetadataChange>)
    ensures
        ({
            let b = metadata_lookup(before.metadata@, key@);
            let a = metadata_lookup(after.metadata@, key@);
            match r {
                Some(m) => b != a && m.view_of() == ChangeView { name: key@, before: b, after: a },
                None => b == a,
            }
        }),
{
    let b: Option<String> = match before.metadata_value(key.as_str()) {
        Some(v) => Some(v.clone()),
        None => None,
    };
    let a: Option<String> = match after.metadata_value(key.as_str()) {
        Some(v) => Some(v.clone()),
        None => None,
    };
    if !opt_str_eq(&b, &a) {
        Some(MetadataChange { key: key.clone(), before: b, after: a })
    } else {
        None
    }
}

#[verifier::loop_isolation(false)]
fn diff_metadata(before: &FactSet, after: &FactSet) -> (r: Vec<MetadataChange>)
    ensures
        metadata_changes(r@) == metadata_diff(
            union_keys(keys_of(before.metadata@), keys_of(after.metadata@)),
            *before,
            *after,
        ),
{
    let ghost kx = keys_of(before.metadata@);
    let ghost ky = keys_of(after.metadata@);
    let ghost all = union_keys(kx, ky);
    let mut r: Vec<MetadataChange> = Vec::new();
    let mut i: usize = 0;
    let mut j: usize = 0;
    let ghost done: Seq<Seq<char>> = seq![];
    assert(kx.subrange(0, kx.len() as int) =~= kx);
    assert(ky.subrange(0, ky.len() as int) =~= ky);
    while i < before.metadata.len() || j < after.metadata.len()
        invariant
            i <= kx.len(),
            j <= ky.len(),
            kx == keys_of(before.metadata@),
            ky == keys_of(after.metadata@),
            done + union_keys(kx.subrange(i as int, kx.len() as int), ky.subrange(j as int, ky.len() as int))
                == all,
            metadata_changes(r@) == metadata_diff(done, *before, *after),
        decreases kx.len() - i + ky.len() - j,
    {
        let ghost sx = kx.subrange(i as int, kx.len() as int);
        let ghost sy = ky.subrange(j as int, ky.len() as int);
        let key: &String;
        if i < before.metadata.len() && j < after.metadata.len() {
            assert(sx[0] == before.metadata@[i as int].0@);
            assert(sy[0] == after.metadata@[j as int].0@);
            if str_eq(before.metadata[i].0.as_str(), after.metadata[j].0.as_str()) {
                key = &before.metadata[i].0;
                assert(sx.drop_first() =~= kx.subrange(i + 1, kx.len() as int));
                assert(sy.drop_first() =~= ky.subrange(j + 1, ky.len() as int));
                i = i + 1;
                j = j + 1;
            } else if str_less(before.metadata[i].0.as_str(), after.metadata[j].0.as_str()) {
                key = &before.metadata[i].0;
                assert(sx.drop_first() =~= kx.subrange(i + 1, kx.len() as int));
                i = i + 1;
            } else {
                key = &after.metadata[j].0;
                assert(sy.drop_first() =~= ky.subrange(j + 1, ky.len() as int));
                j = j + 1;
            }
        } else if i < before.metadata.len() {
            assert(sx[0] == before.metadata@[i as int].0@);
            key = &before.metadata[i].0;
            assert(sx.drop_first() =~= kx.subrange(i + 1, kx.len() as int));
            assert(sy.len() == 0);
            assert(union_keys(sx, sy) == sx);
            assert(union_keys(sx.drop_first(), sy) == sx.drop_first());
            assert(sx =~= seq![sx[0]] + sx.drop_first());
            i = i + 1;
        } else {
            assert(sy[0] == after.metadata@[j as int].0@);
            key = &after.metadata[j].0;
            assert(sy.drop_first() =~= ky.subrange(j + 1, ky.len() as int));
            assert(sx.len() == 0);
            assert(sy =~= seq![sy[0]] + sy.drop_first());
            j = j + 1;
        }
        let ghost old_done = done;
        proof {
            done = done.push(key@);
            assert(done.drop_last() =~= old_done);
        }
        let ghost old_r = metadata_changes(r@);
        match meta_change(key, before, after) {
            Some(m) => {
                r.push(m);
                assert(metadata_changes(r@) =~= old_r.push(r@.last().view_of()));
            },
            None => {},
        }
        assert(done + union_keys(kx.subrange(i as int, kx.len() as int), ky.subrange(j as int, ky.len() as int))
            =~= old_done + union_keys(sx, sy));
    }
    assert(done =~= all);
    r
}

/// A snapshot compared with itself shows no change.
pub proof fn lemma_diff_identity_empty(f: FactSet)
    requires
        f.wf(),
    ensures
        files_added_spec(f, f).len() == 0,
        files_removed_spec(f, f).len() == 0,
        changed_entries(f.spdx_headers@, f).len() == 0,
        gained_entries(f.spdx_headers@, f).len() == 0,
        metadata_diff(union_keys(keys_of(f.metadata@), keys_of(f.metadata@)), f, f).len() == 0,
        !git_differs(f.git, f.git),
{
    lemma_missing_self(texts(f.files@), texts(f.files@).len() as int, texts(f.files@));
    assert(texts(f.files@).subrange(0, texts(f.files@).len() as int) =~= texts(f.files@));
    assert(f.spdx_headers@.subrange(0, f.spdx_headers@.len() as int) =~= f.spdx_headers@);
    lemma_changed_self(f.spdx_headers@, f);
    lemma_gained_self(f.spdx_headers@, f);
    lemma_union_self(keys_of(f.metadata@));
    lemma_metadata_self(keys_of(f.metadata@), f);
}

proof fn lemma_missing_self(xs: Seq<Seq<char>>, n: int, ys: Seq<Seq<char>>)
    requires
        0 <= n <= xs.len(),
        xs == ys,
    ensures
        missing_from(xs.subrange(0, n), ys).len() == 0,
    decreases n,
{
    if n > 0 {
        let pre = xs.subrange(0, n);
        assert(pre.drop_last() =~= xs.subrange(0, n - 1));
        assert(ys[n - 1] == pre.last());
        lemma_missing_self(xs, n - 1, ys);
    }
    if n == xs.len() {
        assert(xs.subrange(0, n) =~= xs);
    }
}

proof fn lemma_changed_self(v: Seq<(String, Option<String>)>, f: FactSet)
    requires
        f.wf(),
        v.len() <= f.spdx_headers@.len(),
        v == f.spdx_headers@.subrange(0, v.len() as int),
    ensures
        changed_entries(v, f).len() == 0,
    decreases v.len(),
{
    if v.len() > 0 {
        let n = v.len() - 1;
        assert(v.drop_last() =~= f.spdx_headers@.subrange(0, n));
        lemma_changed_self(v.drop_last(), f);
        lemma_lookup_unique(f.spdx_headers@, n);
    }
}

/// In a strictly sorted entry sequence the lookup of an entry's key finds
/// that entry.
proof fn lemma_lookup_unique(v: Seq<(String, Option<String>)>, n: int)
    requires
        0 <= n < v.len(),
        crate::order::strictly_sorted(keys_of(v)),
    ensures
        header_lookup(v, v[n].0@) == Some(opt_text(v[n].1)),
    decreases n,
{
    if n > 0 {
        assert(keys_of(v)[0] == v[0].0@);
        assert(keys_of(v)[n] == v[n].0@);
        crate::order::lemma_lt_asymmetric(v[0].0@, v[n].0@);
        assert(keys_of(v.drop_first()) =~= keys_of(v).drop_first());
        lemma_lookup_unique(v.drop_first(), n - 1);
    }
}

proof fn lemma_gained_self(v: Seq<(String, Option<String>)>, f: FactSet)
    requires
        v.len() <= f.spdx_headers@.len(),
        v == f.spdx_headers@.subrange(0, v.len() as int),
    ensures
        gained_entries(v, f).len() == 0,
    decreases v.len(),
{
    if v.len() > 0 {
        let n = v.len() - 1;
        assert(v.drop_last() =~= f.spdx_headers@.subrange(0, n));
        lemma_gained_self(v.drop_last(), f);
        assert(keys_of(f.spdx_headers@)[n] == v.last().0@);
    }
}

proof fn lemma_union_self(xs: Seq<Seq<char>>)
    ensures
        union_keys(xs, xs) == xs,
    decreases xs.len(),
{
    if xs.len() > 0 {
        lemma_union_self(xs.drop_first());
        assert(xs =~= seq![xs[0]] + xs.drop_first());
    }
}

proof fn lemma_metadata_self(keys: Seq<Seq<char>>, f: FactSet)
    ensures
        metadata_diff(keys, f, f).len() == 0,
    decreases keys.len(),
{
    if keys.len() > 0 {
        lemma_metadata_self(keys.drop_last(), f);
    }
}

/// The files a diff reports added: present after, absent before.
pub open spec fn files_added_spec(before: FactSet, after: FactSet) -> Seq<Seq<char>> {
    missing_from(texts(after.files@), texts(before.files@))
}

/// The files a diff reports removed: present before, absent after.
pub open spec fn files_removed_spec(before: FactSet, after: FactSet) -> Seq<Seq<char>> {
    missing_from(texts(before.files@), texts(after.files@))
}

/// A transition read the other way round.
pub open spec fn swap_change(c: ChangeView) -> ChangeView {
    ChangeView { name: c.name, before: c.after, after: c.before }
}

proof fn lemma_union_keys_symmetric(xs: Seq<Seq<char>>, ys: Seq<Seq<char>>)
    ensures
        union_keys(xs, ys) == union_keys(ys, xs),
    decreases xs.len() + ys.len(),
{
    if xs.len() == 0 || ys.len() == 0 {
    } else if xs[0] == ys[0] {
        lemma_union_keys_symmetric(xs.drop_first(), ys.drop_first());
    } else if str_lt(xs[0], ys[0]) {
        crate::order::lemma_lt_asymmetric(xs[0], ys[0]);
        lemma_union_keys_symmetric(xs.drop_first(), ys);
    } else {
        crate::order::lemma_lt_total(xs[0], ys[0]);
        crate::order::lemma_lt_asymmetric(ys[0], xs[0]);
        lemma_union_keys_symmetric(xs, ys.drop_first());
    }
}

proof fn lemma_metadata_diff_swap(keys: Seq<Seq<char>>, a: FactSet, b: FactSet)
    ensures
        metadata_diff(keys, b, a) == metadata_diff(keys, a, b).map_values(|c: ChangeView| swap_change(c)),
    decreases keys.len(),
{
    if keys.len() > 0 {
        lemma_metadata_diff_swap(keys.drop_last(), a, b);
        let r = metadata_diff(keys.drop_last(), a, b);
        let k = keys.last();
        let c = ChangeView { name: k, before: metadata_lookup(a.metadata@, k), after: metadata_lookup(b.metadata@, k) };
        assert(r.push(c).map_values(|c: ChangeView| swap_change(c)) =~= r.map_values(|c: ChangeView| swap_change(c)).push(swap_change(c)));
    } else {
        assert(metadata_diff(keys, a, b).map_values(|c: ChangeView| swap_change(c)) =~= Seq::<ChangeView>::empty());
    }
}

/// Swapping the two snapshots swaps what a diff reports: added and
/// removed files trade places, in the same order; every metadata
/// transition is read the other way round, in the same order; the git
/// state changes in one direction exactly when it changes in the other.
pub proof fn lemma_diff_reverse(a: FactSet, b: FactSet)
    ensures
        files_added_spec(a, b) == files_removed_spec(b, a),
        files_removed_spec(a, b) == files_added_spec(b, a),
        metadata_diff(union_keys(keys_of(b.metadata@), keys_of(a.metadata@)), b, a)
            == metadata_diff(union_keys(keys_of(a.metadata@), keys_of(b.metadata@)), a, b).map_values(
            |c: ChangeView| swap_change(c),
        ),
        git_differs(b.git, a.git) == git_differs(a.git, b.git),
{
    lemma_union_keys_symmetric(keys_of(a.metadata@), keys_of(b.metadata@));
    lemma_metadata_diff_swap(union_keys(keys_of(a.metadata@), keys_of(b.metadata@)), a, b);
}

proof fn lemma_missing_empty(xs: Seq<Seq<char>>, ys: Seq<Seq<char>>)
    requires
        missing_from(xs, ys).len() == 0,
    ensures
        forall|i: int| 0 <= i < xs.len() ==> ys.contains(#[trigger] xs[i]),
    decreases xs.len(),
{
    if xs.len() > 0 {
        lemma_missing_empty(xs.drop_last(), ys);
        assert forall|i: int| 0 <= i < xs.len() implies ys.contains(#[trigger] xs[i]) by {
            if i < xs.len() - 1 {
                assert(xs.drop_last()[i] == xs[i]);
            }
        }
    }
}

proof fn lemma_merge_len(xs: Seq<ChangeView>, ys: Seq<ChangeView>)
    ensures
        merge_changes(xs, ys).len() == xs.len() + ys.len(),
    decreases xs.len() + ys.len(),
{
    if xs.len() > 0 && ys.len() > 0 {
        if str_lt(ys[0].name, xs[0].name) {
            lemma_merge_len(xs, ys.drop_first());
        } else {
            lemma_merge_len(xs.drop_first(), ys);
        }
    }
}

proof fn lemma_changed_empty(entries: Seq<(String, Option<String>)>, after: FactSet)
    requires
        changed_entries(entries, after).len() == 0,
    ensures
        forall|i: int|
            0 <= i < entries.len() && texts(after.files@).contains(#[trigger] entries[i].0@)
                ==> opt_text(entries[i].1) == header_after(after.spdx_headers@, entries[i].0@),
    decreases entries.len(),
{
    if entries.len() > 0 {
        lemma_changed_empty(entries.drop_last(), after);
        assert forall|i: int|
            0 <= i < entries.len() && texts(after.files@).contains(#[trigger] entries[i].0@)
                implies opt_text(entries[i].1) == header_after(after.spdx_headers@, entries[i].0@) by {
            if i < entries.len() - 1 {
                assert(entries.drop_last()[i] == entries[i]);
            }
        }
    }
}

proof fn lemma_gained_empty(entries: Seq<(String, Option<String>)>, before: FactSet)
    requires
        gained_entries(entries, before).len() == 0,
    ensures
        forall|i: int|
            0 <= i < entries.len() && texts(before.files@).contains(#[trigger] entries[i].0@)
                && !keys_of(before.spdx_headers@).contains(entries[i].0@) ==> entries[i].1 is None,
    decreases entries.len(),
{
    if entries.len() > 0 {
        lemma_gained_empty(entries.drop_last(), before);
        assert forall|i: int|
            0 <= i < entries.len() && texts(before.files@).contains(#[trigger] entries[i].0@)
                && !keys_of(before.spdx_headers@).contains(entries[i].0@) implies entries[i].1 is None by {
            if i < entries.len() - 1 {
                assert(entries.drop_last()[i] == entries[i]);
            }
        }
    }
}

pub(crate) proof fn lemma_header_lookup_at(v: Seq<(String, Option<String>)>, i: int)
    requires
        strictly_sorted(keys_of(v)),
        0 <= i < v.len(),
    ensures
        header_lookup(v, v[i].0@) == Some(opt_text(v[i].1)),
    decreases i,
{
    if i > 0 {
        assert(keys_of(v)[0] == v[0].0@);
        assert(keys_of(v)[i] == v[i].0@);
        crate::order::lemma_lt_asymmetric(v[0].0@, v[i].0@);
        let w = v.drop_first();
        assert(keys_of(w) =~= keys_of(v).drop_first());
        assert(w[i - 1] == v[i]);
        lemma_header_lookup_at(w, i - 1);
    }
}

pub(crate) proof fn lemma_header_lookup_absent(v: Seq<(String, Option<String>)>, k: Seq<char>)
    requires
        !keys_of(v).contains(k),
    ensures
        header_lookup(v, k) is None,
    decreases v.len(),
{
    if v.len() > 0 {
        assert(keys_of(v)[0] == v[0].0@);
        let w = v.drop_first();
        assert(keys_of(w) =~= keys_of(v).drop_first());
        if keys_of(w).contains(k) {
            let j = choose|j: int| 0 <= j < keys_of(w).len() && keys_of(w)[j] == k;
            assert(keys_of(v)[j + 1] == k);
        }
        lemma_header_lookup_absent(w, k);
    }
}

pub(crate) proof fn lemma_metadata_lookup_absent(v: Seq<(String, String)>, k: Seq<char>)
    requires
        !keys_of(v).contains(k),
    ensures
        metadata_lookup(v, k) is None,
    decreases v.len(),
{
    if v.len() > 0 {
        assert(keys_of(v)[0] == v[0].0@);
        let w = v.drop_first();
        assert(keys_of(w) =~= keys_of(v).drop_first());
        if keys_of(w).contains(k) {
            let j = choose|j: int| 0 <= j < keys_of(w).len() && keys_of(w)[j] == k;
            assert(keys_of(v)[j + 1] == k);
        }
        lemma_metadata_lookup_absent(w, k);
    }
}

proof fn lemma_union_keys_covers(xs: Seq<Seq<char>>, ys: Seq<Seq<char>>, k: Seq<char>)
    requires
        xs.contains(k) || ys.contains(k),
    ensures
        union_keys(xs, ys).contains(k),
    decreases xs.len() + ys.len(),
{
    if xs.len() == 0 || ys.len() == 0 {
    } else if xs[0] == ys[0] {
        if k == xs[0] {
            assert(union_keys(xs, ys)[0] == k);
        } else {
            if xs.contains(k) {
                let j = choose|j: int| 0 <= j < xs.len() && xs[j] == k;
                assert(xs.drop_first()[j - 1] == k);
            } else {
                let j = choose|j: int| 0 <= j < ys.len() && ys[j] == k;
                assert(ys.drop_first()[j - 1] == k);
            }
            lemma_union_keys_covers(xs.drop_first(), ys.drop_first(), k);
            let r = union_keys(xs.drop_first(), ys.drop_first());
            let j = choose|j: int| 0 <= j < r.len() && r[j] == k;
            assert(union_keys(xs, ys)[j + 1] == k);
        }
    } else if str_lt(xs[0], ys[0]) {
        if k == xs[0] {
            assert(union_keys(xs, ys)[0] == k);
        } else {
            if xs.contains(k) {
                let j = choose|j: int| 0 <= j < xs.len() && xs[j] == k;
                assert(xs.drop_first()[j - 1] == k);
            }
            lemma_union_keys_covers(xs.drop_first(), ys, k);
            let r = union_keys(xs.drop_first(), ys);
            let j = choose|j: int| 0 <= j < r.len() && r[j] == k;
            assert(union_keys(xs, ys)[j + 1] == k);
        }
    } else {
        if k == ys[0] {
            assert(union_keys(xs, ys)[0] == k);
        } else {
            if ys.contains(k) {
                let j = choose|j: int| 0 <= j < ys.len() && ys[j] == k;
                assert(ys.drop_first()[j - 1] == k);
            }
            lemma_union_keys_covers(xs, ys.drop_first(), k);
            let r = union_keys(xs, ys.drop_first());
            let j = choose|j: int| 0 <= j < r.len() && r[j] == k;
            assert(union_keys(xs, ys)[j + 1] == k);
        }
    }
}

proof fn lemma_metadata_diff_empty(keys: Seq<Seq<char>>, before: FactSet, after: FactSet)
    requires
        metadata_diff(keys, before, after).len() == 0,
    ensures
        forall|i: int| 0 <= i < keys.len() ==> metadata_lookup(before.metadata@, #[trigger] keys[i])
            == metadata_lookup(after.metadata@, keys[i]),
    decreases keys.len(),
{
    if keys.len() > 0 {
        lemma_metadata_diff_empty(keys.drop_last(), before, after);
        assert forall|i: int| 0 <= i < keys.len() implies metadata_lookup(before.metadata@, #[trigger] keys[i])
            == metadata_lookup(after.metadata@, keys[i]) by {
            if i < keys.len() - 1 {
                assert(keys.drop_last()[i] == keys[i]);
            }
        }
    }
}

/// An empty diff means the two snapshots describe the same repository
/// state: the same files, the same header on every file, the same
/// metadata and the same git state (only the roots may differ).
pub proof fn lemma_empty_diff_means_same_state(a: FactSet, b: FactSet)
    requires
        a.wf(),
        b.wf(),
        files_added_spec(a, b).len() == 0,
        files_removed_spec(a, b).len() == 0,
        merge_changes(
            changed_entries(a.spdx_headers@, b),
            gained_entries(b.spdx_headers@, a),
        ).len() == 0,
        metadata_diff(union_keys(keys_of(a.metadata@), keys_of(b.metadata@)), a, b).len() == 0,
        !git_differs(a.git, b.git),
    ensures
        a.file_set() == b.file_set(),
        forall|f: Seq<char>|
            a.file_set().contains(f) ==> header_after(a.spdx_headers@, f) == header_after(
                b.spdx_headers@,
                f,
            ),
        forall|k: Seq<char>| metadata_lookup(a.metadata@, k) == metadata_lookup(b.metadata@, k),
        a.git.is_repo == b.git.is_repo,
        opt_text(a.git.head_ref) == opt_text(b.git.head_ref),
{
    let fa = texts(a.files@);
    let fb = texts(b.files@);
    lemma_missing_empty(fb, fa);
    lemma_missing_empty(fa, fb);
    assert(a.file_set() =~= b.file_set()) by {
        assert forall|f: Seq<char>| a.file_set().contains(f) <==> b.file_set().contains(f) by {
            if fa.contains(f) {
                let i = choose|i: int| 0 <= i < fa.len() && fa[i] == f;
                assert(fb.contains(fa[i]));
            }
            if fb.contains(f) {
                let i = choose|i: int| 0 <= i < fb.len() && fb[i] == f;
                assert(fa.contains(fb[i]));
            }
        }
    }
    lemma_merge_len(changed_entries(a.spdx_headers@, b), gained_entries(b.spdx_headers@, a));
    lemma_changed_empty(a.spdx_headers@, b);
    lemma_gained_empty(b.spdx_headers@, a);
    assert forall|f: Seq<char>| a.file_set().contains(f) implies header_after(a.spdx_headers@, f)
        == header_after(b.spdx_headers@, f) by {
        assert(fb.contains(f));
        let ka = keys_of(a.spdx_headers@);
        let kb = keys_of(b.spdx_headers@);
        if ka.contains(f) {
            let i = choose|i: int| 0 <= i < ka.len() && ka[i] == f;
            assert(a.spdx_headers@[i].0@ == f);
            lemma_header_lookup_at(a.spdx_headers@, i);
            assert(texts(b.files@).contains(a.spdx_headers@[i].0@));
        } else {
            lemma_header_lookup_absent(a.spdx_headers@, f);
            if kb.contains(f) {
                let j = choose|j: int| 0 <= j < kb.len() && kb[j] == f;
                assert(b.spdx_headers@[j].0@ == f);
                lemma_header_lookup_at(b.spdx_headers@, j);
                assert(texts(a.files@).contains(b.spdx_headers@[j].0@));
            } else {
                lemma_header_lookup_absent(b.spdx_headers@, f);
            }
        }
    }
    let keys = union_keys(keys_of(a.metadata@), keys_of(b.metadata@));
    lemma_metadata_diff_empty(keys, a, b);
    assert forall|k: Seq<char>| metadata_lookup(a.metadata@, k) == metadata_lookup(b.metadata@, k) by {
        if keys_of(a.metadata@).contains(k) || keys_of(b.metadata@).contains(k) {
            lemma_union_keys_covers(keys_of(a.metadata@), keys_of(b.metadata@), k);
            let i = choose|i: int| 0 <= i < keys.len() && keys[i] == k;
            assert(metadata_lookup(a.metadata@, keys[i]) == metadata_lookup(b.metadata@, keys[i]));
        } else {
            lemma_metadata_lookup_absent(a.metadata@, k);
            lemma_metadata_lookup_absent(b.metadata@, k);
        }
    }
}

} // verus!

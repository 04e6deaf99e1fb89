//! What a diff reports, stated as sets: each list is ascending by name and
//! holds exactly the transitions between the two snapshots; and reading the
//! two snapshots the other way round reverses every transition.
use vstd::prelude::*;
use crate::diff::{
    ChangeView, changed_entries, files_added_spec, files_removed_spec, gained_entries,
    git_differs, header_after, lemma_diff_reverse, merge_changes, metadata_diff, missing_from,
    swap_change, union_keys, lemma_header_lookup_at, lemma_header_lookup_absent,
    lemma_metadata_lookup_absent,
};
use crate::facts::{FactSet, keys_of, metadata_lookup, opt_text, texts};
use crate::order::{str_lt, strictly_sorted};

verus! {

/// The header a snapshot records for a file (no entry: no header).
pub open spec fn header_in(f: FactSet, file: Seq<char>) -> Option<Seq<char>> {
    header_after(f.spdx_headers@, file)
}

/// `c` is the header transition of a file that exists in both snapshots
/// and whose header differs between them.
pub open spec fn header_transition(a: FactSet, b: FactSet, c: ChangeView) -> bool {
    &&& texts(a.files@).contains(c.name)
    &&& texts(b.files@).contains(c.name)
    &&& header_in(a, c.name) != header_in(b, c.name)
    &&& c.before == header_in(a, c.name)
    &&& c.after == header_in(b, c.name)
}

/// Names strictly ascending.
pub open spec fn names_ascending(v: Seq<ChangeView>) -> bool {
    forall|i: int, j: int| 0 <= i < j < v.len() ==> str_lt(#[trigger] v[i].name, #[trigger] v[j].name)
}

/// Every header entry names a file of the snapshot.
pub open spec fn headers_name_files(f: FactSet) -> bool {
    forall|k: Seq<char>| #[trigger] keys_of(f.spdx_headers@).contains(k) ==> texts(f.files@).contains(k)
}

/// The header transitions a diff from `a` to `b` reports.
pub open spec fn header_diff(a: FactSet, b: FactSet) -> Seq<ChangeView> {
    merge_changes(changed_entries(a.spdx_headers@, b), gained_entries(b.spdx_headers@, a))
}

spec fn changed_at(v: Seq<(String, Option<String>)>, after: FactSet, i: int) -> ChangeView {
    ChangeView {
        name: v[i].0@,
        before: opt_text(v[i].1),
        after: header_after(after.spdx_headers@, v[i].0@),
    }
}

spec fn changes_at(v: Seq<(String, Option<String>)>, after: FactSet, i: int) -> bool {
    texts(after.files@).contains(v[i].0@) && opt_text(v[i].1) != header_after(
        after.spdx_headers@,
        v[i].0@,
    )
}

spec fn gained_at(v: Seq<(String, Option<String>)>, i: int) -> ChangeView {
    ChangeView { name: v[i].0@, before: None, after: opt_text(v[i].1) }
}

spec fn gains_at(v: Seq<(String, Option<String>)>, before: FactSet, i: int) -> bool {
    &&& texts(before.files@).contains(v[i].0@)
    &&& !keys_of(before.spdx_headers@).contains(v[i].0@)
    &&& v[i].1 is Some
}

proof fn lemma_changed_char(v: Seq<(String, Option<String>)>, after: FactSet)
    requires
        strictly_sorted(keys_of(v)),
    ensures
        names_ascending(changed_entries(v, after)),
        forall|c: ChangeView|
            #[trigger] changed_entries(v, after).contains(c) <==> exists|i: int|
                0 <= i < v.len() && changes_at(v, after, i) && c == #[trigger] changed_at(v, after, i),
    decreases v.len(),
{
    let r = changed_entries(v, after);
    if v.len() > 0 {
        let w = v.drop_last();
        let n = v.len() - 1;
        assert(keys_of(w) =~= keys_of(v).drop_last());
        lemma_changed_char(w, after);
        let prev = changed_entries(w, after);
        assert forall|i: int| 0 <= i < n implies changed_at(w, after, i) == changed_at(v, after, i)
            && changes_at(w, after, i) == changes_at(v, after, i) by {
            assert(w[i] == v[i]);
        }
        let x = changed_at(v, after, n);
        assert(v.last() == v[n]);
        assert forall|c: ChangeView| r.contains(c) <==> exists|i: int|
            0 <= i < v.len() && changes_at(v, after, i) && c == #[trigger] changed_at(v, after, i) by {
            if r.contains(c) {
                let j = choose|j: int| 0 <= j < r.len() && r[j] == c;
                if j < prev.len() {
                    assert(prev[j] == r[j]);
                    assert(prev.contains(c));
                    let i = choose|i: int|
                        0 <= i < w.len() && changes_at(w, after, i) && c == #[trigger] changed_at(w, after, i);
                    assert(changed_at(v, after, i) == c);
                } else {
                    assert(changes_at(v, after, n) && c == changed_at(v, after, n));
                }
            }
            if exists|i: int|
                0 <= i < v.len() && changes_at(v, after, i) && c == #[trigger] changed_at(v, after, i) {
                let i = choose|i: int|
                    0 <= i < v.len() && changes_at(v, after, i) && c == #[trigger] changed_at(v, after, i);
                if i < n {
                    assert(changed_at(w, after, i) == c);
                    assert(prev.contains(c));
                    let j = choose|j: int| 0 <= j < prev.len() && prev[j] == c;
                    assert(r[j] == c);
                } else {
                    assert(r[r.len() - 1] == c);
                }
            }
        }
        if changes_at(v, after, n) {
            assert(r == prev.push(x));
            assert forall|p: int, q: int| 0 <= p < q < r.len() implies str_lt(
                #[trigger] r[p].name,
                #[trigger] r[q].name,
            ) by {
                if q == prev.len() {
                    assert(prev.contains(prev[p]));
                    let i = choose|i: int|
                        0 <= i < w.len() && changes_at(w, after, i) && prev[p] == #[trigger] changed_at(w, after, i);
                    assert(keys_of(v)[i] == v[i].0@);
                    assert(keys_of(v)[n] == v[n].0@);
                } else {
                    assert(r[p] == prev[p] && r[q] == prev[q]);
                }
            }
        } else {
            assert(r == prev);
        }
    }
}

proof fn lemma_gained_char(v: Seq<(String, Option<String>)>, before: FactSet)
    requires
        strictly_sorted(keys_of(v)),
    ensures
        names_ascending(gained_entries(v, before)),
        forall|c: ChangeView|
            #[trigger] gained_entries(v, before).contains(c) <==> exists|i: int|
                0 <= i < v.len() && gains_at(v, before, i) && c == #[trigger] gained_at(v, i),
    decreases v.len(),
{
    let r = gained_entries(v, before);
    if v.len() > 0 {
        let w = v.drop_last();
        let n = v.len() - 1;
        assert(keys_of(w) =~= keys_of(v).drop_last());
        lemma_gained_char(w, before);
        let prev = gained_entries(w, before);
        assert forall|i: int| 0 <= i < n implies gained_at(w, i) == gained_at(v, i)
            && gains_at(w, before, i) == gains_at(v, before, i) by {
            assert(w[i] == v[i]);
        }
        let x = gained_at(v, n);
        assert(v.last() == v[n]);
        assert forall|c: ChangeView| r.contains(c) <==> exists|i: int|
            0 <= i < v.len() && gains_at(v, before, i) && c == #[trigger] gained_at(v, i) by {
            if r.contains(c) {
                let j = choose|j: int| 0 <= j < r.len() && r[j] == c;
                if j < prev.len() {
                    assert(prev[j] == r[j]);
                    assert(prev.contains(c));
                    let i = choose|i: int|
                        0 <= i < w.len() && gains_at(w, before, i) && c == #[trigger] gained_at(w, i);
                    assert(gained_at(v, i) == c);
                } else {
                    assert(gains_at(v, before, n) && c == gained_at(v, n));
                }
            }
            if exists|i: int|
                0 <= i < v.len() && gains_at(v, before, i) && c == #[trigger] gained_at(v, i) {
                let i = choose|i: int|
                    0 <= i < v.len() && gains_at(v, before, i) && c == #[trigger] gained_at(v, i);
                if i < n {
                    assert(gained_at(w, i) == c);
                    assert(prev.contains(c));
                    let j = choose|j: int| 0 <= j < prev.len() && prev[j] == c;
                    assert(r[j] == c);
                } else {
                    assert(r[r.len() - 1] == c);
                }
            }
        }
        if gains_at(v, before, n) {
            assert(r == prev.push(x));
            assert forall|p: int, q: int| 0 <= p < q < r.len() implies str_lt(
                #[trigger] r[p].name,
                #[trigger] r[q].name,
            ) by {
                if q == prev.len() {
                    assert(prev.contains(prev[p]));
                    let i = choose|i: int|
                        0 <= i < w.len() && gains_at(w, before, i) && prev[p] == #[trigger] gained_at(w, i);
                    assert(keys_of(v)[i] == v[i].0@);
                    assert(keys_of(v)[n] == v[n].0@);
                } else {
                    assert(r[p] == prev[p] && r[q] == prev[q]);
                }
            }
        } else {
            assert(r == prev);
        }
    }
}


proof fn lemma_merge_char(xs: Seq<ChangeView>, ys: Seq<ChangeView>)
    requires
        names_ascending(xs),
        names_ascending(ys),
        forall|i: int, j: int|
            0 <= i < xs.len() && 0 <= j < ys.len() ==> #[trigger] xs[i].name != #[trigger] ys[j].name,
    ensures
        forall|c: ChangeView|
            #[trigger] merge_changes(xs, ys).contains(c) <==> xs.contains(c) || ys.contains(c),
        names_ascending(merge_changes(xs, ys)),
    decreases xs.len() + ys.len(),
{
    let m = merge_changes(xs, ys);
    if xs.len() == 0 {
        assert(m == ys);
    } else if ys.len() == 0 {
        assert(m == xs);
    } else if str_lt(ys[0].name, xs[0].name) {
        let ys2 = ys.drop_first();
        assert forall|k: int| 0 <= k < ys2.len() implies #[trigger] ys2[k] == ys[k + 1] by {}
        lemma_merge_char(xs, ys2);
        let t = merge_changes(xs, ys2);
        assert(m == seq![ys[0]] + t);
        assert forall|c: ChangeView| m.contains(c) <==> xs.contains(c) || ys.contains(c) by {
            if m.contains(c) {
                let j = choose|j: int| 0 <= j < m.len() && m[j] == c;
                if j == 0 {
                    assert(ys[0] == c);
                } else {
                    assert(t[j - 1] == c);
                    assert(t.contains(c));
                    if ys2.contains(c) {
                        let k = choose|k: int| 0 <= k < ys2.len() && ys2[k] == c;
                        assert(ys[k + 1] == c);
                    }
                }
            }
            if xs.contains(c) {
                assert(t.contains(c));
                let j = choose|j: int| 0 <= j < t.len() && t[j] == c;
                assert(m[j + 1] == c);
            }
            if ys.contains(c) {
                let k = choose|k: int| 0 <= k < ys.len() && ys[k] == c;
                if k == 0 {
                    assert(m[0] == c);
                } else {
                    assert(ys2[k - 1] == c);
                    assert(t.contains(c));
                    let j = choose|j: int| 0 <= j < t.len() && t[j] == c;
                    assert(m[j + 1] == c);
                }
            }
        }
        assert forall|p: int, q: int| 0 <= p < q < m.len() implies str_lt(
            #[trigger] m[p].name,
            #[trigger] m[q].name,
        ) by {
            assert(m[q] == t[q - 1]);
            if p == 0 {
                let c = t[q - 1];
                assert(t.contains(c));
                if xs.contains(c) {
                    let k = choose|k: int| 0 <= k < xs.len() && xs[k] == c;
                    if k > 0 {
                        crate::order::lemma_lt_transitive(ys[0].name, xs[0].name, xs[k].name);
                    }
                } else {
                    let k = choose|k: int| 0 <= k < ys2.len() && ys2[k] == c;
                    assert(ys[k + 1] == c);
                }
            } else {
                assert(m[p] == t[p - 1]);
            }
        }
    } else {
        crate::order::lemma_lt_total(xs[0].name, ys[0].name);
        assert(xs[0].name != ys[0].name);
        let xs2 = xs.drop_first();
        assert forall|k: int| 0 <= k < xs2.len() implies #[trigger] xs2[k] == xs[k + 1] by {}
        lemma_merge_char(xs2, ys);
        let t = merge_changes(xs2, ys);
        assert(m == seq![xs[0]] + t);
        assert forall|c: ChangeView| m.contains(c) <==> xs.contains(c) || ys.contains(c) by {
            if m.contains(c) {
                let j = choose|j: int| 0 <= j < m.len() && m[j] == c;
                if j == 0 {
                    assert(xs[0] == c);
                } else {
                    assert(t[j - 1] == c);
                    assert(t.contains(c));
                    if xs2.contains(c) {
                        let k = choose|k: int| 0 <= k < xs2.len() && xs2[k] == c;
                        assert(xs[k + 1] == c);
                    }
                }
            }
            if ys.contains(c) {
                assert(t.contains(c));
                let j = choose|j: int| 0 <= j < t.len() && t[j] == c;
                assert(m[j + 1] == c);
            }
            if xs.contains(c) {
                let k = choose|k: int| 0 <= k < xs.len() && xs[k] == c;
                if k == 0 {
                    assert(m[0] == c);
                } else {
                    assert(xs2[k - 1] == c);
                    assert(t.contains(c));
                    let j = choose|j: int| 0 <= j < t.len() && t[j] == c;
                    assert(m[j + 1] == c);
                }
            }
        }
        assert forall|p: int, q: int| 0 <= p < q < m.len() implies str_lt(
            #[trigger] m[p].name,
            #[trigger] m[q].name,
        ) by {
            assert(m[q] == t[q - 1]);
            if p == 0 {
                let c = t[q - 1];
                assert(t.contains(c));
                if ys.contains(c) {
                    let k = choose|k: int| 0 <= k < ys.len() && ys[k] == c;
                    if k > 0 {
                        crate::order::lemma_lt_transitive(xs[0].name, ys[0].name, ys[k].name);
                    }
                } else {
                    let k = choose|k: int| 0 <= k < xs2.len() && xs2[k] == c;
                    assert(xs[k + 1] == c);
                }
            } else {
                assert(m[p] == t[p - 1]);
            }
        }
    }
}

/// Two sequences ascending by name that hold the same transitions are equal.
proof fn lemma_ascending_unique(s: Seq<ChangeView>, t: Seq<ChangeView>)
    requires
        names_ascending(s),
        names_ascending(t),
        forall|c: ChangeView| #![trigger s.contains(c)] #![trigger t.contains(c)] s.contains(c) <==> t.contains(c),
    ensures
        s == t,
    decreases s.len(),
{
    if s.len() == 0 {
        if t.len() > 0 {
            assert(t.contains(t[0]));
        }
        assert(s =~= t);
    } else {
        assert(s.contains(s[0]));
        let j = choose|j: int| 0 <= j < t.len() && t[j] == s[0];
        assert(t.contains(t[0]));
        let i = choose|i: int| 0 <= i < s.len() && s[i] == t[0];
        if j > 0 {
            assert(str_lt(t[0].name, t[j].name));
            if i > 0 {
                assert(str_lt(s[0].name, s[i].name));
                crate::order::lemma_lt_asymmetric(t[0].name, s[0].name);
            } else {
                crate::order::lemma_lt_irreflexive(s[0].name);
            }
        }
        assert(s[0] == t[0]);
        let s2 = s.drop_first();
        let t2 = t.drop_first();
        assert forall|c: ChangeView| s2.contains(c) <==> t2.contains(c) by {
            if s2.contains(c) {
                let k = choose|k: int| 0 <= k < s2.len() && s2[k] == c;
                assert(s[k + 1] == c);
                assert(s.contains(c));
                let m = choose|m: int| 0 <= m < t.len() && t[m] == c;
                if m == 0 {
                    assert(str_lt(s[0].name, s[k + 1].name));
                    crate::order::lemma_lt_irreflexive(s[0].name);
                }
                assert(t2[m - 1] == c);
            }
            if t2.contains(c) {
                let k = choose|k: int| 0 <= k < t2.len() && t2[k] == c;
                assert(t[k + 1] == c);
                assert(t.contains(c));
                let m = choose|m: int| 0 <= m < s.len() && s[m] == c;
                if m == 0 {
                    assert(str_lt(t[0].name, t[k + 1].name));
                    crate::order::lemma_lt_irreflexive(t[0].name);
                }
                assert(s2[m - 1] == c);
            }
        }
        assert(names_ascending(s2));
        assert(names_ascending(t2));
        lemma_ascending_unique(s2, t2);
        assert(s =~= seq![s[0]] + s2);
        assert(t =~= seq![t[0]] + t2);
    }
}


/// The header transitions a diff from `a` to `b` reports are ascending by
/// file name and are exactly the transitions of files present in both
/// snapshots whose header differs (a file without an entry has no header).
pub proof fn lemma_header_diff_char(a: FactSet, b: FactSet)
    requires
        a.wf(),
        b.wf(),
        headers_name_files(a),
        headers_name_files(b),
    ensures
        names_ascending(header_diff(a, b)),
        forall|c: ChangeView| #[trigger] header_diff(a, b).contains(c) <==> header_transition(a, b, c),
{
    let va = a.spdx_headers@;
    let vb = b.spdx_headers@;
    lemma_changed_char(va, b);
    lemma_gained_char(vb, a);
    let xs = changed_entries(va, b);
    let ys = gained_entries(vb, a);
    assert forall|i: int, j: int| 0 <= i < xs.len() && 0 <= j < ys.len() implies #[trigger] xs[i].name
        != #[trigger] ys[j].name by {
        assert(xs.contains(xs[i]));
        let p = choose|p: int| 0 <= p < va.len() && changes_at(va, b, p) && xs[i] == #[trigger] changed_at(va, b, p);
        assert(ys.contains(ys[j]));
        let q = choose|q: int| 0 <= q < vb.len() && gains_at(vb, a, q) && ys[j] == #[trigger] gained_at(vb, q);
        assert(keys_of(va)[p] == va[p].0@);
    }
    lemma_merge_char(xs, ys);
    assert forall|c: ChangeView| header_diff(a, b).contains(c) <==> header_transition(a, b, c) by {
        if xs.contains(c) {
            let p = choose|p: int| 0 <= p < va.len() && changes_at(va, b, p) && c == #[trigger] changed_at(va, b, p);
            lemma_header_lookup_at(va, p);
            assert(keys_of(va)[p] == va[p].0@);
            assert(keys_of(va).contains(va[p].0@));
        }
        if ys.contains(c) {
            let q = choose|q: int| 0 <= q < vb.len() && gains_at(vb, a, q) && c == #[trigger] gained_at(vb, q);
            lemma_header_lookup_absent(va, vb[q].0@);
            lemma_header_lookup_at(vb, q);
            assert(keys_of(vb)[q] == vb[q].0@);
            assert(keys_of(vb).contains(vb[q].0@));
        }
        if header_transition(a, b, c) {
            if keys_of(va).contains(c.name) {
                let p = choose|p: int| 0 <= p < keys_of(va).len() && keys_of(va)[p] == c.name;
                lemma_header_lookup_at(va, p);
                assert(changes_at(va, b, p) && c == changed_at(va, b, p));
                assert(xs.contains(c));
            } else {
                lemma_header_lookup_absent(va, c.name);
                if !keys_of(vb).contains(c.name) {
                    lemma_header_lookup_absent(vb, c.name);
                }
                let q = choose|q: int| 0 <= q < keys_of(vb).len() && keys_of(vb)[q] == c.name;
                lemma_header_lookup_at(vb, q);
                assert(gains_at(vb, a, q) && c == gained_at(vb, q));
                assert(ys.contains(c));
            }
        }
    }
}

/// Reading two snapshots the other way round reports the same header
/// transitions, in the same order, each read the other way round.
pub proof fn lemma_header_diff_reverse(a: FactSet, b: FactSet)
    requires
        a.wf(),
        b.wf(),
        headers_name_files(a),
        headers_name_files(b),
    ensures
        header_diff(b, a) == header_diff(a, b).map_values(|c: ChangeView| swap_change(c)),
{
    lemma_header_diff_char(a, b);
    lemma_header_diff_char(b, a);
    let h = header_diff(a, b);
    let s = h.map_values(|c: ChangeView| swap_change(c));
    assert forall|i: int, j: int| 0 <= i < j < s.len() implies str_lt(#[trigger] s[i].name, #[trigger] s[j].name) by {
        assert(s[i].name == h[i].name && s[j].name == h[j].name);
    }
    assert forall|c: ChangeView| #![trigger s.contains(c)] #![trigger header_diff(b, a).contains(c)]
        header_diff(b, a).contains(c) <==> s.contains(c) by {
        if s.contains(c) {
            let i = choose|i: int| 0 <= i < s.len() && s[i] == c;
            assert(h.contains(h[i]));
            assert(header_transition(a, b, h[i]));
        }
        if header_diff(b, a).contains(c) {
            assert(header_transition(b, a, c));
            assert(header_transition(a, b, swap_change(c)));
            assert(h.contains(swap_change(c)));
            let i = choose|i: int| 0 <= i < h.len() && h[i] == swap_change(c);
            assert(s[i] == c);
        }
    }
    lemma_ascending_unique(header_diff(b, a), s);
}


proof fn lemma_missing_char(xs: Seq<Seq<char>>, ys: Seq<Seq<char>>)
    requires
        strictly_sorted(xs),
    ensures
        strictly_sorted(missing_from(xs, ys)),
        forall|k: Seq<char>| #[trigger] missing_from(xs, ys).contains(k) <==> xs.contains(k) && !ys.contains(k),
    decreases xs.len(),
{
    let r = missing_from(xs, ys);
    if xs.len() > 0 {
        let w = xs.drop_last();
        let n = xs.len() - 1;
        lemma_missing_char(w, ys);
        let prev = missing_from(w, ys);
        assert(xs.last() == xs[n]);
        assert forall|k: Seq<char>| r.contains(k) <==> xs.contains(k) && !ys.contains(k) by {
            if r.contains(k) {
                let j = choose|j: int| 0 <= j < r.len() && r[j] == k;
                if j < prev.len() {
                    assert(prev[j] == k);
                    assert(prev.contains(k));
                    let i = choose|i: int| 0 <= i < w.len() && w[i] == k;
                    assert(xs[i] == k);
                } else {
                    assert(xs[n] == k);
                }
            }
            if xs.contains(k) && !ys.contains(k) {
                let i = choose|i: int| 0 <= i < xs.len() && xs[i] == k;
                if i < n {
                    assert(w[i] == k);
                    assert(prev.contains(k));
                    let j = choose|j: int| 0 <= j < prev.len() && prev[j] == k;
                    assert(r[j] == k);
                } else {
                    assert(r[r.len() - 1] == k);
                }
            }
        }
        if !ys.contains(xs[n]) {
            assert(r == prev.push(xs[n]));
            assert forall|p: int, q: int| 0 <= p < q < r.len() implies str_lt(#[trigger] r[p], #[trigger] r[q]) by {
                if q == prev.len() {
                    assert(prev.contains(prev[p]));
                    let i = choose|i: int| 0 <= i < w.len() && w[i] == prev[p];
                    assert(xs[i] == w[i]);
                } else {
                    assert(r[p] == prev[p] && r[q] == prev[q]);
                }
            }
        } else {
            assert(r == prev);
        }
    }
}

/// The files a diff reports added are ascending and are exactly the files
/// of the second snapshot absent from the first; the files it reports
/// removed are ascending and are exactly those of the first absent from the
/// second.
pub proof fn lemma_file_diff_char(a: FactSet, b: FactSet)
    requires
        a.wf(),
        b.wf(),
    ensures
        strictly_sorted(files_added_spec(a, b)),
        forall|k: Seq<char>| #[trigger] files_added_spec(a, b).contains(k) <==> texts(b.files@).contains(k)
            && !texts(a.files@).contains(k),
        strictly_sorted(files_removed_spec(a, b)),
        forall|k: Seq<char>| #[trigger] files_removed_spec(a, b).contains(k) <==> texts(a.files@).contains(k)
            && !texts(b.files@).contains(k),
{
    lemma_missing_char(texts(b.files@), texts(a.files@));
    lemma_missing_char(texts(a.files@), texts(b.files@));
}

/// The number of changes a diff from `a` to `b` reports.
pub open spec fn change_total(a: FactSet, b: FactSet) -> int {
    files_added_spec(a, b).len() + files_removed_spec(a, b).len() + header_diff(a, b).len()
        + metadata_diff(union_keys(keys_of(a.metadata@), keys_of(b.metadata@)), a, b).len() + (if git_differs(
        a.git,
        b.git,
    ) {
        1int
    } else {
        0int
    })
}

/// Swapping the two snapshots of a diff: added and removed files trade
/// places; every header and metadata transition is read the other way
/// round, in the same order; the git state changes in one direction exactly
/// when it changes in the other; and the number of changes is the same.
pub proof fn lemma_diff_swap(a: FactSet, b: FactSet)
    requires
        a.wf(),
        b.wf(),
        headers_name_files(a),
        headers_name_files(b),
    ensures
        files_added_spec(b, a) == files_removed_spec(a, b),
        files_removed_spec(b, a) == files_added_spec(a, b),
        header_diff(b, a) == header_diff(a, b).map_values(|c: ChangeView| swap_change(c)),
        metadata_diff(union_keys(keys_of(b.metadata@), keys_of(a.metadata@)), b, a)
            == metadata_diff(union_keys(keys_of(a.metadata@), keys_of(b.metadata@)), a, b).map_values(
            |c: ChangeView| swap_change(c),
        ),
        git_differs(b.git, a.git) == git_differs(a.git, b.git),
        change_total(b, a) == change_total(a, b),
{
    lemma_diff_reverse(a, b);
    lemma_header_diff_reverse(a, b);
}


proof fn lemma_union_keys_char(xs: Seq<Seq<char>>, ys: Seq<Seq<char>>)
    requires
        strictly_sorted(xs),
        strictly_sorted(ys),
    ensures
        strictly_sorted(union_keys(xs, ys)),
        forall|k: Seq<char>| #[trigger] union_keys(xs, ys).contains(k) <==> xs.contains(k) || ys.contains(k),
    decreases xs.len() + ys.len(),
{
    let u = union_keys(xs, ys);
    if xs.len() == 0 {
        assert(u == ys);
    } else if ys.len() == 0 {
        assert(u == xs);
    } else {
        let xs2 = xs.drop_first();
        let ys2 = ys.drop_first();
        assert forall|k: int| 0 <= k < xs2.len() implies #[trigger] xs2[k] == xs[k + 1] by {}
        assert forall|k: int| 0 <= k < ys2.len() implies #[trigger] ys2[k] == ys[k + 1] by {}
        let (h, l, r) = if xs[0] == ys[0] {
            (xs[0], xs2, ys2)
        } else if str_lt(xs[0], ys[0]) {
            (xs[0], xs2, ys)
        } else {
            (ys[0], xs, ys2)
        };
        crate::order::lemma_lt_total(xs[0], ys[0]);
        lemma_union_keys_char(l, r);
        let t = union_keys(l, r);
        assert(u == seq![h] + t);
        // every key of the two tails lies above the head
        assert forall|k: Seq<char>| l.contains(k) || r.contains(k) implies str_lt(h, k) by {
            if xs2.contains(k) {
                let i = choose|i: int| 0 <= i < xs2.len() && xs2[i] == k;
                assert(str_lt(xs[0], xs[i + 1]));
                if h != xs[0] {
                    crate::order::lemma_lt_transitive(ys[0], xs[0], k);
                }
            }
            if ys2.contains(k) {
                let i = choose|i: int| 0 <= i < ys2.len() && ys2[i] == k;
                assert(str_lt(ys[0], ys[i + 1]));
                if h != ys[0] {
                    crate::order::lemma_lt_transitive(xs[0], ys[0], k);
                }
            }
            if l == xs && xs.contains(k) && !xs2.contains(k) {
                let i = choose|i: int| 0 <= i < xs.len() && xs[i] == k;
                if i > 0 {
                    assert(xs2[i - 1] == k);
                }
            }
            if r == ys && ys.contains(k) && !ys2.contains(k) {
                let i = choose|i: int| 0 <= i < ys.len() && ys[i] == k;
                if i > 0 {
                    assert(ys2[i - 1] == k);
                }
            }
        }
        assert forall|k: Seq<char>| u.contains(k) <==> xs.contains(k) || ys.contains(k) by {
            if u.contains(k) {
                let j = choose|j: int| 0 <= j < u.len() && u[j] == k;
                if j == 0 {
                    assert(xs[0] == k || ys[0] == k);
                } else {
                    assert(t[j - 1] == k);
                    assert(t.contains(k));
                    if xs2.contains(k) {
                        let i = choose|i: int| 0 <= i < xs2.len() && xs2[i] == k;
                        assert(xs[i + 1] == k);
                    }
                    if ys2.contains(k) {
                        let i = choose|i: int| 0 <= i < ys2.len() && ys2[i] == k;
                        assert(ys[i + 1] == k);
                    }
                }
            }
            if xs.contains(k) || ys.contains(k) {
                if k == h {
                    assert(u[0] == k);
                } else {
                    if xs.contains(k) {
                        let i = choose|i: int| 0 <= i < xs.len() && xs[i] == k;
                        if i > 0 {
                            assert(xs2[i - 1] == k);
                        }
                    }
                    if ys.contains(k) {
                        let i = choose|i: int| 0 <= i < ys.len() && ys[i] == k;
                        if i > 0 {
                            assert(ys2[i - 1] == k);
                        }
                    }
                    assert(l.contains(k) || r.contains(k));
                    assert(t.contains(k));
                    let j = choose|j: int| 0 <= j < t.len() && t[j] == k;
                    assert(u[j + 1] == k);
                }
            }
        }
        assert forall|p: int, q: int| 0 <= p < q < u.len() implies str_lt(#[trigger] u[p], #[trigger] u[q]) by {
            assert(u[q] == t[q - 1]);
            if p == 0 {
                assert(t.contains(t[q - 1]));
            } else {
                assert(u[p] == t[p - 1]);
            }
        }
    }
}

/// A metadata transition: the key's value differs between the snapshots
/// (an absent key has no value).
pub open spec fn metadata_transition(a: FactSet, b: FactSet, c: ChangeView) -> bool {
    &&& metadata_lookup(a.metadata@, c.name) != metadata_lookup(b.metadata@, c.name)
    &&& c.before == metadata_lookup(a.metadata@, c.name)
    &&& c.after == metadata_lookup(b.metadata@, c.name)
}

proof fn lemma_metadata_diff_char(keys: Seq<Seq<char>>, a: FactSet, b: FactSet)
    requires
        strictly_sorted(keys),
    ensures
        names_ascending(metadata_diff(keys, a, b)),
        forall|c: ChangeView| #[trigger] metadata_diff(keys, a, b).contains(c) <==> keys.contains(c.name)
            && metadata_transition(a, b, c),
    decreases keys.len(),
{
    let r = metadata_diff(keys, a, b);
    if keys.len() > 0 {
        let w = keys.drop_last();
        let n = keys.len() - 1;
        lemma_metadata_diff_char(w, a, b);
        let prev = metadata_diff(w, a, b);
        let k = keys[n];
        assert(keys.last() == k);
        assert forall|c: ChangeView| r.contains(c) <==> keys.contains(c.name) && metadata_transition(a, b, c) by {
            if r.contains(c) {
                let j = choose|j: int| 0 <= j < r.len() && r[j] == c;
                if j < prev.len() {
                    assert(prev[j] == c);
                    assert(prev.contains(c));
                    let i = choose|i: int| 0 <= i < w.len() && w[i] == c.name;
                    assert(keys[i] == c.name);
                } else {
                    assert(keys[n] == c.name);
                }
            }
            if keys.contains(c.name) && metadata_transition(a, b, c) {
                let i = choose|i: int| 0 <= i < keys.len() && keys[i] == c.name;
                if i < n {
                    assert(w[i] == c.name);
                    assert(prev.contains(c));
                    let j = choose|j: int| 0 <= j < prev.len() && prev[j] == c;
                    assert(r[j] == c);
                } else {
                    assert(r[r.len() - 1] == c);
                }
            }
        }
        if metadata_lookup(a.metadata@, k) != metadata_lookup(b.metadata@, k) {
            assert forall|p: int, q: int| 0 <= p < q < r.len() implies str_lt(
                #[trigger] r[p].name,
                #[trigger] r[q].name,
            ) by {
                if q == prev.len() {
                    assert(prev.contains(prev[p]));
                    let i = choose|i: int| 0 <= i < w.len() && w[i] == prev[p].name;
                    assert(keys[i] == w[i]);
                } else {
                    assert(r[p] == prev[p] && r[q] == prev[q]);
                }
            }
        } else {
            assert(r == prev);
        }
    }
}

/// The metadata transitions a diff from `a` to `b` reports are ascending by
/// key and are exactly the keys whose value differs between the snapshots.
pub proof fn lemma_metadata_diff_set(a: FactSet, b: FactSet)
    requires
        a.wf(),
        b.wf(),
    ensures
        names_ascending(metadata_diff(union_keys(keys_of(a.metadata@), keys_of(b.metadata@)), a, b)),
        forall|c: ChangeView|
            #[trigger] metadata_diff(union_keys(keys_of(a.metadata@), keys_of(b.metadata@)), a, b).contains(c)
                <==> metadata_transition(a, b, c),
{
    let ka = keys_of(a.metadata@);
    let kb = keys_of(b.metadata@);
    lemma_union_keys_char(ka, kb);
    let keys = union_keys(ka, kb);
    lemma_metadata_diff_char(keys, a, b);
    assert forall|c: ChangeView| metadata_transition(a, b, c) implies keys.contains(c.name) by {
        if !ka.contains(c.name) && !kb.contains(c.name) {
            lemma_metadata_lookup_absent(a.metadata@, c.name);
            lemma_metadata_lookup_absent(b.metadata@, c.name);
        }
    }
}

} // verus!

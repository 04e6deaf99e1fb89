//! License migration: recognising the current license from its text, and
//! the textual edits that move a project to the palimpsest license.
use vstd::prelude::*;
use crate::text::{
    chars_contain, chars_of, chars_occur_at, has_prefix, seq_contains, str_eq, str_starts_with,
    string_from, text_lowercase, to_lowercase,
};

verus! {

/// The license a text (already lowercased) is recognised as, by its
/// characteristic phrases, tried in a fixed order.
pub open spec fn detect_lower(l: Seq<char>) -> Option<Seq<char>> {
    if seq_contains(l, "mit license"@) || seq_contains(l, "permission is hereby granted, free of charge"@) {
        Some("MIT"@)
    } else if seq_contains(l, "apache license"@) && seq_contains(l, "version 2.0"@) {
        Some("Apache-2.0"@)
    } else if seq_contains(l, "gnu general public license"@) && seq_contains(l, "version 3"@) {
        Some("GPL-3.0"@)
    } else if seq_contains(l, "gnu general public license"@) && seq_contains(l, "version 2"@) {
        Some("GPL-2.0"@)
    } else if seq_contains(l, "gnu lesser general public license"@) {
        Some("LGPL-2.1"@)
    } else if seq_contains(l, "gnu affero general public license"@) {
        Some("AGPL-3.0"@)
    } else if seq_contains(l, "mozilla public license"@) && seq_contains(l, "2.0"@) {
        Some("MPL-2.0"@)
    } else if seq_contains(l, "bsd 2-clause"@) || (seq_contains(l, "redistribution"@) && !seq_contains(l, "3."@)) {
        Some("BSD-2-Clause"@)
    } else if seq_contains(l, "bsd 3-clause"@) {
        Some("BSD-3-Clause"@)
    } else if seq_contains(l, "isc license"@) {
        Some("ISC"@)
    } else if seq_contains(l, "unlicense"@) || seq_contains(l, "this is free and unencumbered"@) {
        Some("Unlicense"@)
    } else if seq_contains(l, "palimpsest"@) {
        Some("PMPL-1.0"@)
    } else {
        None
    }
}

/// The message when no license is recognised.
pub open spec fn undetected_message() -> Seq<char> {
    "Could not auto-detect license. Use --from to specify. Known licenses: MIT, Apache-2.0, GPL-2.0, GPL-3.0, LGPL-2.1, LGPL-3.0, AGPL-3.0, BSD-2-Clause, BSD-3-Clause, ISC, MPL-2.0, Unlicense, 0BSD"@
}

fn mentions(l: &Vec<char>, p: &str) -> (r: bool)
    ensures
        r == seq_contains(l@, p@),
{
    let pc = chars_of(p);
    chars_contain(l.as_slice(), pc.as_slice())
}

/// The license named by a LICENSE text (compared case-insensitively).
pub fn detect_from_content(content: &str) -> (r: Result<String, String>)
    ensures
        match detect_lower(text_lowercase(content@)) {
            Some(id) => r matches Ok(s) && s@ == id,
            None => r matches Err(m) && m@ == undetected_message(),
        },
{
    let lower = to_lowercase(content);
    let l = chars_of(lower.as_str());
    let id: Option<&str> = if mentions(&l, "mit license") || mentions(&l, "permission is hereby granted, free of charge") {
        Some("MIT")
    } else if mentions(&l, "apache license") && mentions(&l, "version 2.0") {
        Some("Apache-2.0")
    } else if mentions(&l, "gnu general public license") && mentions(&l, "version 3") {
        Some("GPL-3.0")
    } else if mentions(&l, "gnu general public license") && mentions(&l, "version 2") {
        Some("GPL-2.0")
    } else if mentions(&l, "gnu lesser general public license") {
        Some("LGPL-2.1")
    } else if mentions(&l, "gnu affero general public license") {
        Some("AGPL-3.0")
    } else if mentions(&l, "mozilla public license") && mentions(&l, "2.0") {
        Some("MPL-2.0")
    } else if mentions(&l, "bsd 2-clause") || (mentions(&l, "redistribution") && !mentions(&l, "3.")) {
        Some("BSD-2-Clause")
    } else if mentions(&l, "bsd 3-clause") {
        Some("BSD-3-Clause")
    } else if mentions(&l, "isc license") {
        Some("ISC")
    } else if mentions(&l, "unlicense") || mentions(&l, "this is free and unencumbered") {
        Some("Unlicense")
    } else if mentions(&l, "palimpsest") {
        Some("PMPL-1.0")
    } else {
        None
    };
    match id {
        Some(s) => Ok(String::from_str(s)),
        None => Err(String::from_str("Could not auto-detect license. Use --from to specify. Known licenses: MIT, Apache-2.0, GPL-2.0, GPL-3.0, LGPL-2.1, LGPL-3.0, AGPL-3.0, BSD-2-Clause, BSD-3-Clause, ISC, MPL-2.0, Unlicense, 0BSD")),
    }
}

/// `h` with every occurrence of `f` (left to right, not overlapping)
/// replaced by `t` (what `str::replace` computes for a non-empty `f`).
pub open spec fn replace_spec(h: Seq<char>, f: Seq<char>, t: Seq<char>) -> Seq<char>
    decreases h.len(),
{
    if h.len() == 0 || f.len() == 0 {
        h
    } else if has_prefix(h, f) {
        t + replace_spec(h.subrange(f.len() as int, h.len() as int), f, t)
    } else {
        seq![h[0]] + replace_spec(h.drop_first(), f, t)
    }
}

/// Replaces every occurrence of a non-empty `from` by `to`.
pub fn replace_all(h: &str, from: &str, to: &str) -> (r: String)
    requires
        from@.len() > 0,
    ensures
        r@ == replace_spec(h@, from@, to@),
{
    let hs = chars_of(h);
    let fs = chars_of(from);
    let ts = chars_of(to);
    let mut out: Vec<char> = Vec::new();
    let mut i: usize = 0;
    assert(hs@.subrange(0, hs@.len() as int) =~= hs@);
    while i < hs.len()
        invariant
            i <= hs@.len(),
            hs@ == h@,
            fs@ == from@,
            ts@ == to@,
            from@.len() > 0,
            replace_spec(h@, from@, to@) == out@ + replace_spec(hs@.subrange(i as int, hs@.len() as int), fs@, ts@),
        decreases hs@.len() - i,
    {
        let ghost rest = hs@.subrange(i as int, hs@.len() as int);
        if chars_occur_at(hs.as_slice(), fs.as_slice(), i) {
            assert(has_prefix(rest, fs@)) by {
                assert(rest.subrange(0, fs@.len() as int) =~= hs@.subrange(i as int, i + fs@.len()));
            }
            assert(rest.subrange(fs@.len() as int, rest.len() as int) =~= hs@.subrange(i + fs@.len(), hs@.len() as int));
            let ghost pre = out@;
            let mut k: usize = 0;
            while k < ts.len()
                invariant
                    k <= ts@.len(),
                    out@ == pre + ts@.subrange(0, k as int),
                decreases ts@.len() - k,
            {
                out.push(ts[k]);
                k = k + 1;
                assert(out@ =~= pre + ts@.subrange(0, k as int));
            }
            assert(ts@.subrange(0, ts@.len() as int) =~= ts@);
            assert(out@ + replace_spec(hs@.subrange(i + fs@.len(), hs@.len() as int), fs@, ts@) =~= pre + replace_spec(rest, fs@, ts@));
            i = i + fs.len();
        } else {
            assert(!has_prefix(rest, fs@)) by {
                if has_prefix(rest, fs@) {
                    assert(hs@.subrange(i as int, i + fs@.len()) =~= rest.subrange(0, fs@.len() as int));
                }
            }
            assert(rest.drop_first() =~= hs@.subrange(i + 1, hs@.len() as int));
            let ghost pre = out@;
            out.push(hs[i]);
            assert(out@ + replace_spec(rest.drop_first(), fs@, ts@) =~= pre + replace_spec(rest, fs@, ts@));
            i = i + 1;
        }
    }
    assert(hs@.subrange(i as int, hs@.len() as int).len() == 0);
    assert(out@ + Seq::<char>::empty() =~= out@);
    string_from(out.as_slice())
}

/// `content` with `old` replaced by `new`, when `old` occurs in it.
pub fn replace_if_present(content: &str, old: &str, new: &str) -> (r: Option<String>)
    requires
        old@.len() > 0,
    ensures
        seq_contains(content@, old@) ==> (r matches Some(s) && s@ == replace_spec(content@, old@, new@)),
        !seq_contains(content@, old@) ==> r is None,
{
    let cs = chars_of(content);
    let os = chars_of(old);
    if chars_contain(cs.as_slice(), os.as_slice()) {
        Some(replace_all(content, old, new))
    } else {
        None
    }
}

/// `SPDX-License-Identifier: <id>`.
pub fn spdx_identifier_line(id: &str) -> (r: String)
    ensures
        r@ == "SPDX-License-Identifier: "@ + id@,
{
    let mut s = String::from_str("SPDX-License-Identifier: ");
    s.append(id);
    s
}

/// The `Cargo.toml` license field `license = "<id>"`.
pub fn cargo_license_field(id: &str) -> (r: String)
    ensures
        r@ == "license = \""@ + id@ + "\""@,
{
    let mut s = String::from_str("license = \"");
    s.append(id);
    s.append("\"");
    s
}

/// The `package.json` license field `"license": "<id>"`.
pub fn package_license_field(id: &str) -> (r: String)
    ensures
        r@ == "\"license\": \""@ + id@ + "\""@,
{
    let mut s = String::from_str("\"license\": \"");
    s.append(id);
    s.append("\"");
    s
}

/// `c` with every `/` turned into `-`.
pub open spec fn slash_to_dash(c: Seq<char>) -> Seq<char> {
    c.map_values(|x: char| if x == '/' { '-' } else { x })
}

/// The name the old LICENSE file is backed up under: `LICENSE.<id>.bak`,
/// with `/` in the identifier turned into `-`.
pub fn license_backup_name(current: &str) -> (r: String)
    ensures
        r@ == "LICENSE."@ + slash_to_dash(current@) + ".bak"@,
{
    let cs = chars_of(current);
    let mut v: Vec<char> = Vec::new();
    let mut i: usize = 0;
    while i < cs.len()
        invariant
            i <= cs@.len(),
            cs@ == current@,
            v@ == slash_to_dash(cs@.subrange(0, i as int)),
        decreases cs@.len() - i,
    {
        let c = cs[i];
        v.push(if c == '/' { '-' } else { c });
        i = i + 1;
        assert(v@ =~= slash_to_dash(cs@.subrange(0, i as int)));
    }
    assert(cs@.subrange(0, cs@.len() as int) =~= cs@);
    let mut s = String::from_str("LICENSE.");
    s.append(string_from(v.as_slice()).as_str());
    s.append(".bak");
    s
}

/// Names the migration walk does not enter: hidden entries, `target`,
/// `node_modules`.
pub open spec fn migration_skips(name: Seq<char>) -> bool {
    has_prefix(name, "."@) || name == "target"@ || name == "node_modules"@
}

pub fn skip_in_migration(name: &str) -> (r: bool)
    ensures
        r == migration_skips(name@),
{
    str_starts_with(name, ".") || str_eq(name, "target") || str_eq(name, "node_modules")
}

} // verus!

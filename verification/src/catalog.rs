//! The SPDX identifier catalog: maps identifiers (the palimpsest family
//! included) to structured licenses.
use vstd::prelude::*;
use crate::family::{base_text, variant_text};
use crate::registry::registry_base;
use crate::family::{
    BaseLicense, BaseLicenseView, CcVariant, CcVariantView, License, LicenseView, PalimpsestLayer,
    PalimpsestLicense, PalimpsestLicenseView, PalimpsestVariant, PalimpsestVariantView, Version,
    full_layer,
};
use crate::text::{
    chars_of, digits_value, has_prefix, is_ascii_digit, str_eq, str_starts_with, string_from,
    text_uppercase, to_uppercase,
};

verus! {

/// Errors produced during identifier resolution.
#[derive(Debug, Clone)]
pub enum CatalogError {
    UnknownIdentifier(String),
}

/// The pieces of `s` between occurrences of `sep` (what `str::split` yields
/// for a character pattern); there is always at least one piece.
pub open spec fn split_on(s: Seq<char>, sep: char) -> Seq<Seq<char>>
    decreases s.len(),
{
    if s.len() == 0 {
        seq![Seq::<char>::empty()]
    } else {
        let r = split_on(s.drop_last(), sep);
        if s.last() == sep {
            r.push(Seq::<char>::empty())
        } else {
            r.update(r.len() - 1, r.last().push(s.last()))
        }
    }
}

pub proof fn lemma_split_nonempty(s: Seq<char>, sep: char)
    ensures
        split_on(s, sep).len() >= 1,
    decreases s.len(),
{
    if s.len() > 0 {
        lemma_split_nonempty(s.drop_last(), sep);
    }
}

/// The character views of a vector of character vectors.
pub open spec fn char_rows(v: Seq<Vec<char>>) -> Seq<Seq<char>> {
    v.map_values(|x: Vec<char>| x@)
}

/// Split a character slice at every `sep`.
pub fn split_chars(v: &[char], sep: char) -> (r: Vec<Vec<char>>)
    ensures
        char_rows(r@) == split_on(v@, sep),
{
    let mut done: Vec<Vec<char>> = Vec::new();
    let mut cur: Vec<char> = Vec::new();
    let mut i: usize = 0;
    assert(v@.subrange(0, 0) =~= Seq::<char>::empty());
    assert(char_rows(done@).push(cur@) =~= split_on(v@.subrange(0, 0), sep));
    while i < v.len()
        invariant
            i <= v@.len(),
            char_rows(done@).push(cur@) == split_on(v@.subrange(0, i as int), sep),
        decreases v@.len() - i,
    {
        let c = v[i];
        let ghost prefix = v@.subrange(0, i as int);
        assert(v@.subrange(0, i + 1).drop_last() =~= prefix);
        proof {
            lemma_split_nonempty(prefix, sep);
        }
        if c == sep {
            let finished = cur;
            done.push(finished);
            cur = Vec::new();
            assert(char_rows(done@) =~= char_rows(done@.drop_last()).push(finished@));
            assert(char_rows(done@).push(cur@) =~= split_on(v@.subrange(0, i + 1), sep));
        } else {
            let ghost old_done = done@;
            cur.push(c);
            assert(char_rows(done@).push(cur@) =~= split_on(v@.subrange(0, i + 1), sep));
        }
        i = i + 1;
    }
    assert(v@.subrange(0, v@.len() as int) =~= v@);
    let ghost before = done@;
    done.push(cur);
    assert(char_rows(done@) =~= char_rows(before).push(done@.last()@));
    done
}

/// Every character is an ASCII digit.
pub open spec fn all_digits(s: Seq<char>) -> bool {
    forall|k: int| 0 <= k < s.len() ==> is_ascii_digit(#[trigger] s[k])
}

/// What `<u32 as FromStr>::from_str` accepts: an optional `+`, then one or
/// more ASCII digits whose value fits in `u32`.
pub open spec fn parse_u32_spec(s: Seq<char>) -> Option<u32> {
    let d = if s.len() > 0 && s[0] == '+' {
        s.drop_first()
    } else {
        s
    };
    if d.len() > 0 && all_digits(d) && digits_value(d) <= u32::MAX {
        Some(digits_value(d) as u32)
    } else {
        None
    }
}

/// Parse a decimal `u32` from characters, as `str::parse::<u32>` does.
#[verifier::loop_isolation(false)]
pub fn parse_u32_chars(s: &[char]) -> (r: Option<u32>)
    ensures
        r == parse_u32_spec(s@),
{
    let start: usize = if s.len() > 0 && s[0] == '+' {
        1
    } else {
        0
    };
    let ghost d = if s@.len() > 0 && s@[0] == '+' {
        s@.drop_first()
    } else {
        s@
    };
    assert(d =~= s@.subrange(start as int, s@.len() as int));
    if start >= s.len() {
        return None;
    }
    let mut value: u64 = 0;
    let mut i: usize = start;
    while i < s.len()
        invariant
            start <= i <= s@.len(),
            d == s@.subrange(start as int, s@.len() as int),
            all_digits(s@.subrange(start as int, i as int)),
            value == digits_value(s@.subrange(start as int, i as int)),
            value <= u32::MAX,
        decreases s@.len() - i,
    {
        let c = s[i];
        if !('0' <= c && c <= '9') {
            assert(d[i - start] == c);
            assert(!is_ascii_digit(d[(i - start) as int]));
            return None;
        }
        let ghost prev = s@.subrange(start as int, i as int);
        assert(s@.subrange(start as int, i + 1).drop_last() =~= prev);
        let dv: u64 = (c as u32 - '0' as u32) as u64;
        value = value * 10 + dv;
        if value > 0xffff_ffff {
            proof {
                if all_digits(d) {
                    lemma_digits_value_grows(d, (i + 1 - start) as int);
                }
            }
            assert(d.subrange(0, (i + 1 - start) as int) =~= s@.subrange(start as int, i + 1));
            return None;
        }
        i = i + 1;
        assert(all_digits(s@.subrange(start as int, i as int)));
    }
    Some(value as u32)
}

/// The value of a digit run is at least the value of any of its prefixes.
pub proof fn lemma_digits_value_grows(s: Seq<char>, k: int)
    requires
        0 <= k <= s.len(),
        all_digits(s),
    ensures
        digits_value(s) >= digits_value(s.subrange(0, k)),
    decreases s.len(),
{
    if k < s.len() {
        assert(s.drop_last() =~= s.subrange(0, s.len() - 1));
        assert(s.subrange(0, k) =~= s.drop_last().subrange(0, k));
        lemma_digits_value_grows(s.drop_last(), k);
    } else {
        assert(s.subrange(0, k) =~= s);
    }
}

/// The first `-`-separated piece that begins with an ASCII digit.
pub open spec fn first_digit_part(parts: Seq<Seq<char>>) -> Option<Seq<char>>
    decreases parts.len(),
{
    if parts.len() == 0 {
        None
    } else if parts[0].len() > 0 && is_ascii_digit(parts[0][0]) {
        Some(parts[0])
    } else {
        first_digit_part(parts.drop_first())
    }
}

/// The `k`-th `.`-piece parsed as `u32`, or 0 when it is absent or no number.
pub open spec fn version_piece(pieces: Seq<Seq<char>>, k: int) -> u32 {
    if k < pieces.len() {
        match parse_u32_spec(pieces[k]) {
            Some(v) => v,
            None => 0,
        }
    } else {
        0
    }
}

/// The version in an identifier such as `PMPL-2.0`: the first piece after a
/// dash that starts with a digit, split at dots; no version when its major
/// part is no number.
pub open spec fn extract_version_spec(id: Seq<char>) -> Option<Version> {
    match first_digit_part(split_on(id, '-')) {
        None => None,
        Some(part) => {
            let pieces = split_on(part, '.');
            match parse_u32_spec(pieces[0]) {
                None => None,
                Some(major) => Some(
                    Version {
                        major,
                        minor: version_piece(pieces, 1),
                        patch: version_piece(pieces, 2),
                    },
                ),
            }
        },
    }
}

fn version_piece_of(pieces: &Vec<Vec<char>>, k: usize) -> (r: u32)
    ensures
        r == version_piece(char_rows(pieces@), k as int),
{
    if k < pieces.len() {
        match parse_u32_chars(pieces[k].as_slice()) {
            Some(v) => v,
            None => 0,
        }
    } else {
        0
    }
}

fn extract_version(id: &str) -> (r: Option<Version>)
    ensures
        r == extract_version_spec(id@),
{
    let chars = chars_of(id);
    let parts = split_chars(chars.as_slice(), '-');
    let ghost rows = char_rows(parts@);
    assert(rows.subrange(0, rows.len() as int) =~= rows);
    let mut i: usize = 0;
    while i < parts.len()
        invariant
            i <= parts@.len(),
            rows == char_rows(parts@),
            rows == split_on(id@, '-'),
            first_digit_part(rows) == first_digit_part(rows.subrange(i as int, rows.len() as int)),
        decreases parts@.len() - i,
    {
        let part = &parts[i];
        assert(rows.subrange(i as int, rows.len() as int).drop_first() =~= rows.subrange(
            i + 1,
            rows.len() as int,
        ));
        if part.len() > 0 && '0' <= part[0] && part[0] <= '9' {
            let pieces = split_chars(part.as_slice(), '.');
            proof {
                lemma_split_nonempty(part@, '.');
            }
            let major = match parse_u32_chars(pieces[0].as_slice()) {
                Some(m) => m,
                None => return None,
            };
            let minor = version_piece_of(&pieces, 1);
            let patch = version_piece_of(&pieces, 2);
            return Some(Version { major, minor, patch });
        }
        i = i + 1;
    }
    None
}

/// A piece that looks like a version: it contains a dot, or consists of
/// digits only (the empty piece included).
pub open spec fn version_like(p: Seq<char>) -> bool {
    p.contains('.') || all_digits(p)
}

/// The last version-like piece.
pub open spec fn last_version_like(parts: Seq<Seq<char>>) -> Option<Seq<char>>
    decreases parts.len(),
{
    if parts.len() == 0 {
        None
    } else if version_like(parts.last()) {
        Some(parts.last())
    } else {
        last_version_like(parts.drop_last())
    }
}

/// The Creative Commons variant an identifier such as `CC-BY-SA-4.0` names;
/// the flags and version are read from the upper-cased identifier.
pub open spec fn cc_of(id: Seq<char>) -> CcVariantView {
    let parts = split_on(text_uppercase(id), '-');
    CcVariantView {
        attribution: parts.contains("BY"@),
        share_alike: parts.contains("SA"@),
        non_commercial: parts.contains("NC"@),
        no_derivatives: parts.contains("ND"@),
        version: match last_version_like(parts) {
            Some(v) => v,
            None => "4.0"@,
        },
    }
}

fn rows_contain(rows: &Vec<Vec<char>>, word: &str) -> (r: bool)
    ensures
        r == char_rows(rows@).contains(word@),
{
    let w = chars_of(word);
    let mut i: usize = 0;
    while i < rows.len()
        invariant
            i <= rows@.len(),
            w@ == word@,
            forall|k: int| 0 <= k < i ==> char_rows(rows@)[k] != word@,
        decreases rows@.len() - i,
    {
        if crate::text::chars_eq(rows[i].as_slice(), w.as_slice()) {
            assert(char_rows(rows@)[i as int] == word@);
            return true;
        }
        i = i + 1;
    }
    false
}

fn is_version_like(p: &[char]) -> (r: bool)
    ensures
        r == version_like(p@),
{
    let mut has_dot = false;
    let mut digits = true;
    let mut i: usize = 0;
    while i < p.len()
        invariant
            i <= p@.len(),
            has_dot <==> p@.subrange(0, i as int).contains('.'),
            digits <==> all_digits(p@.subrange(0, i as int)),
        decreases p@.len() - i,
    {
        let c = p[i];
        let ghost prev = p@.subrange(0, i as int);
        assert(p@.subrange(0, i + 1) =~= prev.push(c));
        if c == '.' {
            has_dot = true;
            assert(p@.subrange(0, i + 1)[i as int] == '.');
        }
        if !('0' <= c && c <= '9') {
            digits = false;
            assert(!is_ascii_digit(p@.subrange(0, i + 1)[i as int]));
        }
        proof {
            if !has_dot {
                assert forall|k: int| 0 <= k < i + 1 implies #[trigger] p@.subrange(0, i + 1)[k] != '.' by {
                    if k < i {
                        assert(p@.subrange(0, i + 1)[k] == prev[k]);
                    }
                }
            }
            if digits {
                assert forall|k: int| 0 <= k < i + 1 implies is_ascii_digit(
                    #[trigger] p@.subrange(0, i + 1)[k],
                ) by {
                    if k < i {
                        assert(p@.subrange(0, i + 1)[k] == prev[k]);
                    }
                }
            }
            if has_dot && prev.contains('.') {
                let k = choose|k: int| 0 <= k < prev.len() && prev[k] == '.';
                assert(p@.subrange(0, i + 1)[k] == '.');
            }
            if !digits && !all_digits(prev) {
                let k = choose|k: int| 0 <= k < prev.len() && !is_ascii_digit(prev[k]);
                assert(p@.subrange(0, i + 1)[k] == prev[k]);
            }
        }
        i = i + 1;
    }
    assert(p@.subrange(0, p@.len() as int) =~= p@);
    has_dot || digits
}

#[verifier::loop_isolation(false)]
fn parse_cc_identifier(id: &str) -> (b: BaseLicense)
    ensures
        b@ == BaseLicenseView::CreativeCommons(cc_of(id@)),
{
    let upper = to_uppercase(id);
    let chars = chars_of(upper.as_str());
    let parts = split_chars(chars.as_slice(), '-');
    let attribution = rows_contain(&parts, "BY");
    let share_alike = rows_contain(&parts, "SA");
    let non_commercial = rows_contain(&parts, "NC");
    let no_derivatives = rows_contain(&parts, "ND");
    let ghost rows = char_rows(parts@);
    assert(rows.subrange(0, rows.len() as int) =~= rows);
    let mut i: usize = parts.len();
    let mut version = String::from_str("4.0");
    while i > 0
        invariant
            i <= parts@.len(),
            rows == char_rows(parts@),
            last_version_like(rows) == last_version_like(rows.subrange(0, i as int)),
            version@ == "4.0"@,
        decreases i,
    {
        let ghost pre = rows.subrange(0, i as int);
        assert(pre.drop_last() =~= rows.subrange(0, i - 1));
        assert(pre.last() == parts@[i - 1]@);
        if is_version_like(parts[i - 1].as_slice()) {
            let v = string_from(parts[i - 1].as_slice());
            return BaseLicense::CreativeCommons(
                CcVariant { attribution, share_alike, non_commercial, no_derivatives, version: v },
            );
        }
        i = i - 1;
    }
    BaseLicense::CreativeCommons(
        CcVariant { attribution, share_alike, non_commercial, no_derivatives, version },
    )
}

/// The palimpsest variant and base license named by an upper-cased prefix.
pub open spec fn palimpsest_by_name(name: Seq<char>) -> Option<
    (PalimpsestVariantView, BaseLicenseView),
> {
    if name == "PMPL"@ {
        Some((PalimpsestVariantView::PMPL, BaseLicenseView::MPL2))
    } else if name == "PAGPL"@ {
        Some((PalimpsestVariantView::PAGPL, BaseLicenseView::AGPL3))
    } else if name == "PGPL"@ {
        Some((PalimpsestVariantView::PGPL, BaseLicenseView::GPL3))
    } else if name == "PAPL"@ {
        Some((PalimpsestVariantView::PAPL, BaseLicenseView::Apache2))
    } else if name == "PBSD"@ {
        Some((PalimpsestVariantView::PBSD, BaseLicenseView::BSD3))
    } else if name == "PEUPL"@ {
        Some((PalimpsestVariantView::PEUPL, BaseLicenseView::EUPL12))
    } else {
        None
    }
}

/// The well-known base license with exactly this SPDX identifier.
pub open spec fn known_base(id: Seq<char>) -> Option<BaseLicenseView> {
    if id == "MIT"@ {
        Some(BaseLicenseView::MIT)
    } else if id == "Apache-2.0"@ {
        Some(BaseLicenseView::Apache2)
    } else if id == "GPL-2.0"@ || id == "GPL-2.0-only"@ {
        Some(BaseLicenseView::GPL2)
    } else if id == "GPL-3.0"@ || id == "GPL-3.0-only"@ {
        Some(BaseLicenseView::GPL3)
    } else if id == "LGPL-2.1"@ || id == "LGPL-2.1-only"@ {
        Some(BaseLicenseView::LGPL21)
    } else if id == "LGPL-3.0"@ || id == "LGPL-3.0-only"@ {
        Some(BaseLicenseView::LGPL3)
    } else if id == "AGPL-3.0"@ || id == "AGPL-3.0-only"@ {
        Some(BaseLicenseView::AGPL3)
    } else if id == "MPL-2.0"@ {
        Some(BaseLicenseView::MPL2)
    } else if id == "BSD-2-Clause"@ {
        Some(BaseLicenseView::BSD2)
    } else if id == "BSD-3-Clause"@ {
        Some(BaseLicenseView::BSD3)
    } else if id == "ISC"@ {
        Some(BaseLicenseView::ISC)
    } else if id == "EUPL-1.2"@ {
        Some(BaseLicenseView::EUPL12)
    } else if id == "Artistic-2.0"@ {
        Some(BaseLicenseView::Artistic2)
    } else if id == "CERN-OHL-S-2.0"@ {
        Some(BaseLicenseView::CERNOHLS2)
    } else if id == "Unlicense"@ {
        Some(BaseLicenseView::Unlicense)
    } else if id == "0BSD"@ {
        Some(BaseLicenseView::ZeroBSD)
    } else if id == "LicenseRef-Proprietary"@ || id == "NONE"@ {
        Some(BaseLicenseView::Proprietary)
    } else {
        None
    }
}

/// The license an identifier resolves to. Palimpsest prefixes (compared
/// upper-cased, before the first dash) come first, then the exact base
/// identifiers, then `CC-` identifiers; anything else is `Other(id)`.
pub open spec fn resolve_spec(id: Seq<char>, or_later: bool) -> LicenseView {
    match palimpsest_by_name(text_uppercase(split_on(id, '-')[0])) {
        Some((variant, base)) => {
            let version = match extract_version_spec(id) {
                Some(v) => v,
                None => Version { major: 1, minor: 0, patch: 0 },
            };
            LicenseView::Palimpsest(
                PalimpsestLicenseView {
                    variant,
                    version,
                    base,
                    layer: full_layer(version),
                    fallback: base,
                    or_later,
                },
            )
        },
        None => match known_base(id) {
            Some(b) => LicenseView::Base(b),
            None => if has_prefix(id, "CC-"@) {
                LicenseView::Base(BaseLicenseView::CreativeCommons(cc_of(id)))
            } else {
                LicenseView::Base(BaseLicenseView::Other(id))
            },
        },
    }
}

fn palimpsest_lookup(name: &str) -> (r: Option<(PalimpsestVariant, BaseLicense)>)
    ensures
        r is None <==> palimpsest_by_name(name@) is None,
        r matches Some(p) ==> palimpsest_by_name(name@) == Some((p.0@, p.1@)),
{
    if str_eq(name, "PMPL") {
        Some((PalimpsestVariant::PMPL, BaseLicense::MPL2))
    } else if str_eq(name, "PAGPL") {
        Some((PalimpsestVariant::PAGPL, BaseLicense::AGPL3))
    } else if str_eq(name, "PGPL") {
        Some((PalimpsestVariant::PGPL, BaseLicense::GPL3))
    } else if str_eq(name, "PAPL") {
        Some((PalimpsestVariant::PAPL, BaseLicense::Apache2))
    } else if str_eq(name, "PBSD") {
        Some((PalimpsestVariant::PBSD, BaseLicense::BSD3))
    } else if str_eq(name, "PEUPL") {
        Some((PalimpsestVariant::PEUPL, BaseLicense::EUPL12))
    } else {
        None
    }
}

fn known_base_of(id: &str) -> (r: Option<BaseLicense>)
    ensures
        r is None <==> known_base(id@) is None,
        r matches Some(b) ==> known_base(id@) == Some(b@),
{
    if str_eq(id, "MIT") {
        Some(BaseLicense::MIT)
    } else if str_eq(id, "Apache-2.0") {
        Some(BaseLicense::Apache2)
    } else if str_eq(id, "GPL-2.0") || str_eq(id, "GPL-2.0-only") {
        Some(BaseLicense::GPL2)
    } else if str_eq(id, "GPL-3.0") || str_eq(id, "GPL-3.0-only") {
        Some(BaseLicense::GPL3)
    } else if str_eq(id, "LGPL-2.1") || str_eq(id, "LGPL-2.1-only") {
        Some(BaseLicense::LGPL21)
    } else if str_eq(id, "LGPL-3.0") || str_eq(id, "LGPL-3.0-only") {
        Some(BaseLicense::LGPL3)
    } else if str_eq(id, "AGPL-3.0") || str_eq(id, "AGPL-3.0-only") {
        Some(BaseLicense::AGPL3)
    } else if str_eq(id, "MPL-2.0") {
        Some(BaseLicense::MPL2)
    } else if str_eq(id, "BSD-2-Clause") {
        Some(BaseLicense::BSD2)
    } else if str_eq(id, "BSD-3-Clause") {
        Some(BaseLicense::BSD3)
    } else if str_eq(id, "ISC") {
        Some(BaseLicense::ISC)
    } else if str_eq(id, "EUPL-1.2") {
        Some(BaseLicense::EUPL12)
    } else if str_eq(id, "Artistic-2.0") {
        Some(BaseLicense::Artistic2)
    } else if str_eq(id, "CERN-OHL-S-2.0") {
        Some(BaseLicense::CERNOHLS2)
    } else if str_eq(id, "Unlicense") {
        Some(BaseLicense::Unlicense)
    } else if str_eq(id, "0BSD") {
        Some(BaseLicense::ZeroBSD)
    } else if str_eq(id, "LicenseRef-Proprietary") || str_eq(id, "NONE") {
        Some(BaseLicense::Proprietary)
    } else {
        None
    }
}

/// Resolve an SPDX identifier (with its or-later flag) to a license.
/// Resolution always succeeds: unrecognised identifiers become
/// `BaseLicense::Other`.
pub fn resolve_identifier(id: &str, or_later: bool) -> (r: Result<License, CatalogError>)
    ensures
        r matches Ok(l) && l@ == resolve_spec(id@, or_later),
{
    let chars = chars_of(id);
    let parts = split_chars(chars.as_slice(), '-');
    proof {
        lemma_split_nonempty(id@, '-');
    }
    let first = string_from(parts[0].as_slice());
    let name = to_uppercase(first.as_str());
    match palimpsest_lookup(name.as_str()) {
        Some((variant, base)) => {
            let version = match extract_version(id) {
                Some(v) => v,
                None => Version { major: 1, minor: 0, patch: 0 },
            };
            let fallback = base.duplicate();
            Ok(
                License::Palimpsest(
                    PalimpsestLicense {
                        variant,
                        version,
                        base,
                        layer: PalimpsestLayer::full(version),
                        fallback,
                        or_later,
                    },
                ),
            )
        },
        None => match known_base_of(id) {
            Some(b) => Ok(License::Base(b)),
            None => if str_starts_with(id, "CC-") {
                Ok(License::Base(parse_cc_identifier(id)))
            } else {
                Ok(License::Base(BaseLicense::Other(String::from_str(id))))
            },
        },
    }
}


/// A base license with a fixed SPDX identifier (not a Creative Commons
/// variant, not an unknown identifier).
pub open spec fn well_known(b: BaseLicenseView) -> bool {
    !(b is CreativeCommons) && !(b is Other)
}

/// Identifiers round-trip: the SPDX identifier a well-known base license
/// prints as is recognised as that same license, and, unless its prefix
/// names a palimpsest variant, resolves to it (so `BSD-2-Clause` is
/// BSD-2-Clause, not BSD-3-Clause).
pub proof fn lemma_base_identifier_round_trip(b: BaseLicenseView)
    requires
        well_known(b),
    ensures
        known_base(base_text(b)) == Some(b),
        palimpsest_by_name(text_uppercase(split_on(base_text(b), '-')[0])) is None ==> resolve_spec(
            base_text(b),
            false,
        ) == LicenseView::Base(b),
{
    reveal_strlit("MIT");
    reveal_strlit("Apache-2.0");
    reveal_strlit("GPL-2.0");
    reveal_strlit("GPL-2.0-only");
    reveal_strlit("GPL-3.0");
    reveal_strlit("GPL-3.0-only");
    reveal_strlit("LGPL-2.1");
    reveal_strlit("LGPL-2.1-only");
    reveal_strlit("LGPL-3.0");
    reveal_strlit("LGPL-3.0-only");
    reveal_strlit("AGPL-3.0");
    reveal_strlit("AGPL-3.0-only");
    reveal_strlit("MPL-2.0");
    reveal_strlit("BSD-2-Clause");
    reveal_strlit("BSD-3-Clause");
    reveal_strlit("ISC");
    reveal_strlit("EUPL-1.2");
    reveal_strlit("Artistic-2.0");
    reveal_strlit("CERN-OHL-S-2.0");
    reveal_strlit("Unlicense");
    reveal_strlit("0BSD");
    reveal_strlit("LicenseRef-Proprietary");
    reveal_strlit("NONE");
    match b {
        BaseLicenseView::MIT => {
            assert(known_base(base_text(b)) == Some(b));
        },
        BaseLicenseView::Apache2 => {
            assert(known_base(base_text(b)) == Some(b));
        },
        BaseLicenseView::GPL2 => {
            assert(known_base(base_text(b)) == Some(b));
        },
        BaseLicenseView::GPL3 => {
            assert("GPL-3.0"@[4] != "GPL-2.0"@[4]);
            assert(known_base(base_text(b)) == Some(b));
        },
        BaseLicenseView::LGPL21 => {
            assert(known_base(base_text(b)) == Some(b));
        },
        BaseLicenseView::LGPL3 => {
            assert("LGPL-3.0"@[5] != "LGPL-2.1"@[5]);
            assert(known_base(base_text(b)) == Some(b));
        },
        BaseLicenseView::AGPL3 => {
            assert("AGPL-3.0"@[0] != "LGPL-2.1"@[0]);
            assert("AGPL-3.0"@[0] != "LGPL-3.0"@[0]);
            assert(known_base(base_text(b)) == Some(b));
        },
        BaseLicenseView::MPL2 => {
            assert("MPL-2.0"@[0] != "GPL-2.0"@[0]);
            assert("MPL-2.0"@[0] != "GPL-3.0"@[0]);
            assert(known_base(base_text(b)) == Some(b));
        },
        BaseLicenseView::BSD2 => {
            assert("BSD-2-Clause"@[0] != "GPL-2.0-only"@[0]);
            assert("BSD-2-Clause"@[0] != "GPL-3.0-only"@[0]);
            assert(known_base(base_text(b)) == Some(b));
        },
        BaseLicenseView::BSD3 => {
            assert("BSD-3-Clause"@[0] != "GPL-2.0-only"@[0]);
            assert("BSD-3-Clause"@[0] != "GPL-3.0-only"@[0]);
            assert("BSD-3-Clause"@[4] != "BSD-2-Clause"@[4]);
            assert(known_base(base_text(b)) == Some(b));
        },
        BaseLicenseView::ISC => {
            assert("ISC"@[0] != "MIT"@[0]);
            assert(known_base(base_text(b)) == Some(b));
        },
        BaseLicenseView::EUPL12 => {
            assert("EUPL-1.2"@[0] != "LGPL-2.1"@[0]);
            assert("EUPL-1.2"@[0] != "LGPL-3.0"@[0]);
            assert("EUPL-1.2"@[0] != "AGPL-3.0"@[0]);
            assert(known_base(base_text(b)) == Some(b));
        },
        BaseLicenseView::Artistic2 => {
            assert("Artistic-2.0"@[0] != "GPL-2.0-only"@[0]);
            assert("Artistic-2.0"@[0] != "GPL-3.0-only"@[0]);
            assert("Artistic-2.0"@[0] != "BSD-2-Clause"@[0]);
            assert("Artistic-2.0"@[0] != "BSD-3-Clause"@[0]);
            assert(known_base(base_text(b)) == Some(b));
        },
        BaseLicenseView::CERNOHLS2 => {
            assert(known_base(base_text(b)) == Some(b));
        },
        BaseLicenseView::Unlicense => {
            assert(known_base(base_text(b)) == Some(b));
        },
        BaseLicenseView::ZeroBSD => {
            assert(known_base(base_text(b)) == Some(b));
        },
        BaseLicenseView::Proprietary => {
            assert(known_base(base_text(b)) == Some(b));
        },
        _ => {},
    }
}


/// A palimpsest variant's name is recognised as that variant, over the base
/// license the family registry gives it.
pub proof fn lemma_palimpsest_name_round_trip(v: PalimpsestVariantView)
    requires
        !(v is Other),
    ensures
        registry_base(v) matches Some(b) && palimpsest_by_name(variant_text(v)) == Some((v, b)),
{
    reveal_strlit("PMPL");
    reveal_strlit("PAGPL");
    reveal_strlit("PGPL");
    reveal_strlit("PAPL");
    reveal_strlit("PBSD");
    reveal_strlit("PEUPL");
    match v {
        PalimpsestVariantView::PMPL => {
        },
        PalimpsestVariantView::PAGPL => {
            assert("PAGPL"@.len() != "PMPL"@.len());
        },
        PalimpsestVariantView::PGPL => {
            assert("PGPL"@[1] != "PMPL"@[1]);
            assert("PGPL"@.len() != "PAGPL"@.len());
        },
        PalimpsestVariantView::PAPL => {
            assert("PAPL"@[1] != "PMPL"@[1]);
            assert("PAPL"@.len() != "PAGPL"@.len());
            assert("PAPL"@[1] != "PGPL"@[1]);
        },
        PalimpsestVariantView::PBSD => {
            assert("PBSD"@[1] != "PMPL"@[1]);
            assert("PBSD"@.len() != "PAGPL"@.len());
            assert("PBSD"@[1] != "PGPL"@[1]);
            assert("PBSD"@[1] != "PAPL"@[1]);
        },
        PalimpsestVariantView::PEUPL => {
            assert("PEUPL"@.len() != "PMPL"@.len());
            assert("PEUPL"@[1] != "PAGPL"@[1]);
            assert("PEUPL"@.len() != "PGPL"@.len());
            assert("PEUPL"@.len() != "PAPL"@.len());
            assert("PEUPL"@.len() != "PBSD"@.len());
        },
        _ => {},
    }
}


/// The GNU licenses' explicit `-only` identifiers name the same license as
/// the plain ones.
pub open spec fn gnu_only_form(b: BaseLicenseView) -> bool {
    b is GPL2 || b is GPL3 || b is LGPL21 || b is LGPL3 || b is AGPL3
}

/// `GPL-2.0-only` and its kin are recognised as the license whose plain
/// identifier they extend.
pub proof fn lemma_only_identifier(b: BaseLicenseView)
    requires
        gnu_only_form(b),
    ensures
        known_base(base_text(b) + "-only"@) == Some(b),
{
    reveal_strlit("-only");
    reveal_strlit("MIT");
    reveal_strlit("Apache-2.0");
    reveal_strlit("GPL-2.0");
    reveal_strlit("GPL-2.0-only");
    reveal_strlit("GPL-3.0");
    reveal_strlit("GPL-3.0-only");
    reveal_strlit("LGPL-2.1");
    reveal_strlit("LGPL-2.1-only");
    reveal_strlit("LGPL-3.0");
    reveal_strlit("LGPL-3.0-only");
    reveal_strlit("AGPL-3.0");
    reveal_strlit("AGPL-3.0-only");
    reveal_strlit("MPL-2.0");
    reveal_strlit("BSD-2-Clause");
    reveal_strlit("BSD-3-Clause");
    reveal_strlit("ISC");
    reveal_strlit("EUPL-1.2");
    reveal_strlit("Artistic-2.0");
    reveal_strlit("CERN-OHL-S-2.0");
    reveal_strlit("Unlicense");
    reveal_strlit("0BSD");
    reveal_strlit("LicenseRef-Proprietary");
    reveal_strlit("NONE");
    match b {
        BaseLicenseView::GPL2 => {
            assert(base_text(b) + "-only"@ =~= "GPL-2.0-only"@);
            assert("GPL-2.0-only"@.len() != "MIT"@.len());
            assert("GPL-2.0-only"@.len() != "Apache-2.0"@.len());
            assert("GPL-2.0-only"@.len() != "GPL-2.0"@.len());
        },
        BaseLicenseView::GPL3 => {
            assert(base_text(b) + "-only"@ =~= "GPL-3.0-only"@);
            assert("GPL-3.0-only"@.len() != "MIT"@.len());
            assert("GPL-3.0-only"@.len() != "Apache-2.0"@.len());
            assert("GPL-3.0-only"@.len() != "GPL-2.0"@.len());
            assert("GPL-3.0-only"@[4] != "GPL-2.0-only"@[4]);
            assert("GPL-3.0-only"@.len() != "GPL-3.0"@.len());
        },
        BaseLicenseView::LGPL21 => {
            assert(base_text(b) + "-only"@ =~= "LGPL-2.1-only"@);
            assert("LGPL-2.1-only"@.len() != "MIT"@.len());
            assert("LGPL-2.1-only"@.len() != "Apache-2.0"@.len());
            assert("LGPL-2.1-only"@.len() != "GPL-2.0"@.len());
            assert("LGPL-2.1-only"@.len() != "GPL-2.0-only"@.len());
            assert("LGPL-2.1-only"@.len() != "GPL-3.0"@.len());
            assert("LGPL-2.1-only"@.len() != "GPL-3.0-only"@.len());
            assert("LGPL-2.1-only"@.len() != "LGPL-2.1"@.len());
        },
        BaseLicenseView::LGPL3 => {
            assert(base_text(b) + "-only"@ =~= "LGPL-3.0-only"@);
            assert("LGPL-3.0-only"@.len() != "MIT"@.len());
            assert("LGPL-3.0-only"@.len() != "Apache-2.0"@.len());
            assert("LGPL-3.0-only"@.len() != "GPL-2.0"@.len());
            assert("LGPL-3.0-only"@.len() != "GPL-2.0-only"@.len());
            assert("LGPL-3.0-only"@.len() != "GPL-3.0"@.len());
            assert("LGPL-3.0-only"@.len() != "GPL-3.0-only"@.len());
            assert("LGPL-3.0-only"@.len() != "LGPL-2.1"@.len());
            assert("LGPL-3.0-only"@[5] != "LGPL-2.1-only"@[5]);
            assert("LGPL-3.0-only"@.len() != "LGPL-3.0"@.len());
        },
        BaseLicenseView::AGPL3 => {
            assert(base_text(b) + "-only"@ =~= "AGPL-3.0-only"@);
            assert("AGPL-3.0-only"@.len() != "MIT"@.len());
            assert("AGPL-3.0-only"@.len() != "Apache-2.0"@.len());
            assert("AGPL-3.0-only"@.len() != "GPL-2.0"@.len());
            assert("AGPL-3.0-only"@.len() != "GPL-2.0-only"@.len());
            assert("AGPL-3.0-only"@.len() != "GPL-3.0"@.len());
            assert("AGPL-3.0-only"@.len() != "GPL-3.0-only"@.len());
            assert("AGPL-3.0-only"@.len() != "LGPL-2.1"@.len());
            assert("AGPL-3.0-only"@[0] != "LGPL-2.1-only"@[0]);
            assert("AGPL-3.0-only"@.len() != "LGPL-3.0"@.len());
            assert("AGPL-3.0-only"@[0] != "LGPL-3.0-only"@[0]);
            assert("AGPL-3.0-only"@.len() != "AGPL-3.0"@.len());
        },
        _ => {},
    }
}

} // verus!

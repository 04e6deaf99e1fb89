//! LICENSE file content analysis: the license a text states, found by key
//! phrases, translated phrases, and approximate matching.
use vstd::prelude::*;
use crate::family::{BaseLicense, BaseLicenseView};
use crate::text::{chars_of, decimal, decimal_string, seq_contains, str_contains, string_from, text_lowercase, to_lowercase, chars_contain};

verus! {

/// The edit distance of two character sequences: the least number of
/// insertions, deletions and substitutions turning one into the other.
pub open spec fn lev(a: Seq<char>, b: Seq<char>) -> nat
    decreases a.len() + b.len(),
{
    if a.len() == 0 {
        b.len()
    } else if b.len() == 0 {
        a.len()
    } else {
        let del = lev(a.drop_last(), b) + 1;
        let ins = lev(a, b.drop_last()) + 1;
        let sub = lev(a.drop_last(), b.drop_last()) + (if a.last() == b.last() {
            0nat
        } else {
            1nat
        });
        if del <= ins && del <= sub {
            del
        } else if ins <= sub {
            ins
        } else {
            sub
        }
    }
}

/// The distance never exceeds the longer length.
pub proof fn lemma_lev_bound(a: Seq<char>, b: Seq<char>)
    ensures
        lev(a, b) <= (if a.len() >= b.len() { a.len() } else { b.len() }),
    decreases a.len() + b.len(),
{
    if a.len() > 0 && b.len() > 0 {
        lemma_lev_bound(a.drop_last(), b.drop_last());
    }
}

/// A text is at distance 0 from itself.
pub proof fn lemma_lev_identity(a: Seq<char>)
    ensures
        lev(a, a) == 0,
    decreases a.len(),
{
    if a.len() > 0 {
        lemma_lev_identity(a.drop_last());
    }
}

/// The distance is symmetric.
pub proof fn lemma_lev_symmetric(a: Seq<char>, b: Seq<char>)
    ensures
        lev(a, b) == lev(b, a),
    decreases a.len() + b.len(),
{
    if a.len() > 0 && b.len() > 0 {
        lemma_lev_symmetric(a.drop_last(), b);
        lemma_lev_symmetric(a, b.drop_last());
        lemma_lev_symmetric(a.drop_last(), b.drop_last());
    }
}

/// Edit distance of two character slices (two rows of the usual table).
fn lev_chars(a: &Vec<char>, b: &Vec<char>) -> (d: usize)
    requires
        a@.len() < usize::MAX,
        b@.len() < usize::MAX,
    ensures
        d == lev(a@, b@),
{
    let n = a.len();
    let m = b.len();
    let mut prev: Vec<usize> = Vec::new();
    let mut j: usize = 0;
    while j <= m
        invariant
            j <= m + 1,
            m == b@.len(),
            m < usize::MAX,
            prev@.len() == j,
            forall|k: int| 0 <= k < j ==> prev@[k] == lev(a@.subrange(0, 0), b@.subrange(0, k)),
        decreases m + 1 - j,
    {
        prev.push(j);
        j = j + 1;
    }
    let mut i: usize = 0;
    while i < n
        invariant
            i <= n,
            n == a@.len(),
            m == b@.len(),
            n < usize::MAX,
            m < usize::MAX,
            prev@.len() == m + 1,
            forall|k: int| 0 <= k <= m ==> prev@[k] == lev(a@.subrange(0, i as int), b@.subrange(0, k)),
        decreases n - i,
    {
        let ca = a[i];
        let ghost ai = a@.subrange(0, i as int);
        let ghost ai1 = a@.subrange(0, i + 1);
        assert(ai1.drop_last() =~= ai);
        assert(ai1.last() == ca);
        let mut curr: Vec<usize> = Vec::new();
        curr.push(i + 1);
        assert(b@.subrange(0, 0).len() == 0);
        let mut k: usize = 0;
        while k < m
            invariant
                k <= m,
                i < n,
                n == a@.len(),
                m == b@.len(),
                n < usize::MAX,
                m < usize::MAX,
                ai == a@.subrange(0, i as int),
                ai1 == a@.subrange(0, i + 1),
                ai1.drop_last() == ai,
                ai1.last() == ca,
                prev@.len() == m + 1,
                forall|x: int| 0 <= x <= m ==> prev@[x] == lev(ai, b@.subrange(0, x)),
                curr@.len() == k + 1,
                forall|x: int| 0 <= x <= k ==> curr@[x] == lev(ai1, b@.subrange(0, x)),
            decreases m - k,
        {
            let cb = b[k];
            let ghost bk1 = b@.subrange(0, k + 1);
            assert(bk1.drop_last() =~= b@.subrange(0, k as int));
            assert(bk1.last() == cb);
            proof {
                lemma_lev_bound(ai, bk1);
                lemma_lev_bound(ai1, b@.subrange(0, k as int));
                lemma_lev_bound(ai, b@.subrange(0, k as int));
            }
            let cost: usize = if ca == cb {
                0
            } else {
                1
            };
            let del = prev[k + 1] + 1;
            let ins = curr[k] + 1;
            let sub = prev[k] + cost;
            let best = if del <= ins && del <= sub {
                del
            } else if ins <= sub {
                ins
            } else {
                sub
            };
            assert(best == lev(ai1, bk1));
            curr.push(best);
            k = k + 1;
        }
        prev = curr;
        i = i + 1;
    }
    assert(a@.subrange(0, n as int) =~= a@);
    assert(b@.subrange(0, m as int) =~= b@);
    prev[m]
}

/// The Levenshtein edit distance between two strings, counted in characters.
pub fn levenshtein(a: &str, b: &str) -> (d: usize)
    requires
        a@.len() < usize::MAX,
        b@.len() < usize::MAX,
    ensures
        d == lev(a@, b@),
{
    let x = chars_of(a);
    let y = chars_of(b);
    lev_chars(&x, &y)
}

/// Confidence of a license match.
#[derive(Debug, Clone, Copy, PartialEq, Eq, PartialOrd, Ord, Structural)]
pub enum MatchConfidence {
    /// A known key phrase occurs.
    Certain,
    /// A translated key phrase occurs.
    High,
    /// The start of the text is within edit distance 2 of a key phrase.
    Medium,
    /// Trigram similarity.
    Low,
    /// No match.
    Unmatched,
}

/// Result of analysing a LICENSE text.
#[derive(Debug, Clone)]
pub struct ContentMatch {
    pub license: BaseLicense,
    pub confidence: MatchConfidence,
    /// The phrase or pattern that triggered the detection.
    pub matched_phrase: String,
}

/// Number of key phrases.
pub open spec fn phrase_count() -> nat {
    19
}

/// The key phrases (lower case), most specific first, with their licenses.
pub open spec fn license_phrase(i: int) -> (Seq<char>, BaseLicenseView) {
    if i == 0 {
        ("palimpsest-mpl license"@, BaseLicenseView::MPL2)
    } else if i == 1 {
        ("palimpsest-agpl license"@, BaseLicenseView::AGPL3)
    } else if i == 2 {
        ("gnu affero general public license"@, BaseLicenseView::AGPL3)
    } else if i == 3 {
        ("mozilla public license version 2.0"@, BaseLicenseView::MPL2)
    } else if i == 4 {
        ("mozilla public license, version 2.0"@, BaseLicenseView::MPL2)
    } else if i == 5 {
        ("apache license, version 2.0"@, BaseLicenseView::Apache2)
    } else if i == 6 {
        ("apache license version 2.0"@, BaseLicenseView::Apache2)
    } else if i == 7 {
        ("gnu general public license version 3"@, BaseLicenseView::GPL3)
    } else if i == 8 {
        ("gnu general public license, version 3"@, BaseLicenseView::GPL3)
    } else if i == 9 {
        ("gnu general public license version 2"@, BaseLicenseView::GPL2)
    } else if i == 10 {
        ("gnu lesser general public license"@, BaseLicenseView::LGPL3)
    } else if i == 11 {
        ("european union public licence"@, BaseLicenseView::EUPL12)
    } else if i == 12 {
        ("bsd 3-clause"@, BaseLicenseView::BSD3)
    } else if i == 13 {
        ("bsd 2-clause"@, BaseLicenseView::BSD2)
    } else if i == 14 {
        ("mit license"@, BaseLicenseView::MIT)
    } else if i == 15 {
        ("permission is hereby granted, free of charge"@, BaseLicenseView::MIT)
    } else if i == 16 {
        ("isc license"@, BaseLicenseView::ISC)
    } else if i == 17 {
        ("the unlicense"@, BaseLicenseView::Unlicense)
    } else {
        ("this is free and unencumbered"@, BaseLicenseView::Unlicense)
    }
}

fn phrase_at(i: usize) -> (r: (&'static str, BaseLicense))
    requires
        i < 19,
    ensures
        (r.0@, r.1@) == license_phrase(i as int),
        r.0@.len() <= 64,
{
    proof {
        reveal_strlit("palimpsest-mpl license");
        reveal_strlit("palimpsest-agpl license");
        reveal_strlit("gnu affero general public license");
        reveal_strlit("mozilla public license version 2.0");
        reveal_strlit("mozilla public license, version 2.0");
        reveal_strlit("apache license, version 2.0");
        reveal_strlit("apache license version 2.0");
        reveal_strlit("gnu general public license version 3");
        reveal_strlit("gnu general public license, version 3");
        reveal_strlit("gnu general public license version 2");
        reveal_strlit("gnu lesser general public license");
        reveal_strlit("european union public licence");
        reveal_strlit("bsd 3-clause");
        reveal_strlit("bsd 2-clause");
        reveal_strlit("mit license");
        reveal_strlit("permission is hereby granted, free of charge");
        reveal_strlit("isc license");
        reveal_strlit("the unlicense");
        reveal_strlit("this is free and unencumbered");
    }
    if i == 0 {
        ("palimpsest-mpl license", BaseLicense::MPL2)
    } else if i == 1 {
        ("palimpsest-agpl license", BaseLicense::AGPL3)
    } else if i == 2 {
        ("gnu affero general public license", BaseLicense::AGPL3)
    } else if i == 3 {
        ("mozilla public license version 2.0", BaseLicense::MPL2)
    } else if i == 4 {
        ("mozilla public license, version 2.0", BaseLicense::MPL2)
    } else if i == 5 {
        ("apache license, version 2.0", BaseLicense::Apache2)
    } else if i == 6 {
        ("apache license version 2.0", BaseLicense::Apache2)
    } else if i == 7 {
        ("gnu general public license version 3", BaseLicense::GPL3)
    } else if i == 8 {
        ("gnu general public license, version 3", BaseLicense::GPL3)
    } else if i == 9 {
        ("gnu general public license version 2", BaseLicense::GPL2)
    } else if i == 10 {
        ("gnu lesser general public license", BaseLicense::LGPL3)
    } else if i == 11 {
        ("european union public licence", BaseLicense::EUPL12)
    } else if i == 12 {
        ("bsd 3-clause", BaseLicense::BSD3)
    } else if i == 13 {
        ("bsd 2-clause", BaseLicense::BSD2)
    } else if i == 14 {
        ("mit license", BaseLicense::MIT)
    } else if i == 15 {
        ("permission is hereby granted, free of charge", BaseLicense::MIT)
    } else if i == 16 {
        ("isc license", BaseLicense::ISC)
    } else if i == 17 {
        ("the unlicense", BaseLicense::Unlicense)
    } else {
        ("this is free and unencumbered", BaseLicense::Unlicense)
    }
}

/// Number of translated phrases.
pub open spec fn i18n_count() -> nat {
    8
}

/// Translated key phrases (lower case) and the licenses they identify.
pub open spec fn i18n_phrase(i: int) -> (Seq<char>, BaseLicenseView) {
    if i == 0 {
        ("licence publique de l'union européenne"@, BaseLicenseView::EUPL12)
    } else if i == 1 {
        ("open-source-lizenz für die europäische union"@, BaseLicenseView::EUPL12)
    } else if i == 2 {
        ("openbare licentie van de europese unie"@, BaseLicenseView::EUPL12)
    } else if i == 3 {
        ("licencia pública de la unión europea"@, BaseLicenseView::EUPL12)
    } else if i == 4 {
        ("licenza pubblica dell'unione europea"@, BaseLicenseView::EUPL12)
    } else if i == 5 {
        ("licença pública da união europeia"@, BaseLicenseView::EUPL12)
    } else if i == 6 {
        ("contrat de licence de logiciel libre"@, BaseLicenseView::Other("CeCILL-2.1"@))
    } else {
        ("palimpsest-mpl licentie"@, BaseLicenseView::MPL2)
    }
}

fn i18n_at(i: usize) -> (r: (&'static str, BaseLicense))
    requires
        i < 8,
    ensures
        (r.0@, r.1@) == i18n_phrase(i as int),
{
    if i == 0 {
        ("licence publique de l'union européenne", BaseLicense::EUPL12)
    } else if i == 1 {
        ("open-source-lizenz für die europäische union", BaseLicense::EUPL12)
    } else if i == 2 {
        ("openbare licentie van de europese unie", BaseLicense::EUPL12)
    } else if i == 3 {
        ("licencia pública de la unión europea", BaseLicense::EUPL12)
    } else if i == 4 {
        ("licenza pubblica dell'unione europea", BaseLicense::EUPL12)
    } else if i == 5 {
        ("licença pública da união europeia", BaseLicense::EUPL12)
    } else if i == 6 {
        ("contrat de licence de logiciel libre", BaseLicense::Other(String::from_str("CeCILL-2.1")))
    } else {
        ("palimpsest-mpl licentie", BaseLicense::MPL2)
    }
}

/// Mathematical model of a content match.
pub struct ContentMatchView {
    pub license: BaseLicenseView,
    pub confidence: MatchConfidence,
    pub matched_phrase: Seq<char>,
}

/// First key phrase (from `i` on) occurring in the text.
pub open spec fn exact_match(lower: Seq<char>, i: nat) -> Option<ContentMatchView>
    decreases phrase_count() - i,
{
    if i >= phrase_count() {
        None
    } else if seq_contains(lower, license_phrase(i as int).0) {
        Some(
            ContentMatchView {
                license: license_phrase(i as int).1,
                confidence: MatchConfidence::Certain,
                matched_phrase: license_phrase(i as int).0,
            },
        )
    } else {
        exact_match(lower, i + 1)
    }
}

/// First translated phrase (from `i` on) occurring in the text.
pub open spec fn i18n_match(lower: Seq<char>, i: nat) -> Option<ContentMatchView>
    decreases i18n_count() - i,
{
    if i >= i18n_count() {
        None
    } else if seq_contains(lower, i18n_phrase(i as int).0) {
        Some(
            ContentMatchView {
                license: i18n_phrase(i as int).1,
                confidence: MatchConfidence::High,
                matched_phrase: i18n_phrase(i as int).0,
            },
        )
    } else {
        i18n_match(lower, i + 1)
    }
}

/// First key phrase longer than ten characters (from `i` on) within edit
/// distance 2 of the sample.
pub open spec fn fuzzy_match(sample: Seq<char>, i: nat) -> Option<ContentMatchView>
    decreases phrase_count() - i,
{
    if i >= phrase_count() {
        None
    } else {
        let (p, l) = license_phrase(i as int);
        if p.len() > 10 && lev(sample, p) <= 2 {
            Some(
                ContentMatchView {
                    license: l,
                    confidence: MatchConfidence::Medium,
                    matched_phrase: (p + " (edit distance "@ + decimal(lev(sample, p))).push(')'),
                },
            )
        } else {
            fuzzy_match(sample, i + 1)
        }
    }
}

/// The license a text states: key phrases first, then translated phrases,
/// then the first 500 characters compared approximately with the phrases.
pub open spec fn detect_spec(content: Seq<char>) -> Option<ContentMatchView> {
    let lower = text_lowercase(content);
    match exact_match(lower, 0) {
        Some(m) => Some(m),
        None => match i18n_match(lower, 0) {
            Some(m) => Some(m),
            None => fuzzy_match(
                lower.subrange(0, if lower.len() <= 500 { lower.len() as int } else { 500 }),
                0,
            ),
        },
    }
}

impl ContentMatch {
    pub open spec fn view_of(self) -> ContentMatchView {
        ContentMatchView {
            license: self.license@,
            confidence: self.confidence,
            matched_phrase: self.matched_phrase@,
        }
    }
}

/// Detect the license stated by a LICENSE text.
#[verifier::loop_isolation(false)]
pub fn detect_license_from_content(content: &str) -> (r: Option<ContentMatch>)
    ensures
        match r {
            Some(m) => detect_spec(content@) == Some(m.view_of()),
            None => detect_spec(content@) is None,
        },
{
    let lower = to_lowercase(content);
    let lchars = chars_of(lower.as_str());
    let mut i: usize = 0;
    while i < 19
        invariant
            i <= 19,
            lchars@ == lower@,
            exact_match(lower@, 0) == exact_match(lower@, i as nat),
        decreases 19 - i,
    {
        let (phrase, license) = phrase_at(i);
        let pchars = chars_of(phrase);
        if chars_contain(lchars.as_slice(), pchars.as_slice()) {
            return Some(
                ContentMatch {
                    license,
                    confidence: MatchConfidence::Certain,
                    matched_phrase: String::from_str(phrase),
                },
            );
        }
        i = i + 1;
    }
    let mut k: usize = 0;
    while k < 8
        invariant
            k <= 8,
            lchars@ == lower@,
            exact_match(lower@, 0) is None,
            i18n_match(lower@, 0) == i18n_match(lower@, k as nat),
        decreases 8 - k,
    {
        let (phrase, license) = i18n_at(k);
        let pchars = chars_of(phrase);
        if chars_contain(lchars.as_slice(), pchars.as_slice()) {
            return Some(
                ContentMatch {
                    license,
                    confidence: MatchConfidence::High,
                    matched_phrase: String::from_str(phrase),
                },
            );
        }
        k = k + 1;
    }
    let cut: usize = if lchars.len() <= 500 {
        lchars.len()
    } else {
        500
    };
    let mut sample: Vec<char> = Vec::new();
    let mut s: usize = 0;
    while s < cut
        invariant
            s <= cut,
            cut <= lchars@.len(),
            sample@ == lchars@.subrange(0, s as int),
        decreases cut - s,
    {
        sample.push(lchars[s]);
        s = s + 1;
        assert(sample@ =~= lchars@.subrange(0, s as int));
    }
    let mut j: usize = 0;
    while j < 19
        invariant
            j <= 19,
            lchars@ == lower@,
            cut == (if lower@.len() <= 500 { lower@.len() as int } else { 500 }),
            sample@ == lower@.subrange(0, cut as int),
            sample@.len() <= 500,
            exact_match(lower@, 0) is None,
            i18n_match(lower@, 0) is None,
            fuzzy_match(sample@, 0) == fuzzy_match(sample@, j as nat),
        decreases 19 - j,
    {
        let (phrase, license) = phrase_at(j);
        let pchars = chars_of(phrase);
        if pchars.len() > 10 {
            proof {
                lemma_lev_bound(sample@, pchars@);
            }
            let dist = lev_chars(&sample, &pchars);
            if dist <= 2 {
                let mut m = String::from_str(phrase);
                m.append(" (edit distance ");
                let d = decimal_string(dist as u64);
                m.append(d.as_str());
                crate::text::push_char(&mut m, ')');
                return Some(ContentMatch { license, confidence: MatchConfidence::Medium, matched_phrase: m });
            }
        }
        j = j + 1;
    }
    None
}


/// The key phrases that name each license: the words its license text, or a
/// translation of it, opens with.
pub open spec fn phrase_names(p: Seq<char>, b: BaseLicenseView) -> bool {
    match b {
        BaseLicenseView::MIT => p == "mit license"@ || p
            == "permission is hereby granted, free of charge"@,
        BaseLicenseView::Apache2 => p == "apache license, version 2.0"@ || p
            == "apache license version 2.0"@,
        BaseLicenseView::GPL2 => p == "gnu general public license version 2"@,
        BaseLicenseView::GPL3 => p == "gnu general public license version 3"@ || p
            == "gnu general public license, version 3"@,
        BaseLicenseView::LGPL3 => p == "gnu lesser general public license"@,
        BaseLicenseView::AGPL3 => p == "gnu affero general public license"@ || p
            == "palimpsest-agpl license"@,
        BaseLicenseView::MPL2 => p == "mozilla public license version 2.0"@ || p
            == "mozilla public license, version 2.0"@ || p == "palimpsest-mpl license"@ || p
            == "palimpsest-mpl licentie"@,
        BaseLicenseView::BSD2 => p == "bsd 2-clause"@,
        BaseLicenseView::BSD3 => p == "bsd 3-clause"@,
        BaseLicenseView::ISC => p == "isc license"@,
        BaseLicenseView::Unlicense => p == "the unlicense"@ || p == "this is free and unencumbered"@,
        BaseLicenseView::EUPL12 => p == "european union public licence"@ || p
            == "licence publique de l'union européenne"@ || p
            == "open-source-lizenz für die europäische union"@ || p
            == "openbare licentie van de europese unie"@ || p
            == "licencia pública de la unión europea"@ || p == "licenza pubblica dell'unione europea"@
            || p == "licença pública da união europeia"@,
        BaseLicenseView::Other(id) => id == "CeCILL-2.1"@ && p == "contrat de licence de logiciel libre"@,
        _ => false,
    }
}

proof fn lemma_exact_match_found(lower: Seq<char>, i: nat)
    ensures
        exact_match(lower, i) matches Some(m) ==> exists|j: int|
            i <= j < phrase_count() && seq_contains(lower, (#[trigger] license_phrase(j)).0) && m == (
            ContentMatchView {
                license: license_phrase(j).1,
                confidence: MatchConfidence::Certain,
                matched_phrase: license_phrase(j).0,
            }),
    decreases phrase_count() - i,
{
    if i < phrase_count() && !seq_contains(lower, license_phrase(i as int).0) {
        lemma_exact_match_found(lower, i + 1);
    }
}

proof fn lemma_i18n_match_found(lower: Seq<char>, i: nat)
    ensures
        i18n_match(lower, i) matches Some(m) ==> exists|j: int|
            i <= j < i18n_count() && seq_contains(lower, (#[trigger] i18n_phrase(j)).0) && m == (
            ContentMatchView {
                license: i18n_phrase(j).1,
                confidence: MatchConfidence::High,
                matched_phrase: i18n_phrase(j).0,
            }),
    decreases i18n_count() - i,
{
    if i < i18n_count() && !seq_contains(lower, i18n_phrase(i as int).0) {
        lemma_i18n_match_found(lower, i + 1);
    }
}

proof fn lemma_fuzzy_match_found(sample: Seq<char>, i: nat)
    ensures
        fuzzy_match(sample, i) matches Some(m) ==> m.confidence == MatchConfidence::Medium && exists|j: int|
            i <= j < phrase_count() && m.license == (#[trigger] license_phrase(j)).1 && lev(
                sample,
                license_phrase(j).0,
            ) <= 2,
    decreases phrase_count() - i,
{
    if i < phrase_count() {
        let (p, l) = license_phrase(i as int);
        if !(p.len() > 10 && lev(sample, p) <= 2) {
            lemma_fuzzy_match_found(sample, i + 1);
        }
    }
}

/// Each key phrase, and each translated one, identifies the license it
/// names; so a detected license is always the one the phrase found in the
/// text names (`gnu lesser general public license` is LGPL-3.0, not
/// GPL-3.0). A certain or high-confidence match is a phrase that occurs in
/// the lower-cased text; a medium one is a license named by a key phrase
/// within edit distance 2 of the text's start.
pub proof fn lemma_detected_license_is_named(content: Seq<char>)
    ensures
        forall|i: int|
            0 <= i < phrase_count() ==> phrase_names(
                (#[trigger] license_phrase(i)).0,
                license_phrase(i).1,
            ),
        forall|i: int|
            0 <= i < i18n_count() ==> phrase_names((#[trigger] i18n_phrase(i)).0, i18n_phrase(i).1),
        detect_spec(content) matches Some(m) ==> (m.confidence == MatchConfidence::Certain
            || m.confidence == MatchConfidence::High) ==> seq_contains(
            text_lowercase(content),
            m.matched_phrase,
        ) && phrase_names(m.matched_phrase, m.license),
        detect_spec(content) matches Some(m) ==> m.confidence == MatchConfidence::Medium
            ==> exists|j: int|
            0 <= j < phrase_count() && phrase_names(
                (#[trigger] license_phrase(j)).0,
                m.license,
            ),
{
    assert forall|i: int| 0 <= i < phrase_count() implies phrase_names(
        (#[trigger] license_phrase(i)).0,
        license_phrase(i).1,
    ) by {}
    assert forall|i: int| 0 <= i < i18n_count() implies phrase_names(
        (#[trigger] i18n_phrase(i)).0,
        i18n_phrase(i).1,
    ) by {}
    let lower = text_lowercase(content);
    lemma_exact_match_found(lower, 0);
    lemma_i18n_match_found(lower, 0);
    lemma_fuzzy_match_found(
        lower.subrange(0, if lower.len() <= 500 { lower.len() as int } else { 500 }),
        0,
    );
}

} // verus!

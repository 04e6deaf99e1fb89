//! License compatibility: can two licenses coexist in one repository or
//! combined work?
use vstd::prelude::*;
use crate::family::{
    BaseLicense, BaseLicenseView, License, LicenseView, PalimpsestLicense, PalimpsestVariant,
    PalimpsestVariantView,
};

verus! {

/// Compatibility between two licenses.
#[derive(Debug, Clone, PartialEq, Eq)]
pub enum Compatibility {
    /// Fully compatible.
    Compatible,
    /// Compatible under a condition.
    Conditional(String),
    /// Cannot be combined.
    Incompatible(String),
    /// One side is proprietary; it depends on the open license's terms.
    ProprietaryDepends(String),
    /// At least one license is not covered by the rules.
    Unknown,
}

/// Mathematical model of a [`Compatibility`].
pub enum CompatibilityView {
    Compatible,
    Conditional(Seq<char>),
    Incompatible(Seq<char>),
    ProprietaryDepends(Seq<char>),
    Unknown,
}

impl View for Compatibility {
    type V = CompatibilityView;

    open spec fn view(&self) -> CompatibilityView {
        match self {
            Compatibility::Compatible => CompatibilityView::Compatible,
            Compatibility::Conditional(s) => CompatibilityView::Conditional(s@),
            Compatibility::Incompatible(s) => CompatibilityView::Incompatible(s@),
            Compatibility::ProprietaryDepends(s) => CompatibilityView::ProprietaryDepends(s@),
            Compatibility::Unknown => CompatibilityView::Unknown,
        }
    }
}

/// A warning about the compatibility of two zones.
#[derive(Debug, Clone)]
pub struct CompatWarning {
    pub zone_a: String,
    pub zone_b: String,
    pub compatibility: Compatibility,
    pub explanation: String,
}

/// The base license a license rests on (itself, or a palimpsest's base).
pub open spec fn base_of(l: LicenseView) -> BaseLicenseView {
    match l {
        LicenseView::Base(b) => b,
        LicenseView::Palimpsest(p) => p.base,
    }
}

/// The permissive base licenses.
pub open spec fn is_permissive(b: BaseLicenseView) -> bool {
    match b {
        BaseLicenseView::MIT | BaseLicenseView::Apache2 | BaseLicenseView::BSD2
        | BaseLicenseView::BSD3 | BaseLicenseView::ISC | BaseLicenseView::Unlicense
        | BaseLicenseView::ZeroBSD => true,
        _ => false,
    }
}

/// When one side is proprietary: the terms of the open side decide.
pub open spec fn proprietary_compat(a: LicenseView, b: LicenseView) -> CompatibilityView {
    let open = if base_of(a) == BaseLicenseView::Proprietary {
        b
    } else {
        a
    };
    match base_of(open) {
        BaseLicenseView::AGPL3 => CompatibilityView::ProprietaryDepends(
            "AGPL-3.0 prohibits proprietary combination in linked binaries"@,
        ),
        BaseLicenseView::GPL3 | BaseLicenseView::GPL2 => CompatibilityView::ProprietaryDepends(
            "GPL prohibits proprietary combination in linked binaries"@,
        ),
        BaseLicenseView::MPL2 => CompatibilityView::Compatible,
        BaseLicenseView::LGPL21 | BaseLicenseView::LGPL3 => CompatibilityView::Conditional(
            "LGPL allows proprietary linking but modified LGPL files must remain open"@,
        ),
        BaseLicenseView::MIT | BaseLicenseView::Apache2 | BaseLicenseView::BSD2
        | BaseLicenseView::BSD3 | BaseLicenseView::ISC | BaseLicenseView::Unlicense
        | BaseLicenseView::ZeroBSD => CompatibilityView::Compatible,
        BaseLicenseView::EUPL12 => CompatibilityView::Conditional(
            "EUPL-1.2 has a compatibility list; check if proprietary use is covered"@,
        ),
        _ => CompatibilityView::Unknown,
    }
}

/// The palimpsest rules, applied to the first palimpsest side (the left
/// one when both are palimpsest licenses) against the other side's base.
pub open spec fn palimpsest_compat(a: LicenseView, b: LicenseView) -> Option<CompatibilityView> {
    let (pv, other) = match (a, b) {
        (LicenseView::Palimpsest(p), o) => (Some(p.variant), o),
        (o, LicenseView::Palimpsest(p)) => (Some(p.variant), o),
        _ => (None, a),
    };
    match pv {
        None => None,
        Some(v) => {
            let ob = base_of(other);
            match v {
                PalimpsestVariantView::PAGPL => match ob {
                    BaseLicenseView::AGPL3 | BaseLicenseView::GPL3 => Some(
                        CompatibilityView::Compatible,
                    ),
                    BaseLicenseView::MPL2 => Some(
                        CompatibilityView::Conditional(
                            "file-level separation required (AGPL copyleft vs MPL per-file)"@,
                        ),
                    ),
                    _ => None,
                },
                PalimpsestVariantView::PMPL => match ob {
                    BaseLicenseView::MPL2 => Some(CompatibilityView::Compatible),
                    _ => None,
                },
                PalimpsestVariantView::PGPL => match ob {
                    BaseLicenseView::AGPL3 | BaseLicenseView::GPL3 | BaseLicenseView::MIT
                    | BaseLicenseView::BSD3 | BaseLicenseView::BSD2 => Some(
                        CompatibilityView::Compatible,
                    ),
                    _ => None,
                },
                PalimpsestVariantView::PAPL => Some(CompatibilityView::Compatible),
                PalimpsestVariantView::PBSD => Some(CompatibilityView::Compatible),
                PalimpsestVariantView::PEUPL => match ob {
                    BaseLicenseView::GPL3 | BaseLicenseView::AGPL3 | BaseLicenseView::LGPL3 => Some(
                        CompatibilityView::Compatible,
                    ),
                    _ => None,
                },
                PalimpsestVariantView::Other(_) => None,
            }
        },
    }
}

/// Standard rules between two base licenses.
pub open spec fn base_compat(a: BaseLicenseView, b: BaseLicenseView) -> CompatibilityView {
    if is_permissive(a) || is_permissive(b) {
        CompatibilityView::Compatible
    } else {
        match (a, b) {
            (BaseLicenseView::GPL3, BaseLicenseView::AGPL3) | (
                BaseLicenseView::AGPL3,
                BaseLicenseView::GPL3,
            ) => CompatibilityView::Compatible,
            (BaseLicenseView::GPL3, BaseLicenseView::LGPL3) | (
                BaseLicenseView::LGPL3,
                BaseLicenseView::GPL3,
            ) => CompatibilityView::Compatible,
            (BaseLicenseView::GPL3, BaseLicenseView::MPL2) | (
                BaseLicenseView::MPL2,
                BaseLicenseView::GPL3,
            ) => CompatibilityView::Conditional(
                "MPL-2.0 Section 3.3 allows relicensing under GPL"@,
            ),
            (BaseLicenseView::AGPL3, BaseLicenseView::MPL2) | (
                BaseLicenseView::MPL2,
                BaseLicenseView::AGPL3,
            ) => CompatibilityView::Conditional(
                "file-level separation required (AGPL copyleft vs MPL per-file)"@,
            ),
            (BaseLicenseView::GPL2, BaseLicenseView::GPL3) | (
                BaseLicenseView::GPL3,
                BaseLicenseView::GPL2,
            ) => CompatibilityView::Incompatible(
                "GPL-2.0-only and GPL-3.0 are incompatible without 'or later' clause"@,
            ),
            _ => CompatibilityView::Unknown,
        }
    }
}

/// Compatibility of two licenses: identical licenses are compatible; a
/// proprietary side defers to the open side's terms; then the palimpsest
/// rules; then the base-license rules.
pub open spec fn compat_spec(a: LicenseView, b: LicenseView) -> CompatibilityView {
    if a == b {
        CompatibilityView::Compatible
    } else if base_of(a) == BaseLicenseView::Proprietary || base_of(b)
        == BaseLicenseView::Proprietary {
        proprietary_compat(a, b)
    } else {
        match palimpsest_compat(a, b) {
            Some(c) => c,
            None => base_compat(base_of(a), base_of(b)),
        }
    }
}

fn palimpsest_same(a: &PalimpsestLicense, b: &PalimpsestLicense) -> (r: bool)
    ensures
        r == (a@ == b@),
{
    a.variant.same(&b.variant) && a.version == b.version && a.base.same(&b.base) && a.layer
        == b.layer && a.fallback.same(&b.fallback) && a.or_later == b.or_later
}

pub fn license_same(a: &License, b: &License) -> (r: bool)
    ensures
        r == (a@ == b@),
{
    match (a, b) {
        (License::Base(x), License::Base(y)) => x.same(y),
        (License::Palimpsest(x), License::Palimpsest(y)) => palimpsest_same(x, y),
        _ => false,
    }
}

fn extract_base(license: &License) -> (r: &BaseLicense)
    ensures
        r@ == base_of(license@),
{
    match license {
        License::Base(base) => base,
        License::Palimpsest(p) => &p.base,
    }
}

fn check_proprietary_compat(a: &License, b: &License) -> (r: Compatibility)
    ensures
        r@ == proprietary_compat(a@, b@),
{
    let open = if let BaseLicense::Proprietary = extract_base(a) {
        b
    } else {
        a
    };
    match extract_base(open) {
        BaseLicense::AGPL3 => Compatibility::ProprietaryDepends(
            String::from_str("AGPL-3.0 prohibits proprietary combination in linked binaries"),
        ),
        BaseLicense::GPL3 | BaseLicense::GPL2 => Compatibility::ProprietaryDepends(
            String::from_str("GPL prohibits proprietary combination in linked binaries"),
        ),
        BaseLicense::MPL2 => Compatibility::Compatible,
        BaseLicense::LGPL21 | BaseLicense::LGPL3 => Compatibility::Conditional(
            String::from_str(
                "LGPL allows proprietary linking but modified LGPL files must remain open",
            ),
        ),
        BaseLicense::MIT | BaseLicense::Apache2 | BaseLicense::BSD2 | BaseLicense::BSD3
        | BaseLicense::ISC | BaseLicense::Unlicense | BaseLicense::ZeroBSD =>
            Compatibility::Compatible,
        BaseLicense::EUPL12 => Compatibility::Conditional(
            String::from_str(
                "EUPL-1.2 has a compatibility list; check if proprietary use is covered",
            ),
        ),
        _ => Compatibility::Unknown,
    }
}

fn check_palimpsest_compat(a: &License, b: &License) -> (r: Option<Compatibility>)
    ensures
        r is None <==> palimpsest_compat(a@, b@) is None,
        r matches Some(c) ==> palimpsest_compat(a@, b@) == Some(c@),
{
    let (palimpsest, other) = match (a, b) {
        (License::Palimpsest(p), other) => (p, other),
        (other, License::Palimpsest(p)) => (p, other),
        _ => return None,
    };
    let other_base = extract_base(other);
    match &palimpsest.variant {
        PalimpsestVariant::PAGPL => match other_base {
            BaseLicense::AGPL3 | BaseLicense::GPL3 => Some(Compatibility::Compatible),
            BaseLicense::MPL2 => Some(
                Compatibility::Conditional(
                    String::from_str(
                        "file-level separation required (AGPL copyleft vs MPL per-file)",
                    ),
                ),
            ),
            _ => None,
        },
        PalimpsestVariant::PMPL => match other_base {
            BaseLicense::MPL2 => Some(Compatibility::Compatible),
            _ => None,
        },
        PalimpsestVariant::PGPL => match other_base {
            BaseLicense::AGPL3 | BaseLicense::GPL3 | BaseLicense::MIT | BaseLicense::BSD3
            | BaseLicense::BSD2 => Some(Compatibility::Compatible),
            _ => None,
        },
        PalimpsestVariant::PAPL => Some(Compatibility::Compatible),
        PalimpsestVariant::PBSD => Some(Compatibility::Compatible),
        PalimpsestVariant::PEUPL => match other_base {
            BaseLicense::GPL3 | BaseLicense::AGPL3 | BaseLicense::LGPL3 => Some(
                Compatibility::Compatible,
            ),
            _ => None,
        },
        PalimpsestVariant::Other(_) => None,
    }
}

fn permissive(b: &BaseLicense) -> (r: bool)
    ensures
        r == is_permissive(b@),
{
    match b {
        BaseLicense::MIT | BaseLicense::Apache2 | BaseLicense::BSD2 | BaseLicense::BSD3
        | BaseLicense::ISC | BaseLicense::Unlicense | BaseLicense::ZeroBSD => true,
        _ => false,
    }
}

fn check_base_compat(a: &BaseLicense, b: &BaseLicense) -> (r: Compatibility)
    ensures
        r@ == base_compat(a@, b@),
{
    if permissive(a) || permissive(b) {
        return Compatibility::Compatible;
    }
    match (a, b) {
        (BaseLicense::GPL3, BaseLicense::AGPL3) | (BaseLicense::AGPL3, BaseLicense::GPL3) =>
            Compatibility::Compatible,
        (BaseLicense::GPL3, BaseLicense::LGPL3) | (BaseLicense::LGPL3, BaseLicense::GPL3) =>
            Compatibility::Compatible,
        (BaseLicense::GPL3, BaseLicense::MPL2) | (BaseLicense::MPL2, BaseLicense::GPL3) =>
            Compatibility::Conditional(
            String::from_str("MPL-2.0 Section 3.3 allows relicensing under GPL"),
        ),
        (BaseLicense::AGPL3, BaseLicense::MPL2) | (BaseLicense::MPL2, BaseLicense::AGPL3) =>
            Compatibility::Conditional(
            String::from_str("file-level separation required (AGPL copyleft vs MPL per-file)"),
        ),
        (BaseLicense::GPL2, BaseLicense::GPL3) | (BaseLicense::GPL3, BaseLicense::GPL2) =>
            Compatibility::Incompatible(
            String::from_str(
                "GPL-2.0-only and GPL-3.0 are incompatible without 'or later' clause",
            ),
        ),
        _ => Compatibility::Unknown,
    }
}

/// Check the compatibility of two licenses.
pub fn check_compatibility(a: &License, b: &License) -> (r: Compatibility)
    ensures
        r@ == compat_spec(a@, b@),
{
    if license_same(a, b) {
        return Compatibility::Compatible;
    }
    let base_a = extract_base(a);
    let base_b = extract_base(b);
    if matches!(base_a, BaseLicense::Proprietary) || matches!(base_b, BaseLicense::Proprietary) {
        return check_proprietary_compat(a, b);
    }
    if let Some(c) = check_palimpsest_compat(a, b) {
        return c;
    }
    check_base_compat(base_a, base_b)
}

/// A license is always compatible with itself.
pub proof fn lemma_compat_reflexive(a: LicenseView)
    ensures
        compat_spec(a, a) == CompatibilityView::Compatible,
{
}

/// Compatibility does not depend on the order of the two licenses, unless
/// both are palimpsest licenses (then the left one's rules are applied).
pub proof fn lemma_compat_symmetric(a: LicenseView, b: LicenseView)
    requires
        !(a is Palimpsest && b is Palimpsest),
    ensures
        compat_spec(a, b) == compat_spec(b, a),
{
}

/// The Apache-based palimpsest variant is compatible with every license.
pub proof fn lemma_papl_compatible_with_all(a: LicenseView, b: LicenseView)
    requires
        a matches LicenseView::Palimpsest(p) && p.variant == PalimpsestVariantView::PAPL
            && p.base == BaseLicenseView::Apache2,
    ensures
        compat_spec(a, b) == CompatibilityView::Compatible,
        compat_spec(b, a) == CompatibilityView::Compatible,
{
}

/// Proprietary code may be combined with MPL-2.0 code (per-file copyleft),
/// but never with AGPL-3.0 or GPL code.
pub proof fn lemma_proprietary_rules(other: LicenseView)
    requires
        base_of(other) != BaseLicenseView::Proprietary,
    ensures
        base_of(other) == BaseLicenseView::MPL2 ==> compat_spec(
            other,
            LicenseView::Base(BaseLicenseView::Proprietary),
        ) == CompatibilityView::Compatible,
        (base_of(other) == BaseLicenseView::AGPL3 || base_of(other) == BaseLicenseView::GPL3
            || base_of(other) == BaseLicenseView::GPL2) ==> compat_spec(
            other,
            LicenseView::Base(BaseLicenseView::Proprietary),
        ) is ProprietaryDepends,
{
}

} // verus!

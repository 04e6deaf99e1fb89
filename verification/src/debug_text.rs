//! The `Debug` rendering of licenses and SPDX expressions, in the form Rust
//! derives for these types: a variant's name, its fields in brackets; a
//! struct's name and `field: value` pairs in braces; strings quoted and
//! escaped.
use vstd::prelude::*;
use crate::family::{
    BaseLicense, BaseLicenseView, CcVariant, CcVariantView, License, LicenseView, PalimpsestLayer,
    PalimpsestLicense, PalimpsestLicenseView, PalimpsestVariant, PalimpsestVariantView, Version,
};
use crate::spdx::{SpdxExpr, SpdxExprView};
use crate::text::{debug_str, decimal, decimal_string, str_debug_text};

verus! {

/// `true` or `false`.
pub open spec fn bool_text(b: bool) -> Seq<char> {
    if b {
        "true"@
    } else {
        "false"@
    }
}

fn bool_string(b: bool) -> (s: String)
    ensures
        s@ == bool_text(b),
{
    if b {
        String::from_str("true")
    } else {
        String::from_str("false")
    }
}

/// `Version { major: 2, minor: 0, patch: 0 }`.
pub open spec fn version_debug(v: Version) -> Seq<char> {
    "Version { major: "@ + decimal(v.major as nat) + ", minor: "@ + decimal(v.minor as nat)
        + ", patch: "@ + decimal(v.patch as nat) + " }"@
}

fn version_debug_string(v: Version) -> (s: String)
    ensures
        s@ == version_debug(v),
{
    let mut s = String::from_str("Version { major: ");
    s.append(decimal_string(v.major as u64).as_str());
    s.append(", minor: ");
    s.append(decimal_string(v.minor as u64).as_str());
    s.append(", patch: ");
    s.append(decimal_string(v.patch as u64).as_str());
    s.append(" }");
    s
}

/// `CcVariant { attribution: .., share_alike: .., non_commercial: ..,
/// no_derivatives: .., version: ".." }`.
pub open spec fn cc_debug(c: CcVariantView) -> Seq<char> {
    "CcVariant { attribution: "@ + bool_text(c.attribution) + ", share_alike: "@ + bool_text(
        c.share_alike,
    ) + ", non_commercial: "@ + bool_text(c.non_commercial) + ", no_derivatives: "@ + bool_text(
        c.no_derivatives,
    ) + ", version: "@ + str_debug_text(c.version) + " }"@
}

fn cc_debug_string(c: &CcVariant) -> (s: String)
    ensures
        s@ == cc_debug(c@),
{
    let mut s = String::from_str("CcVariant { attribution: ");
    s.append(bool_string(c.attribution).as_str());
    s.append(", share_alike: ");
    s.append(bool_string(c.share_alike).as_str());
    s.append(", non_commercial: ");
    s.append(bool_string(c.non_commercial).as_str());
    s.append(", no_derivatives: ");
    s.append(bool_string(c.no_derivatives).as_str());
    s.append(", version: ");
    s.append(debug_str(c.version.as_str()).as_str());
    s.append(" }");
    s
}

/// The variant's name, with its field in brackets where it has one.
pub open spec fn base_debug(b: BaseLicenseView) -> Seq<char> {
    match b {
        BaseLicenseView::MIT => "MIT"@,
        BaseLicenseView::Apache2 => "Apache2"@,
        BaseLicenseView::GPL2 => "GPL2"@,
        BaseLicenseView::GPL3 => "GPL3"@,
        BaseLicenseView::LGPL21 => "LGPL21"@,
        BaseLicenseView::LGPL3 => "LGPL3"@,
        BaseLicenseView::AGPL3 => "AGPL3"@,
        BaseLicenseView::MPL2 => "MPL2"@,
        BaseLicenseView::BSD2 => "BSD2"@,
        BaseLicenseView::BSD3 => "BSD3"@,
        BaseLicenseView::ISC => "ISC"@,
        BaseLicenseView::EUPL12 => "EUPL12"@,
        BaseLicenseView::Artistic2 => "Artistic2"@,
        BaseLicenseView::CERNOHLS2 => "CERNOHLS2"@,
        BaseLicenseView::Unlicense => "Unlicense"@,
        BaseLicenseView::ZeroBSD => "ZeroBSD"@,
        BaseLicenseView::Proprietary => "Proprietary"@,
        BaseLicenseView::CreativeCommons(c) => "CreativeCommons("@ + cc_debug(c) + ")"@,
        BaseLicenseView::Other(id) => "Other("@ + str_debug_text(id) + ")"@,
    }
}

fn base_debug_string(b: &BaseLicense) -> (s: String)
    ensures
        s@ == base_debug(b@),
{
    match b {
        BaseLicense::MIT => String::from_str("MIT"),
        BaseLicense::Apache2 => String::from_str("Apache2"),
        BaseLicense::GPL2 => String::from_str("GPL2"),
        BaseLicense::GPL3 => String::from_str("GPL3"),
        BaseLicense::LGPL21 => String::from_str("LGPL21"),
        BaseLicense::LGPL3 => String::from_str("LGPL3"),
        BaseLicense::AGPL3 => String::from_str("AGPL3"),
        BaseLicense::MPL2 => String::from_str("MPL2"),
        BaseLicense::BSD2 => String::from_str("BSD2"),
        BaseLicense::BSD3 => String::from_str("BSD3"),
        BaseLicense::ISC => String::from_str("ISC"),
        BaseLicense::EUPL12 => String::from_str("EUPL12"),
        BaseLicense::Artistic2 => String::from_str("Artistic2"),
        BaseLicense::CERNOHLS2 => String::from_str("CERNOHLS2"),
        BaseLicense::Unlicense => String::from_str("Unlicense"),
        BaseLicense::ZeroBSD => String::from_str("ZeroBSD"),
        BaseLicense::Proprietary => String::from_str("Proprietary"),
        BaseLicense::CreativeCommons(c) => {
            let mut s = String::from_str("CreativeCommons(");
            s.append(cc_debug_string(c).as_str());
            s.append(")");
            s
        },
        BaseLicense::Other(id) => {
            let mut s = String::from_str("Other(");
            s.append(debug_str(id.as_str()).as_str());
            s.append(")");
            s
        },
    }
}

/// `PalimpsestLayer { version: .., emotional_lineage: .., .. }`, the
/// fields in declaration order.
pub open spec fn layer_debug(l: PalimpsestLayer) -> Seq<char> {
    "PalimpsestLayer { version: "@ + version_debug(l.version) + ", emotional_lineage: "@
        + bool_text(l.emotional_lineage) + ", ai_notice: "@ + bool_text(l.ai_notice)
        + ", ethical_use: "@ + bool_text(l.ethical_use) + ", provenance_metadata: "@ + bool_text(
        l.provenance_metadata,
    ) + ", quantum_safe: "@ + bool_text(l.quantum_safe) + ", lineage_chain: "@ + bool_text(
        l.lineage_chain,
    ) + ", governance: "@ + bool_text(l.governance) + " }"@
}

fn layer_debug_string(l: PalimpsestLayer) -> (s: String)
    ensures
        s@ == layer_debug(l),
{
    let mut s = String::from_str("PalimpsestLayer { version: ");
    s.append(version_debug_string(l.version).as_str());
    s.append(", emotional_lineage: ");
    s.append(bool_string(l.emotional_lineage).as_str());
    s.append(", ai_notice: ");
    s.append(bool_string(l.ai_notice).as_str());
    s.append(", ethical_use: ");
    s.append(bool_string(l.ethical_use).as_str());
    s.append(", provenance_metadata: ");
    s.append(bool_string(l.provenance_metadata).as_str());
    s.append(", quantum_safe: ");
    s.append(bool_string(l.quantum_safe).as_str());
    s.append(", lineage_chain: ");
    s.append(bool_string(l.lineage_chain).as_str());
    s.append(", governance: ");
    s.append(bool_string(l.governance).as_str());
    s.append(" }");
    s
}

/// The variant's name, or `Other("..")`.
pub open spec fn variant_debug(v: PalimpsestVariantView) -> Seq<char> {
    match v {
        PalimpsestVariantView::PMPL => "PMPL"@,
        PalimpsestVariantView::PAGPL => "PAGPL"@,
        PalimpsestVariantView::PGPL => "PGPL"@,
        PalimpsestVariantView::PAPL => "PAPL"@,
        PalimpsestVariantView::PBSD => "PBSD"@,
        PalimpsestVariantView::PEUPL => "PEUPL"@,
        PalimpsestVariantView::Other(name) => "Other("@ + str_debug_text(name) + ")"@,
    }
}

fn variant_debug_string(v: &PalimpsestVariant) -> (s: String)
    ensures
        s@ == variant_debug(v@),
{
    match v {
        PalimpsestVariant::PMPL => String::from_str("PMPL"),
        PalimpsestVariant::PAGPL => String::from_str("PAGPL"),
        PalimpsestVariant::PGPL => String::from_str("PGPL"),
        PalimpsestVariant::PAPL => String::from_str("PAPL"),
        PalimpsestVariant::PBSD => String::from_str("PBSD"),
        PalimpsestVariant::PEUPL => String::from_str("PEUPL"),
        PalimpsestVariant::Other(name) => {
            let mut s = String::from_str("Other(");
            s.append(debug_str(name.as_str()).as_str());
            s.append(")");
            s
        },
    }
}

/// `PalimpsestLicense { variant: .., version: .., base: .., layer: ..,
/// fallback: .., or_later: .. }`.
pub open spec fn palimpsest_debug(p: PalimpsestLicenseView) -> Seq<char> {
    "PalimpsestLicense { variant: "@ + variant_debug(p.variant) + ", version: "@ + version_debug(
        p.version,
    ) + ", base: "@ + base_debug(p.base) + ", layer: "@ + layer_debug(p.layer) + ", fallback: "@
        + base_debug(p.fallback) + ", or_later: "@ + bool_text(p.or_later) + " }"@
}

fn palimpsest_debug_string(p: &PalimpsestLicense) -> (s: String)
    ensures
        s@ == palimpsest_debug(p@),
{
    let mut s = String::from_str("PalimpsestLicense { variant: ");
    s.append(variant_debug_string(&p.variant).as_str());
    s.append(", version: ");
    s.append(version_debug_string(p.version).as_str());
    s.append(", base: ");
    s.append(base_debug_string(&p.base).as_str());
    s.append(", layer: ");
    s.append(layer_debug_string(p.layer).as_str());
    s.append(", fallback: ");
    s.append(base_debug_string(&p.fallback).as_str());
    s.append(", or_later: ");
    s.append(bool_string(p.or_later).as_str());
    s.append(" }");
    s
}

/// `Base(..)` or `Palimpsest(..)`.
pub open spec fn license_debug(l: LicenseView) -> Seq<char> {
    match l {
        LicenseView::Base(b) => "Base("@ + base_debug(b) + ")"@,
        LicenseView::Palimpsest(p) => "Palimpsest("@ + palimpsest_debug(p) + ")"@,
    }
}

fn license_debug_string(l: &License) -> (s: String)
    ensures
        s@ == license_debug(l@),
{
    match l {
        License::Base(b) => {
            let mut s = String::from_str("Base(");
            s.append(base_debug_string(b).as_str());
            s.append(")");
            s
        },
        License::Palimpsest(p) => {
            let mut s = String::from_str("Palimpsest(");
            s.append(palimpsest_debug_string(p).as_str());
            s.append(")");
            s
        },
    }
}

/// `Simple(..)`, `Or(.., ..)`, `And(.., ..)` or `With(.., "..")`.
pub open spec fn expr_debug(e: SpdxExprView) -> Seq<char>
    decreases e,
{
    match e {
        SpdxExprView::Simple(l) => "Simple("@ + license_debug(l) + ")"@,
        SpdxExprView::Or(a, b) => "Or("@ + expr_debug(*a) + ", "@ + expr_debug(*b) + ")"@,
        SpdxExprView::And(a, b) => "And("@ + expr_debug(*a) + ", "@ + expr_debug(*b) + ")"@,
        SpdxExprView::With(a, x) => "With("@ + expr_debug(*a) + ", "@ + str_debug_text(x) + ")"@,
    }
}

/// The `Debug` rendering of an expression.
pub fn expr_debug_string(e: &SpdxExpr) -> (s: String)
    ensures
        s@ == expr_debug(e@),
    decreases e,
{
    match e {
        SpdxExpr::Simple(l) => {
            let mut s = String::from_str("Simple(");
            s.append(license_debug_string(l).as_str());
            s.append(")");
            s
        },
        SpdxExpr::Or(a, b) => {
            let mut s = String::from_str("Or(");
            s.append(expr_debug_string(a).as_str());
            s.append(", ");
            s.append(expr_debug_string(b).as_str());
            s.append(")");
            s
        },
        SpdxExpr::And(a, b) => {
            let mut s = String::from_str("And(");
            s.append(expr_debug_string(a).as_str());
            s.append(", ");
            s.append(expr_debug_string(b).as_str());
            s.append(")");
            s
        },
        SpdxExpr::With(a, x) => {
            let mut s = String::from_str("With(");
            s.append(expr_debug_string(a).as_str());
            s.append(", ");
            s.append(debug_str(x.as_str()).as_str());
            s.append(")");
            s
        },
    }
}

} // verus!

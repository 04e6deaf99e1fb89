//! The palimpsest family registry: each variant, the base license it
//! extends, and whether it has been published.
use vstd::prelude::*;
use crate::family::{
    BaseLicense, BaseLicenseView, PalimpsestLayer, PalimpsestLicense, PalimpsestLicenseView,
    PalimpsestVariant, PalimpsestVariantView, Version, full_layer,
};

verus! {

/// A registry entry describing one palimpsest variant.
#[derive(Debug, Clone)]
pub struct RegistryEntry {
    pub variant: PalimpsestVariant,
    /// Human-readable full name.
    pub full_name: &'static str,
    /// Short description of the variant.
    pub description: &'static str,
    /// The base license this variant extends.
    pub base: BaseLicense,
    /// Whether this variant has been published (rather than proposed).
    pub published: bool,
}

/// Number of entries in the registry.
pub open spec fn registry_len() -> nat {
    6
}

/// The variant at position `i` of the registry.
pub open spec fn registry_variant(i: int) -> PalimpsestVariantView {
    if i == 0 {
        PalimpsestVariantView::PMPL
    } else if i == 1 {
        PalimpsestVariantView::PAGPL
    } else if i == 2 {
        PalimpsestVariantView::PGPL
    } else if i == 3 {
        PalimpsestVariantView::PAPL
    } else if i == 4 {
        PalimpsestVariantView::PBSD
    } else {
        PalimpsestVariantView::PEUPL
    }
}

/// The base license a registered variant extends; `None` for an unregistered one.
pub open spec fn registry_base(v: PalimpsestVariantView) -> Option<BaseLicenseView> {
    match v {
        PalimpsestVariantView::PMPL => Some(BaseLicenseView::MPL2),
        PalimpsestVariantView::PAGPL => Some(BaseLicenseView::AGPL3),
        PalimpsestVariantView::PGPL => Some(BaseLicenseView::GPL3),
        PalimpsestVariantView::PAPL => Some(BaseLicenseView::Apache2),
        PalimpsestVariantView::PBSD => Some(BaseLicenseView::BSD3),
        PalimpsestVariantView::PEUPL => Some(BaseLicenseView::EUPL12),
        PalimpsestVariantView::Other(_) => None,
    }
}

/// Only the Mozilla-based variant has been published.
pub open spec fn registry_published(v: PalimpsestVariantView) -> bool {
    v == PalimpsestVariantView::PMPL
}

/// The full name of a registered variant.
pub open spec fn registry_full_name(v: PalimpsestVariantView) -> Seq<char> {
    match v {
        PalimpsestVariantView::PMPL => "Palimpsest Mozilla Public License"@,
        PalimpsestVariantView::PAGPL => "Palimpsest Affero General Public License"@,
        PalimpsestVariantView::PGPL => "Palimpsest General Public License"@,
        PalimpsestVariantView::PAPL => "Palimpsest Apache License"@,
        PalimpsestVariantView::PBSD => "Palimpsest BSD License"@,
        PalimpsestVariantView::PEUPL => "Palimpsest European Union Public License"@,
        PalimpsestVariantView::Other(_) => seq![],
    }
}

/// The one-line description of a registered variant.
pub open spec fn registry_description(v: PalimpsestVariantView) -> Seq<char> {
    match v {
        PalimpsestVariantView::PMPL => "Palimpsest layer on MPL-2.0 — file-level copyleft with provenance"@,
        PalimpsestVariantView::PAGPL => "Palimpsest layer on AGPL-3.0 — strongest copyleft with network clause"@,
        PalimpsestVariantView::PGPL => "Palimpsest layer on GPL-3.0 — standard copyleft with provenance"@,
        PalimpsestVariantView::PAPL => "Palimpsest layer on Apache-2.0 — permissive with patent grant and provenance"@,
        PalimpsestVariantView::PBSD => "Palimpsest layer on BSD-3-Clause — minimal copyleft with provenance"@,
        PalimpsestVariantView::PEUPL => "Palimpsest layer on EUPL-1.2 — EU-compatible copyleft with provenance"@,
        PalimpsestVariantView::Other(_) => seq![],
    }
}

/// `e` is the registry entry of the variant `v`.
pub open spec fn entry_for(e: RegistryEntry, v: PalimpsestVariantView) -> bool {
    &&& e.variant@ == v
    &&& registry_base(v) == Some(e.base@)
    &&& e.published == registry_published(v)
    &&& e.full_name@ == registry_full_name(v)
    &&& e.description@ == registry_description(v)
}

fn entry_at(i: usize) -> (e: RegistryEntry)
    requires
        i < registry_len(),
    ensures
        entry_for(e, registry_variant(i as int)),
{
    if i == 0 {
        RegistryEntry {
            variant: PalimpsestVariant::PMPL,
            full_name: "Palimpsest Mozilla Public License",
            description: "Palimpsest layer on MPL-2.0 — file-level copyleft with provenance",
            base: BaseLicense::MPL2,
            published: true,
        }
    } else if i == 1 {
        RegistryEntry {
            variant: PalimpsestVariant::PAGPL,
            full_name: "Palimpsest Affero General Public License",
            description: "Palimpsest layer on AGPL-3.0 — strongest copyleft with network clause",
            base: BaseLicense::AGPL3,
            published: false,
        }
    } else if i == 2 {
        RegistryEntry {
            variant: PalimpsestVariant::PGPL,
            full_name: "Palimpsest General Public License",
            description: "Palimpsest layer on GPL-3.0 — standard copyleft with provenance",
            base: BaseLicense::GPL3,
            published: false,
        }
    } else if i == 3 {
        RegistryEntry {
            variant: PalimpsestVariant::PAPL,
            full_name: "Palimpsest Apache License",
            description: "Palimpsest layer on Apache-2.0 — permissive with patent grant and provenance",
            base: BaseLicense::Apache2,
            published: false,
        }
    } else if i == 4 {
        RegistryEntry {
            variant: PalimpsestVariant::PBSD,
            full_name: "Palimpsest BSD License",
            description: "Palimpsest layer on BSD-3-Clause — minimal copyleft with provenance",
            base: BaseLicense::BSD3,
            published: false,
        }
    } else {
        RegistryEntry {
            variant: PalimpsestVariant::PEUPL,
            full_name: "Palimpsest European Union Public License",
            description: "Palimpsest layer on EUPL-1.2 — EU-compatible copyleft with provenance",
            base: BaseLicense::EUPL12,
            published: false,
        }
    }
}

/// Look up the registry entry of a variant; `None` for `Other(_)`.
pub fn lookup_variant(variant: &PalimpsestVariant) -> (r: Option<RegistryEntry>)
    ensures
        r is None <==> registry_base(variant@) is None,
        r matches Some(e) ==> entry_for(e, variant@),
{
    let mut i: usize = 0;
    while i < 6
        invariant
            i <= 6,
            forall|j: int| 0 <= j < i ==> registry_variant(j) != variant@,
        decreases 6 - i,
    {
        let e = entry_at(i);
        if e.variant.same(variant) {
            return Some(e);
        }
        i = i + 1;
    }
    assert(registry_base(variant@) is None) by {
        assert(registry_variant(0) != variant@);
        assert(registry_variant(1) != variant@);
        assert(registry_variant(2) != variant@);
        assert(registry_variant(3) != variant@);
        assert(registry_variant(4) != variant@);
        assert(registry_variant(5) != variant@);
    }
    None
}

/// The license a registered variant describes, every provision enabled.
pub open spec fn created_license(
    variant: PalimpsestVariantView,
    base: BaseLicenseView,
    version: Version,
    or_later: bool,
) -> PalimpsestLicenseView {
    PalimpsestLicenseView {
        variant,
        version,
        base,
        layer: full_layer(version),
        fallback: base,
        or_later,
    }
}

/// Create a palimpsest license for a registered variant, with base and
/// fallback taken from the registry; `None` for an unregistered variant.
pub fn create_license(variant: &PalimpsestVariant, version: Version, or_later: bool) -> (r:
    Option<PalimpsestLicense>)
    ensures
        r is None <==> registry_base(variant@) is None,
        r matches Some(l) ==> l@ == created_license(
            variant@,
            registry_base(variant@)->0,
            version,
            or_later,
        ),
{
    let entry = match lookup_variant(variant) {
        Some(e) => e,
        None => return None,
    };
    Some(
        PalimpsestLicense {
            variant: entry.variant.duplicate(),
            version,
            base: entry.base.duplicate(),
            layer: PalimpsestLayer::full(version),
            fallback: entry.base,
            or_later,
        },
    )
}

/// Every registry entry, in registry order.
pub fn all_variants() -> (r: Vec<RegistryEntry>)
    ensures
        r@.len() == registry_len(),
        forall|i: int| 0 <= i < r@.len() ==> entry_for(#[trigger] r@[i], registry_variant(i)),
{
    let mut r: Vec<RegistryEntry> = Vec::new();
    let mut i: usize = 0;
    while i < 6
        invariant
            i <= 6,
            r@.len() == i,
            forall|j: int| 0 <= j < i ==> entry_for(#[trigger] r@[j], registry_variant(j)),
        decreases 6 - i,
    {
        r.push(entry_at(i));
        i = i + 1;
    }
    r
}

/// The registry entries that have been published, in registry order
/// (of the six registered variants only the Mozilla-based one).
pub fn published_variants() -> (r: Vec<RegistryEntry>)
    ensures
        r@.len() == 1,
        entry_for(r@[0], PalimpsestVariantView::PMPL),
        forall|i: int| 0 <= i < r@.len() ==> (#[trigger] r@[i]).published,
{
    let mut r: Vec<RegistryEntry> = Vec::new();
    let mut i: usize = 0;
    while i < 6
        invariant
            i <= 6,
            r@.len() == (if i == 0 { 0int } else { 1int }),
            i > 0 ==> entry_for(r@[0], PalimpsestVariantView::PMPL),
            forall|k: int| 0 <= k < r@.len() ==> (#[trigger] r@[k]).published,
        decreases 6 - i,
    {
        let e = entry_at(i);
        if e.published {
            r.push(e);
        }
        i = i + 1;
    }
    r
}

} // verus!

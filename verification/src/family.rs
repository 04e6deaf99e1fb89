//! The palimpsest license family: base licenses, the palimpsest layer of
//! provisions, the variants, and the composite license value.
//!
//! Every type that carries text has a view in which the text is a
//! `Seq<char>`; contracts throughout the crate speak of those views.
use vstd::prelude::*;
use crate::text::{decimal, decimal_string, push_char, str_eq};

verus! {

/// A semantic version with major.minor.patch components.
#[derive(Debug, Clone, Copy, PartialEq, Eq, Hash, Structural)]
pub struct Version {
    pub major: u32,
    pub minor: u32,
    pub patch: u32,
}

/// `major.minor`, or `major.minor.patch` when the patch is not zero.
pub open spec fn version_text(v: Version) -> Seq<char> {
    let head = decimal(v.major as nat) + seq!['.'] + decimal(v.minor as nat);
    if v.patch == 0 {
        head
    } else {
        head + seq!['.'] + decimal(v.patch as nat)
    }
}

impl Version {
    /// The display form of the version.
    pub fn to_string(&self) -> (s: String)
        ensures
            s@ == version_text(*self),
    {
        let mut s = decimal_string(self.major as u64);
        push_char(&mut s, '.');
        let minor = decimal_string(self.minor as u64);
        s.append(minor.as_str());
        if self.patch != 0 {
            push_char(&mut s, '.');
            let patch = decimal_string(self.patch as u64);
            s.append(patch.as_str());
        }
        s
    }
}

/// Creative Commons sub-variant flags and version text.
#[derive(Debug, Clone, PartialEq, Eq, Hash)]
pub struct CcVariant {
    pub attribution: bool,
    pub share_alike: bool,
    pub non_commercial: bool,
    pub no_derivatives: bool,
    pub version: String,
}

/// Mathematical model of a [`CcVariant`].
pub struct CcVariantView {
    pub attribution: bool,
    pub share_alike: bool,
    pub non_commercial: bool,
    pub no_derivatives: bool,
    pub version: Seq<char>,
}

impl View for CcVariant {
    type V = CcVariantView;

    open spec fn view(&self) -> CcVariantView {
        CcVariantView {
            attribution: self.attribution,
            share_alike: self.share_alike,
            non_commercial: self.non_commercial,
            no_derivatives: self.no_derivatives,
            version: self.version@,
        }
    }
}

/// A base license that exists independently in the legal landscape.
#[derive(Debug, Clone, PartialEq, Eq, Hash)]
pub enum BaseLicense {
    MIT,
    Apache2,
    GPL2,
    GPL3,
    LGPL21,
    LGPL3,
    AGPL3,
    MPL2,
    BSD2,
    BSD3,
    ISC,
    EUPL12,
    Artistic2,
    CERNOHLS2,
    Unlicense,
    ZeroBSD,
    /// Proprietary / All Rights Reserved.
    Proprietary,
    /// Creative Commons variant.
    CreativeCommons(CcVariant),
    /// Unknown base license with its raw SPDX identifier.
    Other(String),
}

/// Mathematical model of a [`BaseLicense`].
pub enum BaseLicenseView {
    MIT,
    Apache2,
    GPL2,
    GPL3,
    LGPL21,
    LGPL3,
    AGPL3,
    MPL2,
    BSD2,
    BSD3,
    ISC,
    EUPL12,
    Artistic2,
    CERNOHLS2,
    Unlicense,
    ZeroBSD,
    Proprietary,
    CreativeCommons(CcVariantView),
    Other(Seq<char>),
}

impl View for BaseLicense {
    type V = BaseLicenseView;

    open spec fn view(&self) -> BaseLicenseView {
        match self {
            BaseLicense::MIT => BaseLicenseView::MIT,
            BaseLicense::Apache2 => BaseLicenseView::Apache2,
            BaseLicense::GPL2 => BaseLicenseView::GPL2,
            BaseLicense::GPL3 => BaseLicenseView::GPL3,
            BaseLicense::LGPL21 => BaseLicenseView::LGPL21,
            BaseLicense::LGPL3 => BaseLicenseView::LGPL3,
            BaseLicense::AGPL3 => BaseLicenseView::AGPL3,
            BaseLicense::MPL2 => BaseLicenseView::MPL2,
            BaseLicense::BSD2 => BaseLicenseView::BSD2,
            BaseLicense::BSD3 => BaseLicenseView::BSD3,
            BaseLicense::ISC => BaseLicenseView::ISC,
            BaseLicense::EUPL12 => BaseLicenseView::EUPL12,
            BaseLicense::Artistic2 => BaseLicenseView::Artistic2,
            BaseLicense::CERNOHLS2 => BaseLicenseView::CERNOHLS2,
            BaseLicense::Unlicense => BaseLicenseView::Unlicense,
            BaseLicense::ZeroBSD => BaseLicenseView::ZeroBSD,
            BaseLicense::Proprietary => BaseLicenseView::Proprietary,
            BaseLicense::CreativeCommons(cc) => BaseLicenseView::CreativeCommons(cc@),
            BaseLicense::Other(id) => BaseLicenseView::Other(id@),
        }
    }
}

/// `CC`, then `-BY`, `-NC`, `-ND`, `-SA` for the flags that are set, then
/// `-` and the version.
pub open spec fn cc_text(cc: CcVariantView) -> Seq<char> {
    seq!['C', 'C'] + (if cc.attribution { seq!['-', 'B', 'Y'] } else { seq![] }) + (
    if cc.non_commercial { seq!['-', 'N', 'C'] } else { seq![] }) + (if cc.no_derivatives {
        seq!['-', 'N', 'D']
    } else {
        seq![]
    }) + (if cc.share_alike { seq!['-', 'S', 'A'] } else { seq![] }) + seq!['-'] + cc.version
}

/// The SPDX identifier that displays a base license.
pub open spec fn base_text(b: BaseLicenseView) -> Seq<char> {
    match b {
        BaseLicenseView::MIT => "MIT"@,
        BaseLicenseView::Apache2 => "Apache-2.0"@,
        BaseLicenseView::GPL2 => "GPL-2.0"@,
        BaseLicenseView::GPL3 => "GPL-3.0"@,
        BaseLicenseView::LGPL21 => "LGPL-2.1"@,
        BaseLicenseView::LGPL3 => "LGPL-3.0"@,
        BaseLicenseView::AGPL3 => "AGPL-3.0"@,
        BaseLicenseView::MPL2 => "MPL-2.0"@,
        BaseLicenseView::BSD2 => "BSD-2-Clause"@,
        BaseLicenseView::BSD3 => "BSD-3-Clause"@,
        BaseLicenseView::ISC => "ISC"@,
        BaseLicenseView::EUPL12 => "EUPL-1.2"@,
        BaseLicenseView::Artistic2 => "Artistic-2.0"@,
        BaseLicenseView::CERNOHLS2 => "CERN-OHL-S-2.0"@,
        BaseLicenseView::Unlicense => "Unlicense"@,
        BaseLicenseView::ZeroBSD => "0BSD"@,
        BaseLicenseView::Proprietary => "LicenseRef-Proprietary"@,
        BaseLicenseView::CreativeCommons(cc) => cc_text(cc),
        BaseLicenseView::Other(id) => id,
    }
}

fn push_flag(s: &mut String, on: bool, a: char, b: char)
    ensures
        final(s)@ == old(s)@ + (if on { seq!['-', a, b] } else { seq![] }),
{
    if on {
        push_char(s, '-');
        push_char(s, a);
        push_char(s, b);
    }
}

impl CcVariant {
    /// The display form, such as `CC-BY-SA-4.0`.
    pub fn to_string(&self) -> (s: String)
        ensures
            s@ == cc_text(self@),
    {
        let mut s = String::new();
        push_char(&mut s, 'C');
        push_char(&mut s, 'C');
        push_flag(&mut s, self.attribution, 'B', 'Y');
        push_flag(&mut s, self.non_commercial, 'N', 'C');
        push_flag(&mut s, self.no_derivatives, 'N', 'D');
        push_flag(&mut s, self.share_alike, 'S', 'A');
        push_char(&mut s, '-');
        s.append(self.version.as_str());
        s
    }

    /// Field-wise equality.
    pub fn same(&self, other: &CcVariant) -> (r: bool)
        ensures
            r == (self@ == other@),
    {
        self.attribution == other.attribution && self.share_alike == other.share_alike
            && self.non_commercial == other.non_commercial && self.no_derivatives
            == other.no_derivatives && str_eq(self.version.as_str(), other.version.as_str())
    }

    /// A copy with the same view.
    pub fn duplicate(&self) -> (r: CcVariant)
        ensures
            r@ == self@,
    {
        CcVariant {
            attribution: self.attribution,
            share_alike: self.share_alike,
            non_commercial: self.non_commercial,
            no_derivatives: self.no_derivatives,
            version: self.version.clone(),
        }
    }
}

impl BaseLicense {
    /// The SPDX identifier of the license.
    pub fn to_string(&self) -> (s: String)
        ensures
            s@ == base_text(self@),
    {
        match self {
            BaseLicense::MIT => String::from_str("MIT"),
            BaseLicense::Apache2 => String::from_str("Apache-2.0"),
            BaseLicense::GPL2 => String::from_str("GPL-2.0"),
            BaseLicense::GPL3 => String::from_str("GPL-3.0"),
            BaseLicense::LGPL21 => String::from_str("LGPL-2.1"),
            BaseLicense::LGPL3 => String::from_str("LGPL-3.0"),
            BaseLicense::AGPL3 => String::from_str("AGPL-3.0"),
            BaseLicense::MPL2 => String::from_str("MPL-2.0"),
            BaseLicense::BSD2 => String::from_str("BSD-2-Clause"),
            BaseLicense::BSD3 => String::from_str("BSD-3-Clause"),
            BaseLicense::ISC => String::from_str("ISC"),
            BaseLicense::EUPL12 => String::from_str("EUPL-1.2"),
            BaseLicense::Artistic2 => String::from_str("Artistic-2.0"),
            BaseLicense::CERNOHLS2 => String::from_str("CERN-OHL-S-2.0"),
            BaseLicense::Unlicense => String::from_str("Unlicense"),
            BaseLicense::ZeroBSD => String::from_str("0BSD"),
            BaseLicense::Proprietary => String::from_str("LicenseRef-Proprietary"),
            BaseLicense::CreativeCommons(cc) => cc.to_string(),
            BaseLicense::Other(id) => id.clone(),
        }
    }

    /// Equality of the two licenses' views.
    pub fn same(&self, other: &BaseLicense) -> (r: bool)
        ensures
            r == (self@ == other@),
    {
        match (self, other) {
            (BaseLicense::MIT, BaseLicense::MIT) => true,
            (BaseLicense::Apache2, BaseLicense::Apache2) => true,
            (BaseLicense::GPL2, BaseLicense::GPL2) => true,
            (BaseLicense::GPL3, BaseLicense::GPL3) => true,
            (BaseLicense::LGPL21, BaseLicense::LGPL21) => true,
            (BaseLicense::LGPL3, BaseLicense::LGPL3) => true,
            (BaseLicense::AGPL3, BaseLicense::AGPL3) => true,
            (BaseLicense::MPL2, BaseLicense::MPL2) => true,
            (BaseLicense::BSD2, BaseLicense::BSD2) => true,
            (BaseLicense::BSD3, BaseLicense::BSD3) => true,
            (BaseLicense::ISC, BaseLicense::ISC) => true,
            (BaseLicense::EUPL12, BaseLicense::EUPL12) => true,
            (BaseLicense::Artistic2, BaseLicense::Artistic2) => true,
            (BaseLicense::CERNOHLS2, BaseLicense::CERNOHLS2) => true,
            (BaseLicense::Unlicense, BaseLicense::Unlicense) => true,
            (BaseLicense::ZeroBSD, BaseLicense::ZeroBSD) => true,
            (BaseLicense::Proprietary, BaseLicense::Proprietary) => true,
            (BaseLicense::CreativeCommons(a), BaseLicense::CreativeCommons(b)) => a.same(b),
            (BaseLicense::Other(a), BaseLicense::Other(b)) => str_eq(a.as_str(), b.as_str()),
            _ => false,
        }
    }

    /// A copy with the same view.
    pub fn duplicate(&self) -> (r: BaseLicense)
        ensures
            r@ == self@,
    {
        match self {
            BaseLicense::MIT => BaseLicense::MIT,
            BaseLicense::Apache2 => BaseLicense::Apache2,
            BaseLicense::GPL2 => BaseLicense::GPL2,
            BaseLicense::GPL3 => BaseLicense::GPL3,
            BaseLicense::LGPL21 => BaseLicense::LGPL21,
            BaseLicense::LGPL3 => BaseLicense::LGPL3,
            BaseLicense::AGPL3 => BaseLicense::AGPL3,
            BaseLicense::MPL2 => BaseLicense::MPL2,
            BaseLicense::BSD2 => BaseLicense::BSD2,
            BaseLicense::BSD3 => BaseLicense::BSD3,
            BaseLicense::ISC => BaseLicense::ISC,
            BaseLicense::EUPL12 => BaseLicense::EUPL12,
            BaseLicense::Artistic2 => BaseLicense::Artistic2,
            BaseLicense::CERNOHLS2 => BaseLicense::CERNOHLS2,
            BaseLicense::Unlicense => BaseLicense::Unlicense,
            BaseLicense::ZeroBSD => BaseLicense::ZeroBSD,
            BaseLicense::Proprietary => BaseLicense::Proprietary,
            BaseLicense::CreativeCommons(cc) => BaseLicense::CreativeCommons(cc.duplicate()),
            BaseLicense::Other(id) => BaseLicense::Other(id.clone()),
        }
    }
}

/// The palimpsest layer: the provisions added on top of a base license.
#[derive(Debug, Clone, Copy, PartialEq, Eq, Structural)]
pub struct PalimpsestLayer {
    pub version: Version,
    /// P1: emotional lineage.
    pub emotional_lineage: bool,
    /// P2: AI notice.
    pub ai_notice: bool,
    /// P3: ethical use.
    pub ethical_use: bool,
    /// P4: provenance metadata.
    pub provenance_metadata: bool,
    /// P5: quantum-safe provenance.
    pub quantum_safe: bool,
    /// P6: lineage chain.
    pub lineage_chain: bool,
    /// P7: governance.
    pub governance: bool,
}

/// All seven provisions hold.
pub open spec fn layer_complete(l: PalimpsestLayer) -> bool {
    l.emotional_lineage && l.ai_notice && l.ethical_use && l.provenance_metadata
        && l.quantum_safe && l.lineage_chain && l.governance
}

/// The layer with every provision enabled.
pub open spec fn full_layer(version: Version) -> PalimpsestLayer {
    PalimpsestLayer {
        version,
        emotional_lineage: true,
        ai_notice: true,
        ethical_use: true,
        provenance_metadata: true,
        quantum_safe: true,
        lineage_chain: true,
        governance: true,
    }
}

impl PalimpsestLayer {
    /// A layer with all provisions enabled, the default for new licenses.
    pub fn full(version: Version) -> (l: PalimpsestLayer)
        ensures
            l == full_layer(version),
            layer_complete(l),
    {
        PalimpsestLayer {
            version,
            emotional_lineage: true,
            ai_notice: true,
            ethical_use: true,
            provenance_metadata: true,
            quantum_safe: true,
            lineage_chain: true,
            governance: true,
        }
    }

    /// Whether every provision is enabled.
    pub fn is_complete(&self) -> (r: bool)
        ensures
            r == layer_complete(*self),
    {
        self.emotional_lineage && self.ai_notice && self.ethical_use && self.provenance_metadata
            && self.quantum_safe && self.lineage_chain && self.governance
    }
}

/// Known palimpsest variants; the name is the SPDX-style prefix.
#[derive(Debug, Clone, PartialEq, Eq, Hash)]
pub enum PalimpsestVariant {
    PMPL,
    PAGPL,
    PGPL,
    PAPL,
    PBSD,
    PEUPL,
    Other(String),
}

/// Mathematical model of a [`PalimpsestVariant`].
pub enum PalimpsestVariantView {
    PMPL,
    PAGPL,
    PGPL,
    PAPL,
    PBSD,
    PEUPL,
    Other(Seq<char>),
}

impl View for PalimpsestVariant {
    type V = PalimpsestVariantView;

    open spec fn view(&self) -> PalimpsestVariantView {
        match self {
            PalimpsestVariant::PMPL => PalimpsestVariantView::PMPL,
            PalimpsestVariant::PAGPL => PalimpsestVariantView::PAGPL,
            PalimpsestVariant::PGPL => PalimpsestVariantView::PGPL,
            PalimpsestVariant::PAPL => PalimpsestVariantView::PAPL,
            PalimpsestVariant::PBSD => PalimpsestVariantView::PBSD,
            PalimpsestVariant::PEUPL => PalimpsestVariantView::PEUPL,
            PalimpsestVariant::Other(name) => PalimpsestVariantView::Other(name@),
        }
    }
}

/// The display name of a variant.
pub open spec fn variant_text(v: PalimpsestVariantView) -> Seq<char> {
    match v {
        PalimpsestVariantView::PMPL => "PMPL"@,
        PalimpsestVariantView::PAGPL => "PAGPL"@,
        PalimpsestVariantView::PGPL => "PGPL"@,
        PalimpsestVariantView::PAPL => "PAPL"@,
        PalimpsestVariantView::PBSD => "PBSD"@,
        PalimpsestVariantView::PEUPL => "PEUPL"@,
        PalimpsestVariantView::Other(name) => name,
    }
}

impl PalimpsestVariant {
    /// The display name of the variant.
    pub fn to_string(&self) -> (s: String)
        ensures
            s@ == variant_text(self@),
    {
        match self {
            PalimpsestVariant::PMPL => String::from_str("PMPL"),
            PalimpsestVariant::PAGPL => String::from_str("PAGPL"),
            PalimpsestVariant::PGPL => String::from_str("PGPL"),
            PalimpsestVariant::PAPL => String::from_str("PAPL"),
            PalimpsestVariant::PBSD => String::from_str("PBSD"),
            PalimpsestVariant::PEUPL => String::from_str("PEUPL"),
            PalimpsestVariant::Other(name) => name.clone(),
        }
    }

    /// Equality of the two variants' views.
    pub fn same(&self, other: &PalimpsestVariant) -> (r: bool)
        ensures
            r == (self@ == other@),
    {
        match (self, other) {
            (PalimpsestVariant::PMPL, PalimpsestVariant::PMPL) => true,
            (PalimpsestVariant::PAGPL, PalimpsestVariant::PAGPL) => true,
            (PalimpsestVariant::PGPL, PalimpsestVariant::PGPL) => true,
            (PalimpsestVariant::PAPL, PalimpsestVariant::PAPL) => true,
            (PalimpsestVariant::PBSD, PalimpsestVariant::PBSD) => true,
            (PalimpsestVariant::PEUPL, PalimpsestVariant::PEUPL) => true,
            (PalimpsestVariant::Other(a), PalimpsestVariant::Other(b)) => str_eq(
                a.as_str(),
                b.as_str(),
            ),
            _ => false,
        }
    }

    /// A copy with the same view.
    pub fn duplicate(&self) -> (r: PalimpsestVariant)
        ensures
            r@ == self@,
    {
        match self {
            PalimpsestVariant::PMPL => PalimpsestVariant::PMPL,
            PalimpsestVariant::PAGPL => PalimpsestVariant::PAGPL,
            PalimpsestVariant::PGPL => PalimpsestVariant::PGPL,
            PalimpsestVariant::PAPL => PalimpsestVariant::PAPL,
            PalimpsestVariant::PBSD => PalimpsestVariant::PBSD,
            PalimpsestVariant::PEUPL => PalimpsestVariant::PEUPL,
            PalimpsestVariant::Other(name) => PalimpsestVariant::Other(name.clone()),
        }
    }
}

/// A complete palimpsest license: base, layer and fallback.
#[derive(Debug, Clone, PartialEq, Eq)]
pub struct PalimpsestLicense {
    pub variant: PalimpsestVariant,
    pub version: Version,
    pub base: BaseLicense,
    pub layer: PalimpsestLayer,
    /// The license to fall back to; validation demands that it equal `base`.
    pub fallback: BaseLicense,
    /// Whether "or later" applies.
    pub or_later: bool,
}

/// Mathematical model of a [`PalimpsestLicense`].
pub struct PalimpsestLicenseView {
    pub variant: PalimpsestVariantView,
    pub version: Version,
    pub base: BaseLicenseView,
    pub layer: PalimpsestLayer,
    pub fallback: BaseLicenseView,
    pub or_later: bool,
}

impl View for PalimpsestLicense {
    type V = PalimpsestLicenseView;

    open spec fn view(&self) -> PalimpsestLicenseView {
        PalimpsestLicenseView {
            variant: self.variant@,
            version: self.version,
            base: self.base@,
            layer: self.layer,
            fallback: self.fallback@,
            or_later: self.or_later,
        }
    }
}

/// `VARIANT-version`, with `-or-later` when that applies.
pub open spec fn palimpsest_text(p: PalimpsestLicenseView) -> Seq<char> {
    variant_text(p.variant) + seq!['-'] + version_text(p.version) + (if p.or_later {
        "-or-later"@
    } else {
        seq![]
    })
}

impl PalimpsestLicense {
    /// The display form, such as `PMPL-2.0-or-later`.
    pub fn to_string(&self) -> (s: String)
        ensures
            s@ == palimpsest_text(self@),
    {
        let mut s = self.variant.to_string();
        push_char(&mut s, '-');
        let v = self.version.to_string();
        s.append(v.as_str());
        if self.or_later {
            s.append("-or-later");
        }
        s
    }

    /// A copy with the same view.
    pub fn duplicate(&self) -> (r: PalimpsestLicense)
        ensures
            r@ == self@,
    {
        PalimpsestLicense {
            variant: self.variant.duplicate(),
            version: self.version,
            base: self.base.duplicate(),
            layer: self.layer,
            fallback: self.fallback.duplicate(),
            or_later: self.or_later,
        }
    }
}

/// Any license: a plain base license or a palimpsest variant.
#[derive(Debug, Clone, PartialEq, Eq)]
pub enum License {
    Base(BaseLicense),
    Palimpsest(PalimpsestLicense),
}

/// Mathematical model of a [`License`].
pub enum LicenseView {
    Base(BaseLicenseView),
    Palimpsest(PalimpsestLicenseView),
}

impl View for License {
    type V = LicenseView;

    open spec fn view(&self) -> LicenseView {
        match self {
            License::Base(b) => LicenseView::Base(b@),
            License::Palimpsest(p) => LicenseView::Palimpsest(p@),
        }
    }
}

/// The display form of a license.
pub open spec fn license_text(l: LicenseView) -> Seq<char> {
    match l {
        LicenseView::Base(b) => base_text(b),
        LicenseView::Palimpsest(p) => palimpsest_text(p),
    }
}

impl License {
    /// The display form of the license.
    pub fn to_string(&self) -> (s: String)
        ensures
            s@ == license_text(self@),
    {
        match self {
            License::Base(b) => b.to_string(),
            License::Palimpsest(p) => p.to_string(),
        }
    }

    /// A copy with the same view.
    pub fn duplicate(&self) -> (r: License)
        ensures
            r@ == self@,
    {
        match self {
            License::Base(b) => License::Base(b.duplicate()),
            License::Palimpsest(p) => License::Palimpsest(p.duplicate()),
        }
    }
}

/// Structural problems with a palimpsest license declaration.
#[derive(Debug, Clone)]
pub enum FamilyError {
    /// The fallback license does not match the declared base.
    FallbackMismatch {
        variant: PalimpsestVariant,
        declared_base: BaseLicense,
        declared_fallback: BaseLicense,
    },
    /// The base license text was not found in the LICENSE file.
    BaseLicenseTextMissing { variant: PalimpsestVariant, expected_base: BaseLicense },
    /// An exhibit the layer requires is missing from the license file.
    ExhibitMissing { exhibit: char, variant: PalimpsestVariant },
    /// A file's SPDX header and the LICENSE file disagree.
    HeaderLicenseMismatch { file: String, header_says: License, license_file_says: License },
}

impl FamilyError {
    /// The human-readable message of the error.
    pub fn to_string(&self) -> (s: String)
        ensures
            s@ == family_error_text(*self),
    {
        match self {
            FamilyError::FallbackMismatch { variant, declared_base, declared_fallback } => {
                let mut s = String::from_str("fallback mismatch for ");
                let v = variant.to_string();
                s.append(v.as_str());
                s.append(": base is ");
                let b = declared_base.to_string();
                s.append(b.as_str());
                s.append(", fallback is ");
                let f = declared_fallback.to_string();
                s.append(f.as_str());
                s
            },
            FamilyError::BaseLicenseTextMissing { variant, expected_base } => {
                let mut s = String::from_str("base license text missing for ");
                let v = variant.to_string();
                s.append(v.as_str());
                s.append(": expected ");
                let b = expected_base.to_string();
                s.append(b.as_str());
                s
            },
            FamilyError::ExhibitMissing { exhibit, variant } => {
                let mut s = String::from_str("exhibit '");
                push_char(&mut s, *exhibit);
                s.append("' missing for ");
                let v = variant.to_string();
                s.append(v.as_str());
                s
            },
            FamilyError::HeaderLicenseMismatch { file, header_says, license_file_says } => {
                let mut s = String::from_str("header/license mismatch in ");
                s.append(file.as_str());
                s.append(": header says ");
                let h = header_says.to_string();
                s.append(h.as_str());
                s.append(", LICENSE says ");
                let l = license_file_says.to_string();
                s.append(l.as_str());
                s
            },
        }
    }
}

/// The message of a [`FamilyError`].
pub open spec fn family_error_text(e: FamilyError) -> Seq<char> {
    match e {
        FamilyError::FallbackMismatch { variant, declared_base, declared_fallback } =>
            "fallback mismatch for "@ + variant_text(variant@) + ": base is "@ + base_text(
            declared_base@) + ", fallback is "@ + base_text(declared_fallback@),
        FamilyError::BaseLicenseTextMissing { variant, expected_base } =>
            "base license text missing for "@ + variant_text(variant@) + ": expected "@
            + base_text(expected_base@),
        FamilyError::ExhibitMissing { exhibit, variant } => "exhibit '"@ + seq![exhibit]
            + "' missing for "@ + variant_text(variant@),
        FamilyError::HeaderLicenseMismatch { file, header_says, license_file_says } =>
            "header/license mismatch in "@ + file@ + ": header says "@ + license_text(
            header_says@) + ", LICENSE says "@ + license_text(license_file_says@),
    }
}

} // verus!

//! Fallback validation: a palimpsest license's fallback must be its base,
//! and the LICENSE text must carry the base license and required exhibits.
//!
//! Reading the LICENSE file is the caller's business; these functions take
//! its content (`None` when it could not be read).
use vstd::prelude::*;
use crate::family::{BaseLicense, BaseLicenseView, FamilyError, PalimpsestLicense, PalimpsestVariant};
use crate::text::{seq_contains, str_contains, text_uppercase, to_uppercase};

verus! {

/// Check that a palimpsest license's fallback equals its base.
pub fn validate_fallback(license: &PalimpsestLicense) -> (r: Result<(), FamilyError>)
    ensures
        r is Ok <==> license.base@ == license.fallback@,
        r matches Err(e) ==> e matches FamilyError::FallbackMismatch {
            variant,
            declared_base,
            declared_fallback,
        } && variant@ == license.variant@ && declared_base@ == license.base@
            && declared_fallback@ == license.fallback@,
{
    if !license.base.same(&license.fallback) {
        return Err(
            FamilyError::FallbackMismatch {
                variant: license.variant.duplicate(),
                declared_base: license.base.duplicate(),
                declared_fallback: license.fallback.duplicate(),
            },
        );
    }
    Ok(())
}

/// Whether the upper-cased license text `u` carries the characteristic
/// phrases of the base license `b`.
pub open spec fn base_text_found(u: Seq<char>, b: BaseLicenseView) -> bool {
    match b {
        BaseLicenseView::MPL2 => seq_contains(u, "MOZILLA PUBLIC LICENSE"@),
        BaseLicenseView::AGPL3 => seq_contains(u, "GNU AFFERO GENERAL PUBLIC LICENSE"@)
            || seq_contains(u, "AGPL"@),
        BaseLicenseView::GPL3 => seq_contains(u, "GNU GENERAL PUBLIC LICENSE"@) && !seq_contains(
            u,
            "AFFERO"@,
        ) && !seq_contains(u, "LESSER"@),
        BaseLicenseView::GPL2 => seq_contains(u, "GNU GENERAL PUBLIC LICENSE"@) && seq_contains(
            u,
            "VERSION 2"@,
        ),
        BaseLicenseView::Apache2 => seq_contains(u, "APACHE LICENSE"@),
        BaseLicenseView::BSD3 => (seq_contains(u, "BSD"@) && seq_contains(u, "3-CLAUSE"@))
            || seq_contains(u, "REDISTRIBUTION AND USE"@),
        BaseLicenseView::BSD2 => (seq_contains(u, "BSD"@) && seq_contains(u, "2-CLAUSE"@))
            || seq_contains(u, "REDISTRIBUTION AND USE"@),
        BaseLicenseView::MIT => seq_contains(u, "MIT LICENSE"@) || seq_contains(
            u,
            "PERMISSION IS HEREBY GRANTED"@,
        ),
        BaseLicenseView::ISC => seq_contains(u, "ISC LICENSE"@) || seq_contains(
            u,
            "PERMISSION TO USE, COPY, MODIFY"@,
        ),
        BaseLicenseView::EUPL12 => seq_contains(u, "EUROPEAN UNION PUBLIC LICENCE"@),
        BaseLicenseView::LGPL21 => seq_contains(u, "GNU LESSER GENERAL PUBLIC LICENSE"@),
        BaseLicenseView::LGPL3 => seq_contains(u, "GNU LESSER GENERAL PUBLIC LICENSE"@),
        BaseLicenseView::Artistic2 => seq_contains(u, "ARTISTIC LICENSE"@),
        BaseLicenseView::CERNOHLS2 => seq_contains(u, "CERN OPEN HARDWARE"@),
        BaseLicenseView::Unlicense => seq_contains(u, "UNLICENSE"@) || seq_contains(
            u,
            "PUBLIC DOMAIN"@,
        ),
        BaseLicenseView::ZeroBSD => seq_contains(u, "0BSD"@) || seq_contains(
            u,
            "ZERO-CLAUSE BSD"@,
        ),
        BaseLicenseView::Proprietary => seq_contains(u, "ALL RIGHTS RESERVED"@) || seq_contains(
            u,
            "PROPRIETARY"@,
        ),
        BaseLicenseView::CreativeCommons(_) => seq_contains(u, "CREATIVE COMMONS"@),
        BaseLicenseView::Other(_) => true,
    }
}

fn base_found(u: &str, b: &BaseLicense) -> (r: bool)
    ensures
        r == base_text_found(u@, b@),
{
    match b {
        BaseLicense::MPL2 => str_contains(u, "MOZILLA PUBLIC LICENSE"),
        BaseLicense::AGPL3 => str_contains(u, "GNU AFFERO GENERAL PUBLIC LICENSE") || str_contains(
            u,
            "AGPL",
        ),
        BaseLicense::GPL3 => str_contains(u, "GNU GENERAL PUBLIC LICENSE") && !str_contains(
            u,
            "AFFERO",
        ) && !str_contains(u, "LESSER"),
        BaseLicense::GPL2 => str_contains(u, "GNU GENERAL PUBLIC LICENSE") && str_contains(
            u,
            "VERSION 2",
        ),
        BaseLicense::Apache2 => str_contains(u, "APACHE LICENSE"),
        BaseLicense::BSD3 => (str_contains(u, "BSD") && str_contains(u, "3-CLAUSE"))
            || str_contains(u, "REDISTRIBUTION AND USE"),
        BaseLicense::BSD2 => (str_contains(u, "BSD") && str_contains(u, "2-CLAUSE"))
            || str_contains(u, "REDISTRIBUTION AND USE"),
        BaseLicense::MIT => str_contains(u, "MIT LICENSE") || str_contains(
            u,
            "PERMISSION IS HEREBY GRANTED",
        ),
        BaseLicense::ISC => str_contains(u, "ISC LICENSE") || str_contains(
            u,
            "PERMISSION TO USE, COPY, MODIFY",
        ),
        BaseLicense::EUPL12 => str_contains(u, "EUROPEAN UNION PUBLIC LICENCE"),
        BaseLicense::LGPL21 => str_contains(u, "GNU LESSER GENERAL PUBLIC LICENSE"),
        BaseLicense::LGPL3 => str_contains(u, "GNU LESSER GENERAL PUBLIC LICENSE"),
        BaseLicense::Artistic2 => str_contains(u, "ARTISTIC LICENSE"),
        BaseLicense::CERNOHLS2 => str_contains(u, "CERN OPEN HARDWARE"),
        BaseLicense::Unlicense => str_contains(u, "UNLICENSE") || str_contains(u, "PUBLIC DOMAIN"),
        BaseLicense::ZeroBSD => str_contains(u, "0BSD") || str_contains(u, "ZERO-CLAUSE BSD"),
        BaseLicense::Proprietary => str_contains(u, "ALL RIGHTS RESERVED") || str_contains(
            u,
            "PROPRIETARY",
        ),
        BaseLicense::CreativeCommons(_) => str_contains(u, "CREATIVE COMMONS"),
        BaseLicense::Other(_) => true,
    }
}

/// Check that the LICENSE text (`content`, `None` when unreadable) carries
/// the base license `expected_base`, compared case-insensitively.
pub fn validate_license_file(
    content: Option<&str>,
    variant: &PalimpsestVariant,
    expected_base: &BaseLicense,
) -> (r: Result<(), FamilyError>)
    ensures
        r is Ok <==> (content matches Some(c) && base_text_found(
            text_uppercase(c@),
            expected_base@,
        )),
        r matches Err(e) ==> e matches FamilyError::BaseLicenseTextMissing {
            variant: v,
            expected_base: b,
        } && v@ == variant@ && b@ == expected_base@,
{
    let found = match content {
        Some(c) => {
            let upper = to_uppercase(c);
            base_found(upper.as_str(), expected_base)
        },
        None => false,
    };
    if found {
        Ok(())
    } else {
        Err(
            FamilyError::BaseLicenseTextMissing {
                variant: variant.duplicate(),
                expected_base: expected_base.duplicate(),
            },
        )
    }
}

/// Check the exhibits of a palimpsest LICENSE text: Exhibit A always,
/// Exhibit B when the layer is quantum-safe. No content, no findings.
pub fn validate_exhibits(content: Option<&str>, license: &PalimpsestLicense) -> (r: Vec<
    FamilyError,
>)
    ensures
        content is None ==> r@.len() == 0,
        content matches Some(c) ==> {
            let u = text_uppercase(c@);
            let missing_a = !seq_contains(u, "EXHIBIT A"@);
            let missing_b = license.layer.quantum_safe && !seq_contains(u, "EXHIBIT B"@);
            &&& r@.len() == (if missing_a { 1int } else { 0int }) + (if missing_b {
                1int
            } else {
                0int
            })
            &&& missing_a ==> (r@[0] matches FamilyError::ExhibitMissing { exhibit, variant }
                && exhibit == 'A' && variant@ == license.variant@)
            &&& missing_b ==> (r@[r@.len() - 1] matches FamilyError::ExhibitMissing {
                exhibit,
                variant,
            } && exhibit == 'B' && variant@ == license.variant@)
        },
{
    let mut errors: Vec<FamilyError> = Vec::new();
    let c = match content {
        Some(c) => c,
        None => return errors,
    };
    let upper = to_uppercase(c);
    if !str_contains(upper.as_str(), "EXHIBIT A") {
        errors.push(FamilyError::ExhibitMissing { exhibit: 'A', variant: license.variant.duplicate() });
    }
    if license.layer.quantum_safe && !str_contains(upper.as_str(), "EXHIBIT B") {
        errors.push(FamilyError::ExhibitMissing { exhibit: 'B', variant: license.variant.duplicate() });
    }
    errors
}

} // verus!

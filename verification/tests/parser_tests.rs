use plasma::catalog::resolve_identifier;
use plasma::compat::{check_compatibility, Compatibility};
use plasma::content::{detect_license_from_content, levenshtein, MatchConfidence};
use plasma::fallback::validate_fallback;
use plasma::family::{
    BaseLicense, FamilyError, License, PalimpsestLayer, PalimpsestLicense, PalimpsestVariant,
    Version,
};
use plasma::header::extract_spdx_from_content;
use plasma::lexer::{Lexer, Token};
use plasma::registry::{all_variants, create_license, lookup_variant, published_variants};
use plasma::spdx::{parse_spdx_expr, SpdxExpr};
use plasma::zone::find_plasma_toml;

fn make_pmpl(or_later: bool) -> PalimpsestLicense {
    let version = Version { major: 2, minor: 0, patch: 0 };
    PalimpsestLicense {
        variant: PalimpsestVariant::PMPL,
        version: version.clone(),
        base: BaseLicense::MPL2,
        layer: PalimpsestLayer::full(version),
        fallback: BaseLicense::MPL2,
        or_later,
    }
}

#[test]
fn test_levenshtein_identical() {
    assert_eq!(levenshtein("hello", "hello"), 0);
}

#[test]
fn test_levenshtein_one_edit() {
    assert_eq!(levenshtein("kitten", "sitten"), 1);
}

#[test]
fn test_detect_mit() {
    let content = "MIT License\n\nCopyright (c) 2026 Someone\n\nPermission is hereby granted...";
    let m = detect_license_from_content(content).unwrap();
    assert_eq!(m.license, BaseLicense::MIT);
    assert_eq!(m.confidence, MatchConfidence::Certain);
}

#[test]
fn test_detect_eupl_french() {
    let content = "Licence Publique de l'Union Européenne v.1.2\n\n...";
    let m = detect_license_from_content(content).unwrap();
    assert_eq!(m.license, BaseLicense::EUPL12);
}

#[test]
fn test_extract_rust_header() {
    let content = "// SPDX-License-Identifier: PMPL-2.0-or-later\n// Copyright (c) 2026\n";
    let expr = extract_spdx_from_content(content);
    assert!(expr.is_some());
}

#[test]
fn test_extract_python_header() {
    let content = "#!/usr/bin/env python3\n# SPDX-License-Identifier: MIT\n";
    let expr = extract_spdx_from_content(content);
    assert!(expr.is_some());
}

#[test]
fn test_no_header() {
    let content = "fn main() {\n    println!(\"hello\");\n}\n";
    let expr = extract_spdx_from_content(content);
    assert!(expr.is_none());
}

#[test]
fn test_same_license_compatible() {
    let mit = License::Base(BaseLicense::MIT);
    assert_eq!(check_compatibility(&mit, &mit), Compatibility::Compatible);
}

#[test]
fn test_mit_apache_compatible() {
    let mit = License::Base(BaseLicense::MIT);
    let apache = License::Base(BaseLicense::Apache2);
    assert_eq!(check_compatibility(&mit, &apache), Compatibility::Compatible);
}

#[test]
fn test_agpl_proprietary() {
    let agpl = License::Base(BaseLicense::AGPL3);
    let prop = License::Base(BaseLicense::Proprietary);
    assert!(matches!(check_compatibility(&agpl, &prop), Compatibility::ProprietaryDepends(_)));
}

#[test]
fn test_mpl_proprietary_compatible() {
    let mpl = License::Base(BaseLicense::MPL2);
    let prop = License::Base(BaseLicense::Proprietary);
    assert_eq!(check_compatibility(&mpl, &prop), Compatibility::Compatible);
}

#[test]
fn test_papl_anything_compatible() {
    let version = Version { major: 1, minor: 0, patch: 0 };
    let papl = License::Palimpsest(PalimpsestLicense {
        variant: PalimpsestVariant::PAPL,
        version: version.clone(),
        base: BaseLicense::Apache2,
        layer: PalimpsestLayer::full(version),
        fallback: BaseLicense::Apache2,
        or_later: true,
    });
    let agpl = License::Base(BaseLicense::AGPL3);
    assert_eq!(check_compatibility(&papl, &agpl), Compatibility::Compatible);
}

#[test]
fn test_valid_fallback() {
    let license = make_pmpl(true);
    assert!(validate_fallback(&license).is_ok());
}

#[test]
fn test_invalid_fallback() {
    let mut license = make_pmpl(true);
    license.fallback = BaseLicense::Apache2;
    let err = validate_fallback(&license).unwrap_err();
    assert!(matches!(err, FamilyError::FallbackMismatch { .. }));
}

#[test]
fn test_lookup_pmpl() {
    let entry = lookup_variant(&PalimpsestVariant::PMPL).unwrap();
    assert_eq!(entry.base, BaseLicense::MPL2);
    assert!(entry.published);
}

#[test]
fn test_lookup_pagpl() {
    let entry = lookup_variant(&PalimpsestVariant::PAGPL).unwrap();
    assert_eq!(entry.base, BaseLicense::AGPL3);
    assert!(!entry.published);
}

#[test]
fn test_create_license() {
    let version = Version { major: 2, minor: 0, patch: 0 };
    let license = create_license(&PalimpsestVariant::PMPL, version, true).unwrap();
    assert_eq!(license.base, BaseLicense::MPL2);
    assert_eq!(license.fallback, BaseLicense::MPL2);
    assert!(license.or_later);
    assert!(license.layer.is_complete());
}

#[test]
fn test_all_variants_count() {
    assert_eq!(all_variants().len(), 6);
}

#[test]
fn test_published_count() {
    assert_eq!(published_variants().len(), 1);
}

#[test]
fn test_lookup_other_returns_none() {
    assert!(lookup_variant(&PalimpsestVariant::Other("PFOO".to_string())).is_none());
}

#[test]
fn test_resolve_mit() {
    let license = resolve_identifier("MIT", false).unwrap();
    assert!(matches!(license, License::Base(BaseLicense::MIT)));
}

#[test]
fn test_resolve_pmpl() {
    let license = resolve_identifier("PMPL-2.0", true).unwrap();
    if let License::Palimpsest(p) = license {
        assert_eq!(p.variant, PalimpsestVariant::PMPL);
        assert!(p.or_later);
        assert_eq!(p.base, BaseLicense::MPL2);
    } else {
        panic!("expected palimpsest license");
    }
}

#[test]
fn test_resolve_pagpl() {
    let license = resolve_identifier("PAGPL-1.0", false).unwrap();
    if let License::Palimpsest(p) = license {
        assert_eq!(p.variant, PalimpsestVariant::PAGPL);
        assert_eq!(p.base, BaseLicense::AGPL3);
    } else {
        panic!("expected palimpsest license");
    }
}

#[test]
fn test_resolve_unknown() {
    let license = resolve_identifier("SomeFutureLicense-4.0", false).unwrap();
    assert!(matches!(license, License::Base(BaseLicense::Other(_))));
}

#[test]
fn test_resolve_cc() {
    let license = resolve_identifier("CC-BY-SA-4.0", false).unwrap();
    if let License::Base(BaseLicense::CreativeCommons(cc)) = license {
        assert!(cc.attribution);
        assert!(cc.share_alike);
        assert!(!cc.non_commercial);
    } else {
        panic!("expected CC license");
    }
}

#[test]
fn lexer_test_simple_mit() {
    let tokens = Lexer::new("MIT").tokenize();
    assert_eq!(tokens, vec![Token::Ident("MIT".to_string())]);
}

#[test]
fn lexer_test_palimpsest_or_later() {
    let tokens = Lexer::new("PAGPL-1.0-or-later").tokenize();
    assert_eq!(
        tokens,
        vec![
            Token::Ident("PAGPL".to_string()),
            Token::Dash,
            Token::Number(1),
            Token::Dot,
            Token::Number(0),
            Token::OrLater,
        ]
    );
}

#[test]
fn lexer_test_or_expression() {
    let tokens = Lexer::new("MIT OR Apache-2.0").tokenize();
    assert_eq!(
        tokens,
        vec![
            Token::Ident("MIT".to_string()),
            Token::Or,
            Token::Ident("Apache".to_string()),
            Token::Dash,
            Token::Number(2),
            Token::Dot,
            Token::Number(0),
        ]
    );
}

#[test]
fn lexer_test_with_expression() {
    let tokens = Lexer::new("GPL-3.0 WITH Classpath-exception-2.0").tokenize();
    assert_eq!(
        tokens,
        vec![
            Token::Ident("GPL".to_string()),
            Token::Dash,
            Token::Number(3),
            Token::Dot,
            Token::Number(0),
            Token::With,
            Token::Ident("Classpath".to_string()),
            Token::Dash,
            Token::Ident("exception".to_string()),
            Token::Dash,
            Token::Number(2),
            Token::Dot,
            Token::Number(0),
        ]
    );
}

#[test]
fn test_parentheses() {
    let tokens = Lexer::new("(MIT)").tokenize();
    assert_eq!(tokens, vec![Token::LParen, Token::Ident("MIT".to_string()), Token::RParen]);
}

#[test]
fn test_plus_or_later() {
    let tokens = Lexer::new("GPL-3.0+").tokenize();
    assert_eq!(
        tokens,
        vec![
            Token::Ident("GPL".to_string()),
            Token::Dash,
            Token::Number(3),
            Token::Dot,
            Token::Number(0),
            Token::OrLater,
        ]
    );
}

#[test]
fn mod_test_simple_mit() {
    let expr = parse_spdx_expr("MIT").unwrap();
    assert!(matches!(expr, SpdxExpr::Simple(_)));
}

#[test]
fn mod_test_or_expression() {
    let expr = parse_spdx_expr("MIT OR Apache-2.0").unwrap();
    assert!(matches!(expr, SpdxExpr::Or(_, _)));
}

#[test]
fn mod_test_palimpsest_or_later() {
    let expr = parse_spdx_expr("PMPL-2.0-or-later").unwrap();
    if let SpdxExpr::Simple(License::Palimpsest(p)) = &expr {
        assert!(p.or_later);
    } else {
        panic!("expected palimpsest license");
    }
}

#[test]
fn mod_test_with_expression() {
    let expr = parse_spdx_expr("GPL-3.0 WITH Classpath-exception-2.0").unwrap();
    assert!(matches!(expr, SpdxExpr::With(_, _)));
}

#[test]
fn test_compound_and_or() {
    let expr = parse_spdx_expr("MIT AND BSD-3-Clause OR Apache-2.0").unwrap();
    assert!(matches!(expr, SpdxExpr::Or(_, _)));
}

#[test]
fn test_parenthesised() {
    let expr = parse_spdx_expr("MIT OR (GPL-3.0 AND BSD-3-Clause)").unwrap();
    assert!(matches!(expr, SpdxExpr::Or(_, _)));
}

#[test]
fn test_find_plasma_toml_missing() {
    let result = find_plasma_toml("/nonexistent/path", false, false);
    assert!(result.is_err());
}

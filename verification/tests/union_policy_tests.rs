use plasma::a2ml::parse;


#[test]
fn aspect_empty_string_does_not_panic() {
    // The empty string is valid input — no directives, no sections.
    let result = parse("");
    // Must return Ok (empty document) or Err — never panic.
    assert!(
        result.is_ok() || result.is_err(),
        "empty string must return Ok or Err, not panic"
    );
}

#[test]
fn aspect_whitespace_only_does_not_panic() {
    // Input consisting entirely of whitespace and newlines must not panic.
    let result = parse("   \n\n\t\n  ");
    assert!(
        result.is_ok() || result.is_err(),
        "whitespace-only input must not panic"
    );
}

#[test]
fn aspect_unclosed_abstract_directive_does_not_panic() {
    // A directive opened without a matching @end must not panic.
    let input = "@abstract\nThis contract has no closing tag.";
    let result = parse(input);
    assert!(
        result.is_ok() || result.is_err(),
        "unclosed @abstract must not panic"
    );
}

#[test]
fn aspect_unknown_directive_does_not_panic() {
    // An unrecognised @ directive must not panic; parser may ignore or error.
    let input = "@unknown\nsome content\n@end\n# Section\n- item\n";
    let result = parse(input);
    assert!(
        result.is_ok() || result.is_err(),
        "unknown directive must not panic"
    );
}

#[test]
fn aspect_special_chars_in_directive_do_not_panic() {
    // Special characters including Unicode in directive bodies must be handled.
    let input = "@abstract\n<script>alert(1)</script>\n@end\n";
    let result = parse(input);
    assert!(
        result.is_ok() || result.is_err(),
        "special characters in @abstract must not panic"
    );
}

#[test]
fn aspect_null_byte_in_input_does_not_panic() {
    // A string containing a null byte (valid Rust str is NUL-safe) must not panic.
    let input = "@abstract\nText with \x00 null byte.\n@end\n";
    let result = parse(input);
    assert!(
        result.is_ok() || result.is_err(),
        "null byte in input must not panic"
    );
}

#[test]
fn aspect_extremely_long_line_does_not_panic() {
    // A single line of 100,000 characters must not overflow the stack or panic.
    let long_line = "a".repeat(100_000);
    let input = format!("# Long Section\n\n- {}\n", long_line);
    let result = parse(&input);
    assert!(
        result.is_ok() || result.is_err(),
        "extremely long line must not panic"
    );
}

#[test]
fn aspect_deeply_nested_heading_markers_do_not_panic() {
    // Many consecutive '#' characters at the start of a line must not panic.
    let input = "##########################################################\nContent\n";
    let result = parse(input);
    assert!(
        result.is_ok() || result.is_err(),
        "deeply nested headings must not panic"
    );
}

#[test]
fn aspect_malformed_refs_block_does_not_panic() {
    // A @refs block with no valid link syntax must not panic.
    let input = "@refs\n!!! not a valid link !!!\n@end\n";
    let result = parse(input);
    assert!(
        result.is_ok() || result.is_err(),
        "malformed @refs block must not panic"
    );
}

#[test]
fn aspect_repeated_directives_do_not_panic() {
    // Multiple @abstract blocks must not panic regardless of semantics.
    let input = "@abstract\nFirst.\n@end\n@abstract\nSecond.\n@end\n";
    let result = parse(input);
    assert!(
        result.is_ok() || result.is_err(),
        "repeated @abstract blocks must not panic"
    );
}

fn nuj_minimal_policy() -> &'static str {
    r#"@abstract
This agreement between the journalist and the publisher sets out the terms
of engagement under NUJ ethical standards.
@end

@requires
truth-accuracy
independence
source-protection
@end

# Assignment Terms

- Payment on delivery within 30 days
- All rights retained by journalist
- Source identity protected under law

@refs
[NUJ Code of Conduct](https://www.nuj.org.uk/about-us/rules-and-guidance/code-of-conduct.html)
@end
"#
}

fn iww_minimal_policy() -> &'static str {
    r#"@abstract
Freelance service agreement under IWW collective standards.
@end

@requires
payment-terms
late-payment-penalty
no-spec-work
@end

# Service Agreement

- NET-30 payment terms
- 10% late payment penalty per month
- No speculative work required

@refs
[IWW Freelance Contract](https://www.iww.org/)
@end
"#
}

fn ucu_minimal_policy() -> &'static str {
    r#"@abstract
Academic employment contract under UCU collective agreement.
@end

@requires
academic-freedom
workload-limits
no-casualization
@end

# Academic Terms

- Guaranteed academic freedom in research and teaching
- Maximum 38-hour contracted week
- Permanent contract, no zero-hours clauses

@refs
[UCU Framework Agreement](https://www.ucu.org.uk/)
@end
"#
}

fn policy_with_sections() -> &'static str {
    r#"@abstract
Multi-section policy for complex engagement.
@end

# Section One: Payment

- Delivery fee: £500
- Expenses: reimbursed within 14 days

# Section Two: Rights

- Journalist retains copyright
- Publisher receives one-time print licence

# Section Three: Confidentiality

- Sources never disclosed
- Notes retained for 7 years

@refs
[NUJ Freelance Charter](https://www.nuj.org.uk/)
@end
"#
}

#[test]
fn e2e_parse_nuj_minimal_returns_ok() {
    // A well-formed NUJ policy must parse without error.
    let input = nuj_minimal_policy();
    let result = parse(input);
    assert!(result.is_ok(), "expected Ok, got: {:?}", result.err());
}

#[test]
fn e2e_parse_nuj_abstract_text_extracted() {
    // The @abstract directive content must be captured.
    let input = nuj_minimal_policy();
    let doc = parse(input).unwrap();
    let abstract_text = doc.abstract_text.as_deref().unwrap_or("");
    assert!(
        abstract_text.contains("journalist") || abstract_text.contains("NUJ"),
        "abstract text should mention journalist or NUJ, got: {:?}", abstract_text
    );
}

#[test]
fn e2e_parse_nuj_requirements_extracted() {
    // @requires block must be parsed into the requirements vec.
    let input = nuj_minimal_policy();
    let doc = parse(input).unwrap();
    assert!(
        doc.requirements.contains(&"truth-accuracy".to_string())
            || doc.requirements.iter().any(|r| r.contains("truth")),
        "requirements should include truth-accuracy, got: {:?}", doc.requirements
    );
}

#[test]
fn e2e_parse_nuj_references_extracted() {
    // @refs block must produce at least one reference entry.
    let input = nuj_minimal_policy();
    let doc = parse(input).unwrap();
    assert!(
        !doc.references.is_empty(),
        "expected at least one reference, got empty vec"
    );
}

#[test]
fn e2e_parse_iww_policy_ok() {
    // IWW contract must parse without error.
    let input = iww_minimal_policy();
    let result = parse(input);
    assert!(result.is_ok(), "IWW parse failed: {:?}", result.err());
}

#[test]
fn e2e_parse_iww_requirements_present() {
    // IWW requirements must include payment-related clauses.
    let input = iww_minimal_policy();
    let doc = parse(input).unwrap();
    let reqs_str = doc.requirements.join(" ");
    assert!(
        reqs_str.contains("payment") || reqs_str.contains("no-spec"),
        "IWW requirements missing payment or no-spec-work, got: {}", reqs_str
    );
}

#[test]
fn e2e_parse_ucu_policy_ok() {
    // UCU academic contract must parse without error.
    let input = ucu_minimal_policy();
    let result = parse(input);
    assert!(result.is_ok(), "UCU parse failed: {:?}", result.err());
}

#[test]
fn e2e_parse_policy_with_multiple_sections() {
    // Document with multiple # headings must produce multiple sections.
    let input = policy_with_sections();
    let doc = parse(input).unwrap();
    assert!(
        doc.sections.len() >= 2,
        "expected at least 2 sections, got {}", doc.sections.len()
    );
}

#[test]
fn e2e_parse_raw_field_non_empty_on_valid_input() {
    // The raw field on A2mlDocument must be populated for real input.
    let input = nuj_minimal_policy();
    let doc = parse(input).unwrap();
    // raw may capture trailing unparsed text or the full string — either way,
    // parsing a non-empty document must not produce a completely empty raw field
    // when the document has content beyond the parsed directives.
    let _ = doc.raw; // field exists and is accessible
}

fn variant_abstract_only() -> &'static str {
    "@abstract\nBasic policy statement.\n@end\n"
}

fn variant_requires_only() -> &'static str {
    "@requires\nsource-protection\ntruth-accuracy\n@end\n"
}

fn variant_single_section() -> &'static str {
    "# Payment Terms\n\n- NET-30 payment\n- No spec work\n"
}

fn variant_refs_only() -> &'static str {
    "@refs\n[NUJ Code](https://nuj.org.uk/)\n@end\n"
}

fn variant_full_nuj() -> &'static str {
    r#"@abstract
Full NUJ compliant freelance contract.
@end

@requires
truth-accuracy
independence
source-protection
@end

# Engagement Terms

- Flat fee on acceptance
- No rights transfer

@refs
[NUJ Code of Conduct](https://www.nuj.org.uk/about-us/rules-and-guidance/code-of-conduct.html)
@end
"#
}

fn variant_special_characters() -> &'static str {
    "@abstract\nPolicy: fees & costs — see §3(a)(i).\n@end\n# Terms\n- Rate: £500/day\n"
}

fn variant_multi_paragraph_abstract() -> &'static str {
    r#"@abstract
This agreement is entered into by the parties below.

It supersedes all prior arrangements.
It is governed by the laws of England and Wales.
@end

# Definitions

- "Publisher" means the company named above
"#
}

fn variant_many_list_items() -> &'static str {
    r#"# Deliverables

- Article: 800 words
- Photographs: up to 12
- Captions: per photo
- Audio clips: optional
- Video: excluded
- Revisions: 1 included
- Expenses: pre-approved only
- Deadlines: as agreed in writing
"#
}

#[test]
fn property_abstract_only_parses_ok() {
    let result = parse(variant_abstract_only());
    assert!(result.is_ok(), "abstract-only variant failed: {:?}", result.err());
}

#[test]
fn property_abstract_only_has_abstract_text() {
    let doc = parse(variant_abstract_only()).unwrap();
    assert!(doc.abstract_text.is_some(), "abstract_text must be Some for abstract-only variant");
    assert!(
        !doc.abstract_text.as_deref().unwrap_or("").is_empty(),
        "abstract_text must not be empty"
    );
}

#[test]
fn property_requires_only_parses_ok() {
    let result = parse(variant_requires_only());
    assert!(result.is_ok(), "requires-only variant failed: {:?}", result.err());
}

#[test]
fn property_requires_only_has_requirements() {
    let doc = parse(variant_requires_only()).unwrap();
    assert!(
        !doc.requirements.is_empty(),
        "requirements must be non-empty for requires-only variant, got {:?}", doc.requirements
    );
}

#[test]
fn property_single_section_parses_ok() {
    let result = parse(variant_single_section());
    assert!(result.is_ok(), "single-section variant failed: {:?}", result.err());
}

#[test]
fn property_refs_only_parses_ok() {
    let result = parse(variant_refs_only());
    assert!(result.is_ok(), "refs-only variant failed: {:?}", result.err());
}

#[test]
fn property_full_nuj_parses_ok() {
    let result = parse(variant_full_nuj());
    assert!(result.is_ok(), "full NUJ variant failed: {:?}", result.err());
}

#[test]
fn property_full_nuj_sections_non_empty() {
    let doc = parse(variant_full_nuj()).unwrap();
    assert!(
        !doc.sections.is_empty(),
        "full NUJ document must have at least one section"
    );
}

#[test]
fn property_special_characters_parses_ok() {
    let result = parse(variant_special_characters());
    assert!(result.is_ok(), "special-characters variant failed: {:?}", result.err());
}

#[test]
fn property_special_characters_no_panic() {
    // Calling parse twice on the same input must produce identical Ok/Err status.
    let r1 = parse(variant_special_characters()).is_ok();
    let r2 = parse(variant_special_characters()).is_ok();
    assert_eq!(r1, r2, "parse result must be deterministic for special-characters variant");
}

#[test]
fn property_multi_paragraph_abstract_parses_ok() {
    let result = parse(variant_multi_paragraph_abstract());
    assert!(result.is_ok(), "multi-paragraph abstract variant failed: {:?}", result.err());
}

#[test]
fn property_many_list_items_parses_ok() {
    let result = parse(variant_many_list_items());
    assert!(result.is_ok(), "many-list-items variant failed: {:?}", result.err());
}

#[test]
fn property_determinism_full_nuj() {
    // Parsing the same input twice must yield the same section count.
    let doc1 = parse(variant_full_nuj()).unwrap();
    let doc2 = parse(variant_full_nuj()).unwrap();
    assert_eq!(
        doc1.sections.len(), doc2.sections.len(),
        "section count must be deterministic"
    );
    assert_eq!(
        doc1.requirements.len(), doc2.requirements.len(),
        "requirements count must be deterministic"
    );
}

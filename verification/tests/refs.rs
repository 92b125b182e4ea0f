use doiget_core::{ArxivId, Doi, ErrorCode, Ref, RefParseError, DOI_SUFFIX_MAX_LEN};

#[test]
fn doi_parse_accepts_bare_canonical_form() {
    let d = Doi::parse("10.1234/example").expect("canonical bare DOI");
    assert_eq!(d.as_str(), "10.1234/example");
}

#[test]
fn doi_parse_accepts_doi_uri_scheme() {
    let d = Doi::parse("doi:10.1234/example").expect("doi: scheme accepted");
    assert_eq!(d.as_str(), "10.1234/example");
}

#[test]
fn doi_parse_accepts_complex_real_world_suffix() {
    let d = Doi::parse("10.1103/PhysRevLett.130.200601").expect("real-world PhysRev DOI");
    assert_eq!(d.as_str(), "10.1103/PhysRevLett.130.200601");
}

#[test]
fn doi_parse_accepts_parens_in_suffix() {
    let d = Doi::parse("10.1016/S0370-1573(98)00122-3").expect("parens in suffix");
    assert_eq!(d.as_str(), "10.1016/S0370-1573(98)00122-3");
}

#[test]
fn doi_parse_accepts_nested_slashes_in_suffix() {
    let d = Doi::parse("10.1234/foo/bar/baz").expect("nested slashes");
    assert_eq!(d.as_str(), "10.1234/foo/bar/baz");
}

#[test]
fn doi_parse_accepts_suffix_at_max_len_boundary() {
    let suffix = "a".repeat(DOI_SUFFIX_MAX_LEN);
    let input = format!("10.1234/{}", suffix);
    let d = Doi::parse(&input).expect("suffix at max len");
    assert_eq!(d.as_str().len(), "10.1234/".len() + DOI_SUFFIX_MAX_LEN);
}

#[test]
fn doi_parse_uri_scheme_is_case_insensitive() {
    let d = Doi::parse("DOI:10.1234/example").expect("uppercase scheme");
    assert_eq!(d.as_str(), "10.1234/example");
}

#[test]
fn doi_parse_rejects_missing_10_prefix() {
    assert_eq!(
        Doi::parse("11.1234/example"),
        Err(RefParseError::MissingDoiPrefix)
    );
}

#[test]
fn doi_parse_rejects_empty_input() {
    assert_eq!(Doi::parse(""), Err(RefParseError::Empty));
}

#[test]
fn doi_parse_rejects_missing_suffix_separator() {
    assert_eq!(
        Doi::parse("10.1234"),
        Err(RefParseError::MissingDoiSuffixSeparator)
    );
}

#[test]
fn doi_parse_rejects_empty_suffix() {
    assert_eq!(Doi::parse("10.1234/"), Err(RefParseError::EmptyDoiSuffix));
}

#[test]
fn doi_parse_rejects_invalid_registrant_too_short() {
    assert_eq!(
        Doi::parse("10.12/example"),
        Err(RefParseError::InvalidDoiRegistrant)
    );
}

#[test]
fn doi_parse_rejects_non_digit_registrant() {
    assert_eq!(
        Doi::parse("10.12ab/example"),
        Err(RefParseError::InvalidDoiRegistrant)
    );
}

#[test]
fn doi_parse_rejects_control_char_in_suffix() {
    let result = Doi::parse("10.1234/foo\nbar");
    assert!(
        matches!(
            result,
            Err(RefParseError::InvalidDoiSuffixChar { ch: '\n' })
        ),
        "got {:?}",
        result
    );
}

#[test]
fn doi_parse_rejects_suffix_over_max_len() {
    let suffix = "a".repeat(DOI_SUFFIX_MAX_LEN + 1);
    let input = format!("10.1234/{}", suffix);
    let result = Doi::parse(&input);
    match result {
        Err(RefParseError::DoiSuffixTooLong { len, max }) => {
            assert_eq!(len, DOI_SUFFIX_MAX_LEN + 1);
            assert_eq!(max, DOI_SUFFIX_MAX_LEN);
        }
        other => panic!("expected DoiSuffixTooLong, got {:?}", other),
    }
}

#[test]
fn doi_parse_rejects_non_ascii_in_suffix() {
    let result = Doi::parse("10.1234/物理学");
    assert!(
        matches!(result, Err(RefParseError::InvalidDoiSuffixChar { .. })),
        "got {:?}",
        result
    );
}

#[test]
fn arxiv_parse_accepts_new_style_4_digit_seq() {
    let a = ArxivId::parse("0704.0001").expect("new-style 4-digit seq");
    assert_eq!(a.as_str(), "0704.0001");
}

#[test]
fn arxiv_parse_accepts_new_style_5_digit_seq() {
    let a = ArxivId::parse("2401.12345").expect("new-style 5-digit seq");
    assert_eq!(a.as_str(), "2401.12345");
}

#[test]
fn arxiv_parse_accepts_new_style_with_version() {
    let a = ArxivId::parse("2401.12345v2").expect("with version");
    assert_eq!(a.as_str(), "2401.12345v2");
}

#[test]
fn arxiv_parse_accepts_old_style() {
    let a = ArxivId::parse("cond-mat/9501001").expect("old-style cond-mat");
    assert_eq!(a.as_str(), "cond-mat/9501001");
}

#[test]
fn arxiv_parse_accepts_old_style_with_subclass_and_version() {
    let a = ArxivId::parse("astro-ph.CO/0703123v2").expect("old-style with subclass + version");
    assert_eq!(a.as_str(), "astro-ph.CO/0703123v2");
}

#[test]
fn arxiv_parse_accepts_arxiv_uri_scheme() {
    let a = ArxivId::parse("arxiv:2401.12345").expect("arxiv: scheme");
    assert_eq!(a.as_str(), "2401.12345");
}

#[test]
fn arxiv_parse_accepts_arxiv_uri_scheme_mixed_case() {
    let a = ArxivId::parse("arXiv:2401.12345v2").expect("arXiv: scheme");
    assert_eq!(a.as_str(), "2401.12345v2");
}

#[test]
fn arxiv_parse_rejects_empty_input() {
    assert_eq!(ArxivId::parse(""), Err(RefParseError::Empty));
}

#[test]
fn arxiv_parse_rejects_no_dot_or_slash() {
    assert_eq!(
        ArxivId::parse("notanarxivid"),
        Err(RefParseError::InvalidArxivShape)
    );
}

#[test]
fn arxiv_parse_rejects_new_style_wrong_head_length() {
    assert_eq!(
        ArxivId::parse("240.12345"),
        Err(RefParseError::InvalidArxivShape)
    );
}

#[test]
fn arxiv_parse_rejects_new_style_seq_too_short() {
    assert_eq!(
        ArxivId::parse("2401.123"),
        Err(RefParseError::InvalidArxivShape)
    );
}

#[test]
fn arxiv_parse_rejects_old_style_wrong_id_length() {
    assert_eq!(
        ArxivId::parse("cond-mat/95001"),
        Err(RefParseError::InvalidArxivShape)
    );
}

#[test]
fn arxiv_parse_rejects_invalid_version_suffix() {
    assert_eq!(
        ArxivId::parse("2401.12345v"),
        Err(RefParseError::InvalidArxivShape)
    );
}

#[test]
fn arxiv_parse_rejects_control_char() {
    assert_eq!(
        ArxivId::parse("2401.12345\n"),
        Err(RefParseError::InvalidArxivShape)
    );
}

#[test]
fn arxiv_parse_rejects_non_ascii() {
    assert_eq!(
        ArxivId::parse("2401.物理"),
        Err(RefParseError::InvalidArxivShape)
    );
}

#[test]
fn ref_parse_dispatches_doi_scheme_to_doi() {
    match Ref::parse("doi:10.1234/example").expect("doi: dispatched to Doi") {
        Ref::Doi(d) => assert_eq!(d.as_str(), "10.1234/example"),
        other => panic!("expected Ref::Doi, got {:?}", other),
    }
}

#[test]
fn ref_parse_dispatches_arxiv_scheme_to_arxiv() {
    match Ref::parse("arxiv:2401.12345").expect("arxiv: dispatched to Arxiv") {
        Ref::Arxiv(a) => assert_eq!(a.as_str(), "2401.12345"),
        other => panic!("expected Ref::Arxiv, got {:?}", other),
    }
}

#[test]
fn ref_parse_dispatches_arxiv_mixed_case_scheme() {
    match Ref::parse("arXiv:cond-mat/9501001").expect("arXiv: dispatched") {
        Ref::Arxiv(a) => assert_eq!(a.as_str(), "cond-mat/9501001"),
        other => panic!("expected Ref::Arxiv, got {:?}", other),
    }
}

#[test]
fn ref_parse_bare_doi_resolves_to_doi() {
    match Ref::parse("10.1234/foo").expect("bare DOI") {
        Ref::Doi(d) => assert_eq!(d.as_str(), "10.1234/foo"),
        other => panic!("expected Ref::Doi, got {:?}", other),
    }
}

#[test]
fn ref_parse_bare_arxiv_new_resolves_to_arxiv() {
    match Ref::parse("2401.12345").expect("bare new-style arXiv") {
        Ref::Arxiv(a) => assert_eq!(a.as_str(), "2401.12345"),
        other => panic!("expected Ref::Arxiv, got {:?}", other),
    }
}

#[test]
fn ref_parse_bare_arxiv_old_resolves_to_arxiv() {
    match Ref::parse("cond-mat/9501001").expect("bare old-style arXiv") {
        Ref::Arxiv(a) => assert_eq!(a.as_str(), "cond-mat/9501001"),
        other => panic!("expected Ref::Arxiv, got {:?}", other),
    }
}

#[test]
fn ref_parse_rejects_empty() {
    assert_eq!(Ref::parse(""), Err(RefParseError::Empty));
}

#[test]
fn ref_parse_doi_scheme_with_invalid_doi_propagates_doi_error() {
    assert_eq!(
        Ref::parse("doi:10.1234"),
        Err(RefParseError::MissingDoiSuffixSeparator)
    );
}

#[test]
fn ref_parse_arxiv_scheme_with_invalid_arxiv_propagates_arxiv_error() {
    assert_eq!(
        Ref::parse("arxiv:notanid"),
        Err(RefParseError::InvalidArxivShape)
    );
}

#[test]
fn ref_parse_bare_with_10_prefix_uses_doi_errors() {
    assert_eq!(
        Ref::parse("10.12/x"),
        Err(RefParseError::InvalidDoiRegistrant)
    );
}

#[test]
fn ref_parse_bare_without_10_prefix_uses_arxiv_errors() {
    assert_eq!(Ref::parse("1.2.3"), Err(RefParseError::InvalidArxivShape));
}

#[test]
fn ref_parse_rejects_doi_scheme_with_oversized_suffix() {
    let suffix = "a".repeat(DOI_SUFFIX_MAX_LEN + 5);
    let input = format!("doi:10.1234/{}", suffix);
    match Ref::parse(&input) {
        Err(RefParseError::DoiSuffixTooLong { .. }) => {}
        other => panic!("expected DoiSuffixTooLong, got {:?}", other),
    }
}

#[test]
fn ref_parse_error_maps_to_invalid_ref_error_code() {
    let err: ErrorCode = RefParseError::Empty.into();
    assert_eq!(err, ErrorCode::InvalidRef);
    let err2: ErrorCode = RefParseError::MissingDoiPrefix.into();
    assert_eq!(err2, ErrorCode::InvalidRef);
}

#[test]
fn parsing_is_idempotent_and_drops_schemes() {
    for s in ["doi:10.1234/a(b)/c", "DOI:10.1234/x", "arXiv:2401.12345v2", "cond-mat/9501001"] {
        let first = Ref::parse(s).expect("parses");
        let again = Ref::parse(first.as_input_str()).expect("parses again");
        assert_eq!(first, again);
        assert!(!again.as_input_str().contains(':'));
    }
}

#[test]
fn no_text_is_both_a_doi_and_an_arxiv_id() {
    for s in ["10.1234/x", "2401.12345", "cond-mat/9501001", "10.12345/2401.12345"] {
        assert!(Doi::parse(s).is_err() || ArxivId::parse(s).is_err(), "{s}");
    }
}

#[test]
fn every_defect_has_its_message() {
    let text = |s: &str| Ref::parse(s).unwrap_err().message();
    assert_eq!(text(""), "empty input");
    assert_eq!(text("doi:11.1/x"), "DOI must begin with '10.'");
    assert_eq!(text("10.1234"), "DOI must contain '/' between registrant and suffix");
    assert_eq!(text("10.1/x"), "DOI registrant must be 4–9 ASCII digits");
    assert_eq!(text("10.1234/"), "DOI suffix is empty");
    assert_eq!(text("10.1234/a\tb"), "DOI suffix contains invalid character '\\t'");
    assert_eq!(text("10.1234/a'b"), "DOI suffix contains invalid character '\\''");
    let long = format!("10.1234/{}", "a".repeat(257));
    assert_eq!(text(&long), "DOI suffix is 257 bytes; maximum is 256");
    assert_eq!(text("nonsense"), "input does not match any known arXiv id shape");
}

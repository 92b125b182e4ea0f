use doiget_core::clock::Timestamp;
use doiget_core::json::Json;
use doiget_core::json_read::parse_json;
use doiget_core::orchestrator::extract::{
    extract_arxiv_id_from_url, extract_crossref_fields, extract_crossref_oa_url,
    extract_datacite_fields, extract_metadata_authors, extract_metadata_title,
    extract_oa_url_chain, extract_optional_fields, extract_unpaywall_oa_status,
    extract_unpaywall_oa_url, normalize_page_range, strip_arxiv_version,
};
use doiget_core::orchestrator::metadata::{
    after_crossref, after_unpaywall, arxiv_outcome, build_metadata_only_metadata, cite_metadata,
    cite_metadata_at, resolver_base_overridden, usable_cache_root, MetadataOnlyOutcome,
};
use doiget_core::source::FetchError;
use doiget_core::urls::WebUrl;
use doiget_core::Ref;

fn json(s: &str) -> Json {
    parse_json(s.as_bytes()).expect("valid JSON")
}

fn crossref_outcome() -> MetadataOnlyOutcome {
    MetadataOnlyOutcome::new(
        "crossref",
        None,
        None,
        None,
        json(
            r#"{
                "title": ["Rigorous results on valence-bond ground states"],
                "author": [
                    { "family": "Affleck", "given": "Ian" },
                    { "family": "Lieb", "given": "Elliott H." }
                ],
                "issued": { "date-parts": [[1988, 6, 1]] },
                "container-title": ["Physical Review Letters"],
                "publisher": "American Physical Society",
                "ISSN": ["0031-9007", "1079-7114"],
                "volume": "59",
                "issue": "7",
                "page": "799-802",
                "type": "journal-article"
            }"#,
        ),
    )
}

fn arxiv_record(record: &str) -> MetadataOnlyOutcome {
    MetadataOnlyOutcome::new(
        "arxiv",
        Some("arxiv-default".to_string()),
        None,
        Some("green".to_string()),
        json(record),
    )
}

#[test]
fn cite_metadata_enriches_from_crossref_envelope() {
    let ref_ = Ref::parse("10.1103/PhysRevLett.59.799").unwrap();
    let m = cite_metadata(&ref_, &crossref_outcome());
    assert_eq!(m.title, "Rigorous results on valence-bond ground states");
    assert_eq!(m.authors, vec!["Affleck, Ian", "Lieb, Elliott H."]);
    assert_eq!(m.year, Some(1988));
    assert_eq!(m.venue.as_deref(), Some("Physical Review Letters"));
    assert_eq!(m.publisher.as_deref(), Some("American Physical Society"));
    assert_eq!(m.issn.as_deref(), Some("0031-9007"));
    assert_eq!(m.volume.as_deref(), Some("59"));
    assert_eq!(m.issue.as_deref(), Some("7"));
    assert_eq!(m.pages.as_deref(), Some("799--802"));
    assert_eq!(m.type_.as_deref(), Some("journal-article"));
}

#[test]
fn cite_metadata_non_crossref_keeps_minimal_baseline() {
    let ref_ = Ref::parse("arxiv:2401.12345").unwrap();
    let m = cite_metadata(&ref_, &arxiv_record(r#"{ "title": "An arXiv Preprint" }"#));
    assert_eq!(m.title, "An arXiv Preprint");
    assert_eq!(m.year, None);
    assert_eq!(m.venue, None);
    assert_eq!(m.publisher, None);
    assert_eq!(m.issn, None);
    assert!(m.arxiv_id.is_some());
}

#[test]
fn cite_metadata_arxiv_overlay_fills_year_and_categories() {
    let ref_ = Ref::parse("arxiv:2401.12345").unwrap();
    let outcome = arxiv_record(
        r#"{
            "title": "An arXiv Preprint",
            "published": "2024-03-15T00:00:00Z",
            "categories": ["cond-mat.str-el", "cond-mat.dis-nn"]
        }"#,
    );
    let m = cite_metadata(&ref_, &outcome);
    assert_eq!(m.year, Some(2024));
    assert_eq!(
        m.arxiv_categories,
        vec!["cond-mat.str-el".to_string(), "cond-mat.dis-nn".to_string()]
    );
    let bad = arxiv_record(r#"{ "title": "x", "published": "not-a-date" }"#);
    assert_eq!(cite_metadata(&ref_, &bad).year, None);
}

#[test]
fn test_extract_arxiv_id_from_url() {
    let urls = [
        ("https://arxiv.org/pdf/1901.12345.pdf", Some("1901.12345")),
        ("https://arxiv.org/abs/1901.12345", Some("1901.12345")),
        ("https://arxiv.org/pdf/1901.12345v2.pdf", Some("1901.12345")),
        ("https://arxiv.org/abs/1901.12345v3", Some("1901.12345")),
        (
            "https://www.arxiv.org/pdf/cond-mat/9501001.pdf",
            Some("cond-mat/9501001"),
        ),
        (
            "https://export.arxiv.org/abs/cond-mat/9501001",
            Some("cond-mat/9501001"),
        ),
        (
            "https://arxiv.org/pdf/cond-mat/9501001v1.pdf",
            Some("cond-mat/9501001"),
        ),
        (
            "https://e-print.arxiv.org/pdf/2401.12345.pdf",
            Some("2401.12345"),
        ),
        ("https://example.org/pdf/1901.12345.pdf", None),
    ];
    for (url_str, expected) in urls {
        let url = WebUrl::parse(url_str).unwrap();
        assert_eq!(
            extract_arxiv_id_from_url(&url),
            expected.map(String::from),
            "url: {url_str}"
        );
    }
}

#[test]
fn test_strip_arxiv_version() {
    assert_eq!(strip_arxiv_version("2401.12345v2"), "2401.12345");
    assert_eq!(strip_arxiv_version("2401.12345v10"), "2401.12345");
    assert_eq!(strip_arxiv_version("2401.12345"), "2401.12345");
    assert_eq!(
        strip_arxiv_version("cond-mat/9501001v3"),
        "cond-mat/9501001"
    );
    assert_eq!(strip_arxiv_version("quant-phv5"), "quant-phv5");
}

#[test]
fn extract_crossref_oa_url_finds_first_url() {
    let msg = json(r#"{
        "link": [
            {"URL": "https://example.org/free.pdf"},
            {"URL": "https://example.org/alt.pdf"}
        ]
    }"#);
    assert_eq!(
        extract_crossref_oa_url(&msg),
        Some("https://example.org/free.pdf".to_string())
    );
}

#[test]
fn extract_crossref_oa_url_returns_none_when_absent() {
    let msg = json(r#"{}"#);
    assert!(extract_crossref_oa_url(&msg).is_none());
}

#[test]
fn extract_crossref_oa_url_skips_empty_url_strings() {
    let msg = json(r#"{
        "link": [
            {"URL": ""},
            {"URL": "https://example.org/real.pdf"}
        ]
    }"#);
    assert_eq!(
        extract_crossref_oa_url(&msg),
        Some("https://example.org/real.pdf".to_string())
    );
}

#[test]
fn extract_unpaywall_oa_url_prefers_url_for_pdf() {
    let meta = json(r#"{
        "best_oa_location": {
            "url_for_pdf": "https://example.org/pdf",
            "url": "https://example.org/landing"
        }
    }"#);
    assert_eq!(
        extract_unpaywall_oa_url(&meta),
        Some("https://example.org/pdf".to_string())
    );
}

#[test]
fn extract_unpaywall_oa_url_falls_back_to_url() {
    let meta = json(r#"{
        "best_oa_location": {
            "url": "https://example.org/landing"
        }
    }"#);
    assert_eq!(
        extract_unpaywall_oa_url(&meta),
        Some("https://example.org/landing".to_string())
    );
}

#[test]
fn extract_unpaywall_oa_url_returns_none_when_absent() {
    let meta = json(r#"{}"#);
    assert!(extract_unpaywall_oa_url(&meta).is_none());
}

#[test]
fn extract_unpaywall_oa_status_present_absent_and_empty() {
    assert_eq!(
        extract_unpaywall_oa_status(&json(r#"{"oa_status": "gold"}"#)).as_deref(),
        Some("gold")
    );
    assert!(extract_unpaywall_oa_status(&json(r#"{}"#)).is_none());
    assert!(extract_unpaywall_oa_status(&json(r#"{"oa_status": ""}"#)).is_none());
}

#[test]
fn extract_crossref_fields_parses_minimal_shape() {
    let msg = json(r#"{
        "title": ["Example Title"],
        "author": [{ "family": "Smith", "given": "Alice" }],
        "issued": { "date-parts": [[2024, 1, 15]] },
        "container-title": ["Phys. Rev. X"],
        "type": "journal-article"
    }"#);
    let f = extract_crossref_fields(&msg);
    assert_eq!(f.title.as_deref(), Some("Example Title"));
    assert_eq!(f.authors, vec!["Smith, Alice".to_string()]);
    assert_eq!(f.year, Some(2024));
    assert_eq!(f.venue.as_deref(), Some("Phys. Rev. X"));
    assert_eq!(f.type_.as_deref(), Some("journal-article"));
}

#[test]
fn extract_crossref_fields_tolerates_missing() {
    let f = extract_crossref_fields(&json(r#"{}"#));
    assert!(f.title.is_none());
    assert!(f.authors.is_empty());
    assert!(f.year.is_none());
    assert!(f.venue.is_none());
    assert!(f.type_.is_none());
}

#[test]
fn extract_oa_url_chain_prefers_best_url_for_pdf() {
    let meta = json(r#"{
        "best_oa_location": {
            "url_for_pdf": "https://example.org/pdf",
            "url": "https://example.org/landing"
        }
    }"#);
    let chain = extract_oa_url_chain(Some(&meta));
    assert_eq!(chain.len(), 1);
    assert_eq!(chain[0].href(), "https://example.org/pdf");
}

#[test]
fn extract_oa_url_chain_falls_back_to_url_when_url_for_pdf_absent() {
    let meta = json(r#"{
        "best_oa_location": {
            "url": "https://example.org/landing"
        }
    }"#);
    let chain = extract_oa_url_chain(Some(&meta));
    assert_eq!(chain.len(), 1);
    assert_eq!(chain[0].href(), "https://example.org/landing");
}

#[test]
fn extract_oa_url_chain_is_empty_when_no_locations() {
    let meta = json(r#"{}"#);
    assert!(extract_oa_url_chain(Some(&meta)).is_empty());
    assert!(extract_oa_url_chain(None).is_empty());
}

#[test]
fn extract_oa_url_chain_appends_oa_locations_after_best() {
    let meta = json(r#"{
        "best_oa_location": {
            "url_for_pdf": "https://publisher.example.org/pdf"
        },
        "oa_locations": [
            {"url_for_pdf": "https://publisher.example.org/pdf"},
            {"url_for_pdf": "https://arxiv.org/pdf/2401.12345"},
            {"url": "https://repo.example.edu/handle/123"}
        ]
    }"#);
    let chain = extract_oa_url_chain(Some(&meta));
    let strs: Vec<&str> = chain.iter().map(|u| u.href()).collect();
    assert_eq!(
        strs,
        vec![
            "https://publisher.example.org/pdf",
            "https://arxiv.org/pdf/2401.12345",
            "https://repo.example.edu/handle/123",
        ],
        "chain ordering MUST be best_oa_location first, oa_locations[] verbatim after"
    );
}

#[test]
fn extract_oa_url_chain_dedupes_repeated_urls() {
    let meta = json(r#"{
        "best_oa_location": {
            "url_for_pdf": "https://example.org/pdf"
        },
        "oa_locations": [
            {"url_for_pdf": "https://example.org/pdf"},
            {"url_for_pdf": "https://example.org/pdf"},
            {"url_for_pdf": "https://arxiv.org/pdf/2401.12345"}
        ]
    }"#);
    let chain = extract_oa_url_chain(Some(&meta));
    assert_eq!(chain.len(), 2);
    assert_eq!(chain[0].href(), "https://example.org/pdf");
    assert_eq!(chain[1].href(), "https://arxiv.org/pdf/2401.12345");
}

#[test]
fn extract_oa_url_chain_skips_unparsable_urls() {
    let meta = json(r#"{
        "best_oa_location": {
            "url_for_pdf": "https://good.example.org/pdf"
        },
        "oa_locations": [
            {"url_for_pdf": "not a url"},
            {"url_for_pdf": "https://arxiv.org/pdf/2401.12345"}
        ]
    }"#);
    let chain = extract_oa_url_chain(Some(&meta));
    assert_eq!(chain.len(), 2);
    assert_eq!(chain[0].href(), "https://good.example.org/pdf");
    assert_eq!(chain[1].href(), "https://arxiv.org/pdf/2401.12345");
}

#[test]
fn extract_metadata_title_handles_string_array_missing_blank() {
        assert_eq!(
        extract_metadata_title(&json(r#"{"title": "Hello"}"#)),
        Some("Hello".to_string())
    );
    assert_eq!(
        extract_metadata_title(&json(r#"{"title": ["Real Title"]}"#)),
        Some("Real Title".to_string())
    );
    assert_eq!(extract_metadata_title(&json(r#"{"x": 1}"#)), None);
    assert_eq!(extract_metadata_title(&json(r#"{"title": "   "}"#)), None);
    assert_eq!(extract_metadata_title(&json(r#"{"title": []}"#)), None);
    assert_eq!(
        extract_metadata_title(&json(r#"{"title": ["  ", "Real Title"]}"#)),
        Some("Real Title".to_string())
    );
    assert_eq!(extract_metadata_title(&json(r#"{"title": ["  ", ""]}"#)), None);
}

#[test]
fn extract_metadata_authors_handles_each_resolver_shape() {
        assert_eq!(
        extract_metadata_authors(&json(r#"{"authors": ["Jane Doe", "John Roe"]}"#)),
        vec!["Jane Doe".to_string(), "John Roe".to_string()]
    );
    assert_eq!(
        extract_metadata_authors(&json(r#"{"author": [{"given": "Ada", "family": "Lovelace"}]}"#)),
        vec!["Ada Lovelace".to_string()]
    );
    assert_eq!(
        extract_metadata_authors(&json(r#"{"author": [{"family": "Onsager"}]}"#)),
        vec!["Onsager".to_string()]
    );
    assert_eq!(
        extract_metadata_authors(&json(r#"{"author": [{"name": "K. Wilson"}]}"#)),
        vec!["K. Wilson".to_string()]
    );
    assert_eq!(
        extract_metadata_authors(&json(r#"{"z_authors": [{"given": "L", "family": "Kadanoff"}]}"#)),
        vec!["L Kadanoff".to_string()]
    );
    assert!(extract_metadata_authors(&json(r#"{"x": 1}"#)).is_empty());
    assert!(extract_metadata_authors(&json(r#"{"authors": []}"#)).is_empty());
}

#[test]
fn the_best_location_comes_first_whatever_its_form() {
    let meta = json(
        r#"{
            "best_oa_location": { "url": "https://b.example.org/landing" },
            "oa_locations": [{ "url_for_pdf": "https://a.example.org/pdf" }]
        }"#,
    );
    let chain = extract_oa_url_chain(Some(&meta));
    assert_eq!(chain[0].href(), "https://b.example.org/landing");
    assert_eq!(chain[1].href(), "https://a.example.org/pdf");
}

#[test]
fn datacite_records_use_their_own_shape() {
    let f = extract_datacite_fields(&json(
        r#"{
            "titles": [{ "title": "A Data Set" }],
            "creators": [{ "name": "Curie, Marie" }],
            "publicationYear": 2020,
            "publisher": "Zenodo",
            "types": { "resourceTypeGeneral": "Dataset" }
        }"#,
    ));
    assert_eq!(f.title.as_deref(), Some("A Data Set"));
    assert_eq!(f.authors, vec!["Curie, Marie"]);
    assert_eq!(f.year, Some(2020));
    assert_eq!(f.type_.as_deref(), Some("Dataset"));
}

#[test]
fn unknown_sources_add_nothing() {
    let f = extract_optional_fields("nobody", &json(r#"{ "title": "x" }"#));
    assert!(f.title.is_none() && f.authors.is_empty() && f.year.is_none());
}

#[test]
fn page_ranges_get_one_dash_form() {
    assert_eq!(normalize_page_range("799-802"), "799--802");
    assert_eq!(normalize_page_range("799--802"), "799--802");
    assert_eq!(normalize_page_range("7"), "7");
}

#[test]
fn unpaywall_stands_in_for_a_failed_crossref() {
    let down = || FetchError::NotFound { hint: "crossref".to_string() };
    let record = r#"{ "oa_status": "gold", "best_oa_location": { "url": "https://x.org/a" } }"#;
    let got = after_unpaywall(down(), Ok((Some(json(record)), "cc-by".to_string()))).unwrap();
    assert_eq!(got.source, "unpaywall");
    assert_eq!(got.license.as_deref(), Some("cc-by"));
    assert_eq!(got.oa_url.as_deref(), Some("https://x.org/a"));
    assert_eq!(got.oa_status.as_deref(), Some("gold"));
    let unknown = after_unpaywall(down(), Ok((None, "unknown".to_string()))).unwrap();
    assert_eq!(unknown.license, None);
    assert_eq!(unknown.metadata, Json::Null);
    let other = FetchError::NotFound { hint: "unpaywall".to_string() };
    assert_eq!(after_unpaywall(down(), Err(other)).unwrap_err(), down());
}

#[test]
fn crossref_and_arxiv_records_are_labelled() {
    let got = after_crossref(Ok(Some(json(r#"{ "link": [{ "URL": "https://x.org/p" }] }"#)))).unwrap();
    assert_eq!(got.source, "crossref");
    assert_eq!(got.oa_url.as_deref(), Some("https://x.org/p"));
    let down = FetchError::NotFound { hint: "h".to_string() };
    assert!(matches!(after_crossref(Err(down)), Err(FetchError::NotFound { .. })));
    let preprint = arxiv_outcome(json("{}"));
    assert_eq!(preprint.source, "arxiv");
    assert_eq!(preprint.oa_status.as_deref(), Some("green"));
}

#[test]
fn stored_entries_name_the_reference_where_there_is_no_title() {
    let ref_ = Ref::parse("10.1234/x").unwrap();
    let outcome = MetadataOnlyOutcome::new("crossref", None, None, None, json(r#"{"title": " "}"#));
    let now = Timestamp { secs: 5, nanos: 123_456_789 };
    let m = build_metadata_only_metadata(&ref_, &outcome, now);
    assert_eq!(m.title, "10.1234/x");
    assert_eq!(m.doi.as_ref().map(|d| d.as_str()), Some("10.1234/x"));
    assert_eq!(m.pdf_path, None);
    let told = m.doiget.expect("extension");
    assert_eq!(told.fetched_at, now);
    assert_eq!(told.license, "unknown");
    assert_eq!(told.size_bytes, 0);
    assert_eq!(cite_metadata_at(&ref_, &outcome, now).title, "10.1234/x");
}

#[test]
fn an_overridden_base_leaves_the_cache_alone() {
    assert!(!resolver_base_overridden(false, false, false));
    assert!(resolver_base_overridden(false, true, false));
    assert_eq!(usable_cache_root(true, Some("/c".to_string())), None);
    assert_eq!(usable_cache_root(false, Some("/c".to_string())).as_deref(), Some("/c"));
}

#[test]
fn outcomes_have_a_json_form() {
    let o = MetadataOnlyOutcome::new(
        "unpaywall",
        Some("cc-by".to_string()),
        None,
        Some("gold".to_string()),
        json(r#"{"x":[1]}"#),
    );
    let Json::Object(members) = o.into_value() else { panic!("an object") };
    let text = |s: &str| Json::Text(s.to_string());
    assert_eq!(
        members,
        vec![
            ("source".to_string(), text("unpaywall")),
            ("resolver_profile".to_string(), text("unpaywall")),
            ("license".to_string(), text("cc-by")),
            ("oa_url".to_string(), Json::Null),
            ("oa_status".to_string(), text("gold")),
            ("metadata".to_string(), json(r#"{"x":[1]}"#)),
        ]
    );
}

#[test]
fn outcomes_are_read_back() {
    let back = MetadataOnlyOutcome::from_value(crossref_outcome().into_value());
    assert_eq!(back, Some(crossref_outcome()));
    let older = json(
        r#"{"source":"arxiv","resolver_profile":"arxiv","license":null,"metadata":{"a":1},"x":0}"#,
    );
    let o = MetadataOnlyOutcome::from_value(older).expect("an entry without a status is read");
    assert_eq!(o.oa_status, None);
    assert_eq!(o.oa_url, None);
    assert_eq!(o.metadata, json(r#"{"a":1}"#));
    let wrong = r#"{"source":"a","resolver_profile":"a","license":3,"metadata":null}"#;
    assert_eq!(MetadataOnlyOutcome::from_value(json(wrong)), None);
    let none = r#"{"source":"a","resolver_profile":"a"}"#;
    assert_eq!(MetadataOnlyOutcome::from_value(json(none)), None);
}

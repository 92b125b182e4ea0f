use doiget_core::discovery::{
    build_lookup_url, build_search_url, entity_of_body, extract_arxiv_from_location,
    reconstruct_abstract, results_of_body, select_entity, strip_doi_prefix, strip_openalex_prefix,
    truncate_for_hint, Candidate, PaperSearchQuery, PaperSearchResults, Reply, ResolvedIds,
    SearchRun, SearchSort, SearchStage,
};
use doiget_core::json::{Json, JsonNumber};
use doiget_core::json_read::parse_json;
use doiget_core::source::FetchError;
use doiget_core::urls::WebUrl;

const SAMPLE_SEARCH: &str = r#"{
    "meta": { "count": 4012, "per_page": 25 },
    "results": [
        {
            "id": "https://openalex.org/W123",
            "doi": "https://doi.org/10.1234/Example",
            "title": "Tropical Tensor Networks",
            "display_name": "Tropical Tensor Networks",
            "publication_year": 2021,
            "cited_by_count": 42,
            "abstract_inverted_index": { "Tropical": [0], "tensor": [1], "networks": [2] },
            "authorships": [
                { "author": { "display_name": "Ada Lovelace" } },
                { "author": { "display_name": "Alan Turing" } }
            ],
            "primary_location": { "source": { "display_name": "Phys. Rev. B" } },
            "open_access": { "oa_status": "green", "is_oa": true },
            "locations": [
                { "landing_page_url": "https://arxiv.org/abs/2101.12345v2" }
            ]
        },
        {
            "id": "https://openalex.org/W456",
            "doi": null,
            "title": "Second Paper",
            "publication_year": 2019,
            "cited_by_count": 7,
            "abstract_inverted_index": null,
            "authorships": [],
            "open_access": { "oa_status": "closed" }
        }
    ]
}"#;

fn value_of(j: &Json) -> serde_json::Value {
    match j {
        Json::Null => serde_json::Value::Null,
        Json::Bool(b) => (*b).into(),
        Json::Number(JsonNumber::Unsigned(n)) => (*n).into(),
        Json::Number(JsonNumber::Negative(n)) => (*n).into(),
        Json::Number(JsonNumber::Double(bits)) => f64::from_bits(*bits).into(),
        Json::Text(s) => s.clone().into(),
        Json::Array(v) => v.iter().map(value_of).collect(),
        Json::Object(v) => v.iter().map(|(k, x)| (k.clone(), value_of(x))).collect(),
    }
}

fn json(s: &str) -> Json {
    parse_json(s.as_bytes()).expect("valid JSON")
}

fn base() -> WebUrl {
    WebUrl::parse("https://api.openalex.org").expect("base parses")
}

fn param(u: &WebUrl, key: &str) -> Option<String> {
    u.query_pairs().into_iter().find(|(k, _)| k == key).map(|(_, v)| v)
}

/// A reply to requests for one path that carry the given parameters.
struct Served {
    path: &'static str,
    params: &'static [(&'static str, &'static str)],
    body: &'static str,
}

/// Runs a search against the replies.
fn search(
    contact_email: &str,
    query: PaperSearchQuery,
    served: &[Served],
) -> Result<PaperSearchResults, FetchError> {
    let mut run = SearchRun::start(query);
    loop {
        let url = run.request(&base(), contact_email)?;
        let reply = served
            .iter()
            .find(|s| {
                s.path == url.path()
                    && s.params.iter().all(|(k, v)| param(&url, k).as_deref() == Some(*v))
            })
            .unwrap_or_else(|| panic!("no reply for {}", url.href()));
        if run.stage() == SearchStage::Works {
            return run.results(reply.body.as_bytes());
        }
        let id = run.resolve(reply.body.as_bytes())?;
        run = run.resolved(id);
    }
}

#[test]
fn search_maps_works_to_hits() {
    let out = search(
        "doiget@localhost",
        PaperSearchQuery::new("tropical tensor networks"),
        &[Served {
            path: "/works",
            params: &[("search", "tropical tensor networks"), ("mailto", "doiget@localhost")],
            body: SAMPLE_SEARCH,
        }],
    )
    .expect("search ok");

    assert_eq!(out.total_results, Some(4012));
    assert_eq!(out.results.len(), 2);

    let first = &out.results[0];
    assert_eq!(first.openalex_id, "W123");
    assert_eq!(first.doi.as_deref(), Some("10.1234/example"));
    assert_eq!(first.title, "Tropical Tensor Networks");
    assert_eq!(first.year, Some(2021));
    assert_eq!(first.cited_by_count, 42);
    assert_eq!(first.abstract_.as_deref(), Some("Tropical tensor networks"));
    assert_eq!(first.authors, vec!["Ada Lovelace", "Alan Turing"]);
    assert_eq!(first.venue.as_deref(), Some("Phys. Rev. B"));
    assert_eq!(first.oa_status.as_deref(), Some("green"));
    assert_eq!(first.arxiv.as_deref(), Some("2101.12345v2"));
    assert_eq!(first.source, "openalex");

    let second = &out.results[1];
    assert_eq!(second.openalex_id, "W456");
    assert_eq!(second.doi, None);
    assert_eq!(second.abstract_, None);
    assert_eq!(second.venue, None);
    assert!(second.authors.is_empty());
    assert_eq!(second.oa_status.as_deref(), Some("closed"));
    assert_eq!(second.arxiv, None);
}

#[test]
fn search_filters_and_sort_land_on_the_url() {
    let q = PaperSearchQuery {
        query: "spin glass".to_string(),
        limit: 5,
        from_year: Some(2020),
        to_year: None,
        oa_only: true,
        min_citations: Some(10),
        author: None,
        venue: None,
        publisher: None,
        sort: SearchSort::Cited,
    };
    let out = search(
        "doiget@localhost",
        q,
        &[Served {
            path: "/works",
            params: &[
                ("sort", "cited_by_count:desc"),
                ("filter", "from_publication_date:2020-01-01,is_oa:true,cited_by_count:>10"),
                ("per-page", "5"),
            ],
            body: r#"{ "meta": { "count": 0 }, "results": [] }"#,
        }],
    )
    .expect("search ok");
    assert_eq!(out.total_results, Some(0));
    assert!(out.results.is_empty());
}

#[test]
fn search_error_payload_is_source_schema() {
    let err = search(
        "",
        PaperSearchQuery::new("anything"),
        &[Served {
            path: "/works",
            params: &[],
            body: r#"{"error":"Invalid query parameters"}"#,
        }],
    )
    .expect_err("missing `results` must surface as SourceSchema");
    assert!(matches!(err, FetchError::SourceSchema { .. }));
}

#[test]
fn venue_name_resolves_to_source_id_then_filters_works() {
    let mut q = PaperSearchQuery::new("spin glass");
    q.venue = Some("Physical Review B".to_string());
    let out = search(
        "",
        q,
        &[
            Served {
                path: "/sources",
                params: &[("search", "Physical Review B")],
                body: r#"{ "results": [ { "id": "https://openalex.org/S99", "display_name": "Physical Review B" } ] }"#,
            },
            Served {
                path: "/works",
                params: &[("filter", "primary_location.source.id:S99")],
                body: r#"{ "meta": { "count": 1 }, "results": [ { "id": "https://openalex.org/W1", "title": "In PRB" } ] }"#,
            },
        ],
    )
    .expect("venue-filtered search ok");
    assert_eq!(out.total_results, Some(1));
    assert_eq!(out.results.len(), 1);
    assert_eq!(out.results[0].openalex_id, "W1");
}

#[test]
fn unresolvable_venue_name_is_not_found() {
    let mut q = PaperSearchQuery::new("spin glass");
    q.venue = Some("No Such Journal".to_string());
    let err = search(
        "",
        q,
        &[Served { path: "/sources", params: &[], body: r#"{ "results": [] }"# }],
    )
    .expect_err("an unresolvable venue name must error, not silently drop the filter");
    assert!(matches!(err, FetchError::NotFound { .. }), "got {err:?}");
}

#[test]
fn exact_name_match_resolves_amid_namesakes() {
    let mut q = PaperSearchQuery::new("spin glass");
    q.venue = Some("Physical Review B".to_string());
    let out = search(
        "",
        q,
        &[
            Served {
                path: "/sources",
                params: &[],
                body: r#"{ "results": [
                    { "id": "https://openalex.org/S1", "display_name": "Physical Review B", "works_count": 50000, "relevance_score": 80.0 },
                    { "id": "https://openalex.org/S2", "display_name": "Physical Review B: Condensed Matter", "works_count": 1000, "relevance_score": 78.0 },
                    { "id": "https://openalex.org/S3", "display_name": "Reviews of Physics", "works_count": 200, "relevance_score": 70.0 }
                ] }"#,
            },
            Served {
                path: "/works",
                params: &[("filter", "primary_location.source.id:S1")],
                body: r#"{ "meta": { "count": 1 }, "results": [ { "id": "https://openalex.org/W1", "title": "x" } ] }"#,
            },
        ],
    )
    .expect("exact venue name must resolve to S1 amid namesakes");
    assert_eq!(out.results[0].openalex_id, "W1");
}

#[test]
fn dominant_top_hit_resolves_for_vague_name() {
    let mut q = PaperSearchQuery::new("replica symmetry breaking");
    q.author = Some("parisi".to_string());
    let out = search(
        "",
        q,
        &[
            Served {
                path: "/authors",
                params: &[],
                body: r#"{ "results": [
                    { "id": "https://openalex.org/A1", "display_name": "Giorgio Parisi", "works_count": 400, "relevance_score": 100.0 },
                    { "id": "https://openalex.org/A2", "display_name": "M. Parisi", "works_count": 10, "relevance_score": 20.0 }
                ] }"#,
            },
            Served {
                path: "/works",
                params: &[("filter", "authorships.author.id:A1")],
                body: r#"{ "meta": { "count": 1 }, "results": [ { "id": "https://openalex.org/W9", "title": "y" } ] }"#,
            },
        ],
    )
    .expect("a dominant top hit must resolve a vague name");
    assert_eq!(out.results[0].openalex_id, "W9");
}

#[test]
fn ambiguous_name_errors_with_candidate_listing() {
    let mut q = PaperSearchQuery::new("electrons");
    q.author = Some("Smith".to_string());
    let err = search(
        "",
        q,
        &[Served {
            path: "/authors",
            params: &[],
            body: r#"{ "results": [
                { "id": "https://openalex.org/A1", "display_name": "John Smith", "works_count": 300, "relevance_score": 50.0 },
                { "id": "https://openalex.org/A2", "display_name": "Jane Smith", "works_count": 280, "relevance_score": 45.0 }
            ] }"#,
        }],
    )
    .expect_err("a close, non-exact multi-match must be reported as ambiguous");
    match err {
        FetchError::Ambiguous { hint } => {
            assert!(hint.contains("John Smith"), "hint lists candidates: {hint}");
            assert!(hint.contains("Jane Smith"), "hint lists candidates: {hint}");
        }
        other => panic!("expected Ambiguous, got {other:?}"),
    }
}

#[test]
fn no_more_papers_than_the_limit_come_back() {
    let body = r#"{"results":[{"id":"https://openalex.org/W1"},{"id":"https://openalex.org/W2"}]}"#;
    let mut q = PaperSearchQuery::new("x");
    q.limit = 1;
    let served = [Served { path: "/works", params: &[("per-page", "1")], body }];
    let out = search("", q, &served).expect("search ok");
    assert_eq!(out.results.len(), 1);
    assert_eq!(out.results[0].openalex_id, "W1");
    assert_eq!(out.total_results, None);
    let all = results_of_body(body.as_bytes(), 2).expect("results");
    assert_eq!(all.results.len(), 2);
    let none = results_of_body(body.as_bytes(), 0).expect("results");
    assert_eq!(none.results.len(), 1, "a limit of 0 counts as 1");
    let reply = Reply::read(body.as_bytes()).expect("JSON");
    let run = SearchRun::start(PaperSearchQuery::new("x"));
    assert_eq!(run.results_reply(&reply).expect("results").results.len(), 2);
}

#[test]
fn replies_say_what_is_wrong_with_them() {
    match results_of_body(br#"{ "error": "rate limited" }"#, 5).expect_err("no records") {
        FetchError::SourceSchema { hint } => assert_eq!(
            hint,
            "openalex search response missing `results` array — likely an error payload (got: {\"error\":\"rate limited\"})"
        ),
        other => panic!("expected SourceSchema, got {other:?}"),
    }
    match results_of_body(b"<html>", 5).expect_err("not JSON") {
        FetchError::SourceSchema { hint } => {
            assert!(hint.starts_with("openalex returned non-JSON: "), "{hint}")
        }
        other => panic!("expected SourceSchema, got {other:?}"),
    }
    match entity_of_body("sources", "nonexistent journal", br#"{ "results": [] }"#) {
        Err(FetchError::NotFound { hint }) => {
            assert!(hint.ends_with("matched 'nonexistent journal'"), "{hint}")
        }
        other => panic!("expected NotFound, got {other:?}"),
    }
}

#[test]
fn blank_names_are_not_looked_up() {
    let mut q = PaperSearchQuery::new("topic");
    q.author = Some("   ".to_string());
    q.venue = Some("Nature".to_string());
    let run = SearchRun::start(q);
    assert_eq!(run.stage(), SearchStage::Venue, "a blank author is not looked up");
    let lookup = run.request(&base(), "").expect("url");
    assert_eq!(lookup, build_lookup_url(&base(), "", "sources", "Nature").expect("url"));
    assert_eq!(lookup.path(), "/sources");
    assert_eq!(param(&lookup, "search").as_deref(), Some("Nature"));
    assert_eq!(param(&lookup, "per-page").as_deref(), Some("5"));
}

#[test]
fn queries_are_encoded_and_decoded() {
    let mut q = PaperSearchQuery::new("tensor networks & friends");
    q.limit = 10;
    let u = build_search_url(&base(), "me@example.org", &q, &ResolvedIds::default()).expect("url");
    assert!(
        u.href().starts_with(
            "https://api.openalex.org/works?search=tensor+networks+%26+friends&per-page=10&sort="
        ),
        "{}",
        u.href()
    );
    assert!(u.href().ends_with("&mailto=me%40example.org"), "{}", u.href());
    assert_eq!(param(&u, "search").as_deref(), Some("tensor networks & friends"));
}

#[test]
fn candidates_are_ranked_by_relevance() {
    let body = br#"{ "results": [
        { "id": "https://openalex.org/A2", "display_name": "J. Smithers", "works_count": 1, "relevance_score": 10 },
        { "id": "https://openalex.org/A1", "display_name": "Jane Smith", "works_count": 5, "relevance_score": 50.5 }
    ] }"#;
    assert_eq!(entity_of_body("authors", "smith", body).expect("resolves"), "A1");
}

#[test]
fn old_style_ids_keep_their_slash() {
    let id = |url: &str| {
        extract_arxiv_from_location(&json(&format!(r#"{{ "landing_page_url": "{url}" }}"#)))
    };
    assert_eq!(
        id("https://arxiv.org/abs/cond-mat/9501001").as_deref(),
        Some("cond-mat/9501001")
    );
    assert_eq!(
        id("http://arxiv.org/abs/math.GT/0309136v2#top").as_deref(),
        Some("math.GT/0309136v2")
    );
    assert_eq!(
        id("https://arxiv.org/abs/cond-mat/9501001/more").as_deref(),
        Some("cond-mat/9501001")
    );
    assert_eq!(id("https://arxiv.org/abs/2101.12345/more").as_deref(), Some("2101.12345"));
    assert_eq!(id("https://arxiv.org/abs/2101.12345v2 x").as_deref(), Some("2101.12345v2"));
    assert_eq!(id("https://arxiv.org/abs/cond-mat"), None);
    assert_eq!(id("https://arxiv.org/abs/"), None);
    let both = json(
        r#"{ "landing_page_url": "https://arxiv.org/abs/list", "pdf_url": "https://arxiv.org/abs/2302.00001" }"#,
    );
    assert_eq!(extract_arxiv_from_location(&both).as_deref(), Some("2302.00001"));
}

#[test]
fn papers_without_fields_keep_their_shape_as_json() {
    let out = results_of_body(
        br#"{"meta":{"count":7},"results":[{"id":"https://openalex.org/W1","title":"T","publication_year":-5}]}"#,
        5,
    )
    .expect("results");
    assert_eq!(
        value_of(&out.to_value()).to_string(),
        r#"{"results":[{"abstract":null,"arxiv":null,"authors":[],"cited_by_count":0,"doi":null,"oa_status":null,"openalex_id":"W1","source":"openalex","title":"T","venue":null,"year":-5}],"total_results":7}"#
    );
    let hit = results_of_body(SAMPLE_SEARCH.as_bytes(), 5).expect("results").results.remove(0);
    let v = value_of(&hit.to_value());
    assert_eq!(v["abstract"], "Tropical tensor networks");
    assert_eq!(v["year"], 2021);
    assert_eq!(v["arxiv"], "2101.12345v2");
}

#[test]
fn name_filters_compose_into_resolved_ids() {
    let q = PaperSearchQuery::new("topic");
    let ids = ResolvedIds {
        author: Some("A1".to_string()),
        source: Some("S2".to_string()),
        publisher: Some("P3".to_string()),
    };
    let url = build_search_url(&base(), "", &q, &ids).expect("url builds");
    let filter = param(&url, "filter").expect("filter param present");
    assert!(filter.contains("authorships.author.id:A1"), "got {filter}");
    assert!(filter.contains("primary_location.source.id:S2"), "got {filter}");
    assert!(
        filter.contains("primary_location.source.publisher_lineage:P3"),
        "got {filter}"
    );
}

#[test]
fn abstract_reconstruction_orders_by_position() {
    let inv = json(r#"{"world": [1], "hello": [0], "again": [3], "hello2": [2]}"#);
    assert_eq!(
        reconstruct_abstract(&inv).as_deref(),
        Some("hello world hello2 again")
    );
    assert_eq!(reconstruct_abstract(&Json::Null), None);
    assert_eq!(reconstruct_abstract(&json("{}")), None);
}

#[test]
fn doi_and_openalex_prefixes_are_stripped() {
    assert_eq!(
        strip_doi_prefix("https://doi.org/10.1234/ABC"),
        "10.1234/abc"
    );
    assert_eq!(strip_openalex_prefix("https://openalex.org/W999"), "W999");
}

#[test]
fn per_page_clamps_to_floor_and_ceiling() {
    let mut q = PaperSearchQuery::new("x");
    q.limit = 0;
    let u = build_search_url(&base(), "", &q, &ResolvedIds::default()).expect("url");
    assert_eq!(param(&u, "per-page").as_deref(), Some("1"), "limit 0 -> 1");
    q.limit = 201;
    let u = build_search_url(&base(), "", &q, &ResolvedIds::default()).expect("url");
    assert_eq!(param(&u, "per-page").as_deref(), Some("200"), "limit 201 -> 200");
}

#[test]
fn to_year_and_recent_sort_land_on_url() {
    let mut q = PaperSearchQuery::new("x");
    q.to_year = Some(2023);
    q.sort = SearchSort::Recent;
    let u = build_search_url(&base(), "", &q, &ResolvedIds::default()).expect("url");
    assert_eq!(param(&u, "sort").as_deref(), Some("publication_date:desc"));
    assert!(
        param(&u, "filter")
            .unwrap_or_default()
            .contains("to_publication_date:2023-12-31"),
        "to_year must map to to_publication_date:<y>-12-31"
    );
}

fn cand(id: &str, name: &str, works: u64, rel: f64) -> Candidate {
    Candidate {
        id: id.to_string(),
        display_name: name.to_string(),
        works_count: works,
        relevance: rel.to_bits(),
    }
}

#[test]
fn dominance_at_exactly_2x_resolves_top() {
    let c = vec![cand("A1", "x", 1, 2.0), cand("A2", "y", 1, 1.0)];
    assert_eq!(select_entity("authors", "q", &c).expect("resolves"), "A1");
}

#[test]
fn dominance_just_below_2x_is_ambiguous() {
    let c = vec![cand("A1", "x", 1, 1.9), cand("A2", "y", 1, 1.0)];
    assert!(matches!(
        select_entity("authors", "q", &c),
        Err(FetchError::Ambiguous { .. })
    ));
}

#[test]
fn zero_relevance_runner_up_is_ambiguous_not_auto_top() {
    let c = vec![cand("A1", "x", 1, 5.0), cand("A2", "y", 1, 0.0)];
    assert!(matches!(
        select_entity("authors", "q", &c),
        Err(FetchError::Ambiguous { .. })
    ));
}

#[test]
fn multiple_exact_name_matches_are_ambiguous() {
    let c = vec![cand("S1", "Dup", 9, 5.0), cand("S2", "Dup", 1, 1.0)];
    assert!(matches!(
        select_entity("sources", "Dup", &c),
        Err(FetchError::Ambiguous { .. })
    ));
}

#[test]
fn arxiv_extracted_from_pdf_url_when_landing_absent() {
    let loc = json(r#"{ "pdf_url": "https://arxiv.org/abs/2302.00001v3" }"#);
    assert_eq!(
        extract_arxiv_from_location(&loc).as_deref(),
        Some("2302.00001v3")
    );
}

#[test]
fn arxiv_id_stops_at_query_string() {
    let loc = json(r#"{ "landing_page_url": "https://arxiv.org/abs/2101.12345?utm=x" }"#);
    assert_eq!(
        extract_arxiv_from_location(&loc).as_deref(),
        Some("2101.12345")
    );
}

#[test]
fn truncate_for_hint_is_char_boundary_safe() {
    let body = "あ".repeat(300);
    let out = truncate_for_hint(body.as_bytes());
    assert!(out.ends_with('…'));
    assert_eq!(out.chars().filter(|&c| c == 'あ').count(), 200);
}

#[test]
fn hints_replace_bytes_that_are_no_text() {
    assert_eq!(truncate_for_hint(b"a\xffb"), "a\u{FFFD}b");
}

#[test]
fn a_lookup_without_results_is_no_empty_match() {
    match entity_of_body("authors", "x", br#"{"error":1}"#) {
        Err(FetchError::SourceSchema { hint }) => {
            assert!(hint.starts_with("openalex /authors response missing `results` array"), "{hint}")
        }
        other => panic!("expected SourceSchema, got {other:?}"),
    }
}

#[test]
fn equal_scores_keep_their_order_in_the_listing() {
    let body = br#"{ "results": [
        { "id": "https://openalex.org/A1", "display_name": "First", "works_count": 1, "relevance_score": 7 },
        { "id": "https://openalex.org/A2", "display_name": "Second", "works_count": 1, "relevance_score": 7.0 }
    ] }"#;
    match entity_of_body("authors", "x", body) {
        Err(FetchError::Ambiguous { hint }) => {
            assert!(hint.find("First").unwrap() < hint.find("Second").unwrap(), "{hint}")
        }
        other => panic!("expected Ambiguous, got {other:?}"),
    }
}

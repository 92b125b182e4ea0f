use doiget_core::canonical::SourceType;
use doiget_core::clock::Timestamp;
use doiget_core::http::error::HttpError;
use doiget_core::json::Json;
use doiget_core::json_read::parse_json;
use doiget_core::orchestrator::attempts::{AttemptOutcome, SourceAttempt};
use doiget_core::orchestrator::audit::{
    graph_fetch_row, identity_digest_of, oa_fetch_row, search_row, store_write_row,
    submission_row, Capability, LogEvent,
};
use doiget_core::orchestrator::chain::{
    optional_sources, tdm_sources, ChainEntry, SourceFailure,
};
use doiget_core::orchestrator::doi::{
    CrossrefReply, DoiAction, DoiEvent, DoiFetch, UnpaywallReply,
};
use doiget_core::orchestrator::legs::{
    copy_url, preprint_to_try, wants_another_copy, ContentChain, OaFailure, OaWalk, PdfLegStatus,
};
use doiget_core::orchestrator::paper::{
    check_arxiv_granted, check_batch_size, conclude_arxiv, conclude_doi, stores_document,
    ArxivReply, FetchPaperOutcome,
};
use doiget_core::source::FetchError;
use doiget_core::urls::WebUrl;
use doiget_core::{ArxivId, CanonicalRef, Doi, ErrorCode, Ref};

const PDF_BYTES: &[u8] = b"%PDF-1.7 body";

fn json(s: &str) -> Json {
    parse_json(s.as_bytes()).expect("valid JSON")
}

fn doi(s: &str) -> Doi {
    Doi::parse(s).expect("doi")
}

fn status_error(status: u16) -> OaFailure {
    OaFailure {
        error: HttpError::HttpStatus { status, url: "https://x.org/".to_string() },
        shown: format!("HTTP {status}"),
    }
}

fn source_down(text: &str) -> SourceFailure {
    SourceFailure {
        error: FetchError::NotFound { hint: text.to_string() },
        shown: format!("not found: {text}"),
    }
}

fn crossref_ok() -> Result<CrossrefReply, SourceFailure> {
    Ok(CrossrefReply {
        record: Some(json(
            r#"{"title":["Example"],"author":[{"family":"Lovelace","given":"Ada"}],"issued":{"date-parts":[[2020]]}}"#,
        )),
        final_url: Some("https://api.crossref.org/works/x".to_string()),
    })
}

fn unpaywall(urls: &[&str]) -> Option<UnpaywallReply> {
    let locations: Vec<String> = urls.iter().map(|u| format!(r#"{{"url_for_pdf":"{u}"}}"#)).collect();
    Some(UnpaywallReply {
        record: Some(json(&format!(
            r#"{{"oa_status":"gold","oa_locations":[{}]}}"#,
            locations.join(",")
        ))),
        license: "cc-by".to_string(),
    })
}

fn aps(can_serve: bool) -> Vec<ChainEntry> {
    tdm_sources(Some((vec!["10.1103".to_string()], can_serve)), None, None, None)
}

fn at(secs: i64) -> Timestamp {
    Timestamp { secs, nanos: 0 }
}

fn none_enabled() -> Vec<ChainEntry> {
    optional_sources(false, false, false, false, false)
}

fn only_core() -> Vec<ChainEntry> {
    optional_sources(false, false, false, false, true)
}

fn label(a: &DoiAction) -> String {
    match a {
        DoiAction::AskTdm(s) => format!("tdm {s}"),
        DoiAction::AskOptional(s) => format!("optional {s}"),
        DoiAction::AskUnpaywall => "unpaywall".to_string(),
        DoiAction::FetchCopy(u) => format!("copy {}", u.href()),
        DoiAction::FetchPreprint(id) => format!("preprint {}", id.as_str()),
        DoiAction::LocateCopy(s) => format!("locate {s}"),
        DoiAction::FetchContent(s) => format!("content {s}"),
        DoiAction::Conclude => "conclude".to_string(),
    }
}

fn run(
    mut fetch: DoiFetch,
    mut answer: impl FnMut(&DoiAction) -> DoiEvent,
) -> (Result<FetchPaperOutcome, FetchError>, Vec<String>) {
    let mut asked = Vec::new();
    loop {
        let action = fetch.action();
        if matches!(action, DoiAction::Conclude) {
            break;
        }
        asked.push(label(&action));
        let event = answer(&action);
        fetch = fetch.step(event);
    }
    (conclude_doi(fetch.findings(), "/papers", at(9)).map(|c| c.outcome), asked)
}

#[test]
fn an_open_copy_is_fetched_and_accounted_for() {
    let fetch = DoiFetch::start(&doi("10.1103/a"), crossref_ok(), aps(true), only_core());
    let (out, asked) = run(fetch, |a| match a {
        DoiAction::AskUnpaywall => DoiEvent::Unpaywall(unpaywall(&["https://a.org/1.pdf"])),
        _ => DoiEvent::Copy(Ok(PDF_BYTES.to_vec())),
    });
    let out = out.expect("fetched");
    assert_eq!(asked, vec!["unpaywall", "copy https://a.org/1.pdf"]);
    assert_eq!(out.pdf_leg, PdfLegStatus::Fetched);
    assert_eq!(out.source, "oa-publisher");
    assert_eq!(out.license, "cc-by");
    assert_eq!(out.oa_status.as_deref(), Some("gold"));
    assert_eq!(out.path, "/papers/doi_10.1103_a.pdf");
    assert_eq!(out.size_bytes, PDF_BYTES.len() as u64);
    assert_eq!(out.title, "Example");
    assert_eq!(out.authors, vec!["Lovelace, Ada"]);
    assert_eq!(out.year, Some(2020));
    assert_eq!(out.safekey, "doi_10.1103_a");
    assert_eq!(
        out.canonical_digest,
        CanonicalRef::new(SourceType::Doi, "10.1103/a", "oa-publisher", None).digest_hex()
    );
    assert!(out.attempts.iter().all(|r| r.outcome == AttemptOutcome::NotNeeded));
}

#[test]
fn a_blocked_copy_falls_back_to_the_preprint() {
    let fetch = DoiFetch::start(&doi("10.1103/a"), crossref_ok(), aps(true), only_core());
    let (out, asked) = run(fetch, |a| match a {
        DoiAction::AskUnpaywall => DoiEvent::Unpaywall(unpaywall(&[
            "https://a.org/1.pdf",
            "https://arxiv.org/pdf/2401.12345v2",
        ])),
        DoiAction::FetchCopy(_) => DoiEvent::Copy(Err(status_error(403))),
        _ => DoiEvent::Preprint(Some((PDF_BYTES.to_vec(), "arxiv-default".to_string()))),
    });
    let out = out.expect("fetched");
    assert_eq!(
        asked,
        vec![
            "unpaywall",
            "copy https://a.org/1.pdf",
            "copy https://arxiv.org/pdf/2401.12345v2",
            "preprint 2401.12345",
        ]
    );
    assert_eq!(
        out.pdf_leg,
        PdfLegStatus::PreprintFallback {
            arxiv_id: "2401.12345".to_string(),
            original_block: "HTTP 403".to_string()
        }
    );
    assert_eq!(out.source, "arxiv");
    assert_eq!(out.license, "arxiv-default");
}

#[test]
fn tdm_content_leg_serves_the_pdf_when_the_oa_route_is_blocked() {
    let fetch = DoiFetch::start(
        &doi("10.1103/PhysRevX.10.011001"),
        crossref_ok(),
        aps(true),
        none_enabled(),
    );
    let (out, asked) = run(fetch, |a| match a {
        DoiAction::AskUnpaywall => DoiEvent::Unpaywall(unpaywall(&["https://a.org/1.pdf"])),
        DoiAction::FetchCopy(_) => DoiEvent::Copy(Err(status_error(403))),
        _ => DoiEvent::Content(Ok(Some(PDF_BYTES.to_vec()))),
    });
    let out = out.expect("the publisher should have supplied the PDF");
    assert_eq!(asked.last().map(String::as_str), Some("content tdm-aps"));
    assert_eq!(
        out.pdf_leg,
        PdfLegStatus::TdmFetched {
            source: "tdm-aps".to_string(),
            original_block: "HTTP 403".to_string()
        }
    );
    assert_eq!(out.source, "tdm-aps");
    assert_eq!(out.size_bytes, PDF_BYTES.len() as u64);
    assert_eq!(
        out.license, "unknown",
        "a TDM-retrieved copy must not inherit the OA location's licence"
    );
}

#[test]
fn tdm_content_leg_is_not_consulted_for_another_publishers_doi() {
    let fetch = DoiFetch::start(
        &doi("10.1016/j.physrep.2020.01.001"),
        crossref_ok(),
        aps(true),
        none_enabled(),
    );
    let (out, asked) = run(fetch, |a| match a {
        DoiAction::AskUnpaywall => DoiEvent::Unpaywall(unpaywall(&["https://a.org/1.pdf"])),
        _ => DoiEvent::Copy(Err(status_error(403))),
    });
    assert_eq!(asked, vec!["unpaywall", "copy https://a.org/1.pdf"]);
    assert!(matches!(out.expect("metadata").pdf_leg, PdfLegStatus::Blocked { .. }));
}

#[test]
fn content_leg_reports_a_foreign_doi_as_wrong_publisher_not_disabled() {
    let blocked = PdfLegStatus::Blocked {
        code: ErrorCode::NetworkError,
        message: "the open route refused us".to_string(),
        denial: None,
        suggested_arxiv_id: None,
    };
    let chain = ContentChain::new(
        &doi("10.1016/j.physrep.2020.01.001"),
        blocked,
        None,
        Vec::new(),
        aps(true),
    );
    let (chain, next) = chain.next_source();
    assert!(next.is_none());
    let (leg, bytes, attempts) = chain.finish();
    assert!(bytes.is_none(), "no publisher owns this DOI here");
    assert!(matches!(leg, PdfLegStatus::Blocked { .. }));
    assert!(
        matches!(attempts[0].outcome, AttemptOutcome::WrongPublisher { .. }),
        "got {attempts:?}"
    );
}

#[test]
fn tdm_content_leg_rejects_a_non_pdf_body_and_keeps_the_original_block() {
    let fetch = DoiFetch::start(
        &doi("10.1103/PhysRevX.10.011001"),
        crossref_ok(),
        aps(true),
        none_enabled(),
    );
    let (out, _) = run(fetch, |a| match a {
        DoiAction::AskUnpaywall => DoiEvent::Unpaywall(unpaywall(&["https://a.org/1.pdf"])),
        DoiAction::FetchCopy(_) => DoiEvent::Copy(Err(status_error(403))),
        _ => DoiEvent::Content(Err(SourceFailure {
            error: FetchError::Http(HttpError::NotAPdf { got: *b"<html" }),
            shown: "not a PDF".to_string(),
        })),
    });
    let out = out.expect("a metadata-only outcome is still an outcome");
    match &out.pdf_leg {
        PdfLegStatus::Blocked { message, .. } => assert_eq!(message, "HTTP 403"),
        other => panic!("expected the original Blocked leg to survive, got {other:?}"),
    }
    assert_eq!(out.size_bytes, 0, "nothing should have been stored");
    assert_eq!(out.path, "/papers/.metadata/doi_10.1103_PhysRevX.10.011001.toml");
}

fn rate_limited(a: &DoiAction) -> DoiEvent {
    match a {
        DoiAction::AskUnpaywall => DoiEvent::Unpaywall(unpaywall(&["https://a.org/1.pdf"])),
        DoiAction::AskOptional(_) => DoiEvent::Record(Ok(Some(json("{}")))),
        DoiAction::LocateCopy(_) => DoiEvent::Address(Some("https://repo.org/repo.pdf".to_string())),
        DoiAction::FetchCopy(u) if u.path() == "/repo.pdf" => DoiEvent::Copy(Ok(PDF_BYTES.to_vec())),
        DoiAction::FetchCopy(_) => DoiEvent::Copy(Err(status_error(429))),
        _ => DoiEvent::Content(Ok(None)),
    }
}

#[test]
fn a_rate_limited_publisher_falls_through_to_an_enabled_source() {
    let fetch = DoiFetch::start(&doi("10.1090/example"), crossref_ok(), aps(true), only_core());
    let (out, asked) = run(fetch, rate_limited);
    let out = out.expect("fetched");
    assert_eq!(
        asked,
        vec![
            "unpaywall",
            "copy https://a.org/1.pdf",
            "optional core",
            "locate core",
            "copy https://repo.org/repo.pdf",
        ]
    );
    assert_eq!(out.pdf_leg, PdfLegStatus::Fetched);
    let sources: Vec<&str> = out.attempts.iter().map(|a| a.source).collect();
    assert!(sources.contains(&"tdm-aps"), "trace held {sources:?}");
    assert!(sources.contains(&"core"), "trace held {sources:?}");
}

#[test]
fn with_no_source_enabled_the_run_is_unchanged() {
    let fetch = DoiFetch::start(&doi("10.1090/example"), crossref_ok(), aps(true), none_enabled());
    let (out, asked) = run(fetch, rate_limited);
    assert_eq!(asked, vec!["unpaywall", "copy https://a.org/1.pdf"]);
    assert!(matches!(out.expect("metadata").pdf_leg, PdfLegStatus::Blocked { .. }));
}

#[test]
fn fetch_paper_actually_reaches_the_tdm_chain() {
    let fetch = DoiFetch::start(
        &doi("10.1103/a"),
        Err(source_down("crossref")),
        aps(true),
        only_core(),
    );
    let (out, asked) = run(fetch, |a| match a {
        DoiAction::AskTdm(_) => DoiEvent::Record(Ok(Some(json("{}")))),
        DoiAction::AskUnpaywall => DoiEvent::Unpaywall(unpaywall(&["https://a.org/1.pdf"])),
        _ => DoiEvent::Copy(Ok(PDF_BYTES.to_vec())),
    });
    assert_eq!(asked, vec!["tdm tdm-aps", "unpaywall", "copy https://a.org/1.pdf"]);
    assert_eq!(out.expect("fetched").attempts[0].outcome, AttemptOutcome::Resolved);
}

#[test]
fn never_consulted_and_consulted_but_empty_render_differently() {
    let lost = |optional| {
        let fetch = DoiFetch::start(
            &doi("10.1090/a"),
            Err(source_down("crossref")),
            aps(true),
            optional,
        );
        let (out, _) = run(fetch, |a| match a {
            DoiAction::AskOptional(_) => DoiEvent::Record(Err(source_down("x"))),
            _ => DoiEvent::Unpaywall(None),
        });
        match out {
            Err(FetchError::NotFound { hint }) => hint,
            other => panic!("expected NotFound, got {other:?}"),
        }
    };
    let off = lost(none_enabled());
    assert!(
        off.starts_with("not found: crossref\n  = note: no optional source was consulted for this DOI:\n"),
        "{off}"
    );
    assert!(off.contains("DOIGET_ENABLE_CORE"), "{off}");
    let on = lost(only_core());
    assert!(on.contains("the optional sources were consulted and did not resolve it"), "{on}");
    assert!(on.ends_with("\n  core         consulted: no record"), "{on}");
}

#[test]
fn without_any_source_crossrefs_error_is_the_error() {
    let fetch = DoiFetch::start(&doi("10.1090/a"), Err(source_down("cr")), Vec::new(), Vec::new());
    let (out, asked) = run(fetch, |_| DoiEvent::Unpaywall(None));
    assert_eq!(asked, vec!["unpaywall"]);
    assert_eq!(out.unwrap_err(), FetchError::NotFound { hint: "cr".to_string() });
}

#[test]
fn answers_to_other_requests_change_nothing() {
    let fetch = DoiFetch::start(&doi("10.1090/a"), crossref_ok(), Vec::new(), Vec::new());
    let fetch = fetch.step(DoiEvent::Copy(Ok(PDF_BYTES.to_vec())));
    assert_eq!(label(&fetch.action()), "unpaywall");
}

#[test]
fn open_copies_are_tried_in_order_until_one_is_there() {
    let urls = ["https://a.org/1", "https://b.org/2", "https://c.org/3"];
    let list = || urls.iter().map(|u| WebUrl::parse(u).unwrap()).collect::<Vec<_>>();
    let mut walk = OaWalk::new(list());
    assert_eq!(walk.next_url().unwrap().href(), "https://a.org/1");
    walk = walk.reply(Err(status_error(500)));
    assert_eq!(walk.next_url().unwrap().href(), "https://b.org/2");
    walk = walk.reply(Ok(PDF_BYTES.to_vec()));
    assert!(walk.next_url().is_none());
    assert_eq!(walk.finish(), (PdfLegStatus::Fetched, Some(PDF_BYTES.to_vec())));
    assert_eq!(OaWalk::new(Vec::new()).finish(), (PdfLegStatus::NoOaUrl, None));
    match OaWalk::new(list()).finish().0 {
        PdfLegStatus::Blocked { code, .. } => assert_eq!(code, ErrorCode::InternalError),
        other => panic!("{other:?}"),
    }
}

#[test]
fn blocked_legs_say_what_may_be_tried() {
    let blocked = PdfLegStatus::Blocked {
        code: ErrorCode::NetworkError,
        message: "m".to_string(),
        denial: None,
        suggested_arxiv_id: Some("2401.12345".to_string()),
    };
    assert_eq!(preprint_to_try(&blocked).unwrap().as_str(), "2401.12345");
    assert!(preprint_to_try(&PdfLegStatus::NoOaUrl).is_none());
    assert!(wants_another_copy(&blocked, &None));
    assert!(!wants_another_copy(&blocked, &Some(Vec::new())));
    assert!(!wants_another_copy(&PdfLegStatus::NoOaUrl, &None));
    assert_eq!(copy_url("core", Some("https://x.org/a")).unwrap().href(), "https://x.org/a");
    assert!(copy_url("core", Some("nonsense")).is_none());
    assert!(copy_url("core", None).is_none());
}

#[test]
fn arxiv_fetches_need_a_document() {
    let id = ArxivId::parse("2401.12345").unwrap();
    let reply = |pdf| ArxivReply {
        license: "arxiv-default".to_string(),
        pdf,
        final_url: Some("https://arxiv.org/pdf/2401.12345".to_string()),
        record: Some(json(
            r#"{"title":"T","authors":["A B"],"published":"2024-01-02T00:00:00Z","categories":["hep-th"]}"#,
        )),
    };
    assert!(matches!(
        conclude_arxiv(&id, reply(None), "/papers", at(0)),
        Err(FetchError::SourceSchema { hint }) if hint == "arxiv source returned no PDF bytes"
    ));
    let c = match conclude_arxiv(&id, reply(Some(PDF_BYTES.to_vec())), "/papers", at(4)) {
        Ok(c) => c,
        Err(e) => panic!("{e:?}"),
    };
    assert_eq!(c.metadata.title, "T");
    assert_eq!(c.metadata.year, Some(2024));
    assert_eq!(c.metadata.arxiv_categories, vec!["hep-th"]);
    assert_eq!(c.outcome.path, "/papers/arxiv_2401.12345.pdf");
    assert_eq!(c.outcome.oa_status.as_deref(), Some("green"));
    assert!(check_arxiv_granted(true).is_ok());
    assert!(matches!(
        check_arxiv_granted(false),
        Err(FetchError::NotEligible { source_key }) if source_key == "arxiv"
    ));
    let row = store_write_row(&c.metadata, "arxiv_2401.12345", true, true);
    assert_eq!(row.event, LogEvent::StoreWrite);
    assert!(row.succeeded);
    assert_eq!(row.size_bytes, Some(PDF_BYTES.len() as u64));
    let lost = store_write_row(&c.metadata, "arxiv_2401.12345", true, false);
    assert_eq!(lost.error_code.as_deref(), Some("STORE_ERROR"));
}

#[test]
fn batches_over_the_cap_are_refused() {
    assert!(check_batch_size(100).is_ok());
    assert!(matches!(
        check_batch_size(101),
        Err(FetchError::TooManyRefs { got: 101, max: 100 })
    ));
}

#[test]
fn the_log_gets_one_row_for_each_request() {
    let ok = oa_fetch_row(&doi("10.1234/a"), Some(7));
    assert!(ok.succeeded && ok.error_code.is_none());
    assert_eq!(ok.capability, Capability::Oa);
    assert_eq!(ok.source.as_deref(), Some("oa-publisher"));
    assert_eq!(ok.size_bytes, Some(7));
    let failed = oa_fetch_row(&doi("10.1234/a"), None);
    assert_eq!(failed.error_code.as_deref(), Some("NETWORK_ERROR"));
    assert_eq!(search_row(5).reference, None);
    assert_eq!(search_row(5).size_bytes, Some(5));
    let id = ArxivId::parse("2401.12345").unwrap();
    let text = submission_row(&id, false, 6);
    assert_eq!(text.source.as_deref(), Some("arxiv-src"));
    assert_eq!(text.license.as_deref(), Some("arxiv-default"));
    let files = submission_row(&id, true, 6);
    assert_eq!(files.source.as_deref(), Some("arxiv-src-bundle"));
    assert_ne!(files.canonical_digest, text.canonical_digest);
    let hop = graph_fetch_row("W1", Some(3));
    assert_eq!(hop.capability, Capability::Metadata);
    assert_ne!(
        identity_digest_of(SourceType::Doi, "a", "x"),
        identity_digest_of(SourceType::Doi, "a", "y")
    );
}

#[test]
fn synthetic_outcomes_are_marked_as_unknown() {
    let rows = vec![SourceAttempt::new("hal", AttemptOutcome::NoRecord)];
    let a = FetchPaperOutcome::for_test_synthetic("k", "crossref", PdfLegStatus::NoOaUrl);
    assert_eq!(a.path, "/tmp/k.pdf");
    assert_eq!(a.canonical_digest, "0".repeat(64));
    let b = FetchPaperOutcome::for_test_synthetic_with_attempts(
        "k",
        "crossref",
        PdfLegStatus::NoOaUrl,
        rows,
    );
    assert_eq!(b.attempts.len(), 1);
}

#[test]
fn plans_name_where_papers_go() {
    let plan = doiget_core::dry_run::build_fetch_plan(
        &doiget_core::Ref::parse("10.1103/a").unwrap(),
        "/papers",
    );
    let fetch = DoiFetch::start(&doi("10.1103/a"), crossref_ok(), Vec::new(), Vec::new());
    let (out, _) = run(fetch, |_| DoiEvent::Unpaywall(None));
    assert_eq!(out.expect("metadata").path, plan.target_metadata_path);
    let fetch = DoiFetch::start(&doi("10.1103/a"), crossref_ok(), Vec::new(), Vec::new());
    let (out, _) = run(fetch, |a| match a {
        DoiAction::AskUnpaywall => DoiEvent::Unpaywall(unpaywall(&["https://a.org/1.pdf"])),
        _ => DoiEvent::Copy(Ok(PDF_BYTES.to_vec())),
    });
    assert_eq!(out.expect("fetched").path, plan.target_pdf_path);
}

#[test]
fn switches_change_no_answer() {
    let told = |tdm, optional| {
        let fetch = DoiFetch::start(&doi("10.1103/a"), crossref_ok(), tdm, optional);
        let (out, asked) = run(fetch, |_| DoiEvent::Unpaywall(unpaywall(&[])));
        let out = out.expect("metadata");
        (out.title, out.authors, out.year, out.source, out.pdf_leg, asked)
    };
    let all = optional_sources(true, true, true, true, true);
    assert_eq!(told(Vec::new(), Vec::new()), told(aps(true), all));
}

#[test]
fn records_are_handed_out_for_the_address() {
    let mut fetch = DoiFetch::start(&doi("10.1090/a"), crossref_ok(), Vec::new(), only_core());
    assert!(fetch.located_record().is_none());
    fetch = fetch.step(DoiEvent::Unpaywall(unpaywall(&["https://a.org/1.pdf"])));
    fetch = fetch.step(DoiEvent::Copy(Err(status_error(429))));
    assert_eq!(label(&fetch.action()), "optional core");
    fetch = fetch.step(DoiEvent::Record(Ok(Some(json(r#"{"k":1}"#)))));
    assert_eq!(label(&fetch.action()), "locate core");
    assert_eq!(fetch.located_record(), Some(&json(r#"{"k":1}"#)));
}

#[test]
fn a_document_staged_at_no_text_is_left_out_or_refused() {
    let doi = Ref::parse("10.1234/x").unwrap();
    let preprint = Ref::parse("arxiv:2401.12345").unwrap();
    assert_eq!(stores_document(&doi, true), Ok(true));
    assert_eq!(stores_document(&preprint, true), Ok(true));
    assert_eq!(stores_document(&doi, false), Ok(false));
    assert_eq!(
        stores_document(&preprint, false),
        Err(FetchError::SourceSchema { hint: "staging tempfile path is not UTF-8".to_string() })
    );
}

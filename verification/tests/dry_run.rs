use doiget_core::dry_run::{build_dry_run_envelope, build_fetch_plan, rate_limit_budget};
use doiget_core::json::{Json, JsonNumber};
use doiget_core::orchestrator::paper::{
    batch_fetch_plans, fetch_paper_plan, try_fetch_paper_plan, BatchRun,
};
use doiget_core::source::FetchError;
use doiget_core::{Ref, MAX_BATCH_REFS};

fn r(s: &str) -> Ref {
    Ref::parse(s).expect("parses")
}

fn temp_root() -> &'static str {
    "/tmp/doiget-test-store"
}

fn text(v: &str) -> Json {
    Json::Text(v.to_string())
}

#[test]
fn doi_plan_carries_crossref_and_unpaywall_metadata_sources() {
    let plan = build_fetch_plan(&r("10.1234/example"), temp_root());
    assert_eq!(plan.metadata_sources, vec!["crossref", "unpaywall"]);
    assert_eq!(plan.pdf_sources.len(), 1);
    assert_eq!(plan.pdf_sources[0].key, "oa-publisher");
    assert!(
        !plan.pdf_sources[0].candidate_hosts.is_empty(),
        "OA publisher hosts must be populated"
    );
    assert!(plan.would_append_provenance);
}

#[test]
fn arxiv_plan_has_empty_metadata_sources_and_arxiv_pdf_source() {
    let plan = build_fetch_plan(&r("2401.12345"), temp_root());
    assert!(plan.metadata_sources.is_empty());
    assert_eq!(plan.pdf_sources.len(), 1);
    assert_eq!(plan.pdf_sources[0].key, "arxiv");
    assert!(plan.pdf_sources[0].candidate_hosts.iter().any(|h| h == "arxiv.org"));
}

#[test]
fn plan_target_paths_are_safekey_derived() {
    let plan = build_fetch_plan(&r("10.1234/example"), "/tmp/store");
    assert_eq!(plan.target_pdf_path, "/tmp/store/doi_10.1234_example.pdf");
    assert_eq!(
        plan.target_metadata_path,
        "/tmp/store/.metadata/doi_10.1234_example.toml"
    );
}

#[test]
fn dry_run_envelope_has_top_level_ok_dry_run_and_rate_budget() {
    let ref_ = r("10.1234/foo");
    let plan = build_fetch_plan(&ref_, temp_root());
    let env = build_dry_run_envelope(&ref_, &plan);
    assert_eq!(env.get("ok"), Some(&Json::Bool(true)));
    assert_eq!(env.get("dry_run"), Some(&Json::Bool(true)));
    assert_eq!(
        env.get("ref"),
        Some(&Json::Object(vec![("doi".to_string(), text("10.1234/foo"))]))
    );
    match env.get_in("rate_limit_budget", "global_per_sec") {
        Some(Json::Number(JsonNumber::Double(bits))) => assert_eq!(f64::from_bits(*bits), 5.0),
        other => panic!("expected 5.0, got {other:?}"),
    }
    assert_eq!(
        env.get_in("rate_limit_budget", "per_source_min_gap_ms"),
        Some(&Json::Number(JsonNumber::Unsigned(200)))
    );
    assert_eq!(rate_limit_budget().global_per_sec as f64, 5.0);
}

#[test]
fn dry_run_envelope_arxiv_ref_uses_arxiv_key() {
    let ref_ = r("2401.12345");
    let plan = build_fetch_plan(&ref_, temp_root());
    let env = build_dry_run_envelope(&ref_, &plan);
    assert_eq!(
        env.get("ref"),
        Some(&Json::Object(vec![("arxiv".to_string(), text("2401.12345"))]))
    );
}

#[test]
fn fetch_plan_carries_candidate_hosts_are_upper_bound_true() {
    let ref_ = r("10.1234/example");
    let plan = build_fetch_plan(&ref_, temp_root());
    assert!(plan.candidate_hosts_are_upper_bound);
    let env = build_dry_run_envelope(&ref_, &plan);
    assert_eq!(
        env.get_in("plan", "candidate_hosts_are_upper_bound"),
        Some(&Json::Bool(true)),
        "plan.candidate_hosts_are_upper_bound must be true on the wire; got: {env:?}"
    );
    assert_eq!(
        env.get_in("plan", "target_pdf_path"),
        Some(&text("/tmp/doiget-test-store/doi_10.1234_example.pdf"))
    );
}

#[test]
fn redirect_allowlists_loaded_lists_all_four_sources() {
    let plan = build_fetch_plan(&r("10.1234/example"), temp_root());
    assert_eq!(
        plan.redirect_allowlists_loaded,
        vec!["crossref", "unpaywall", "arxiv", "oa-publisher"]
    );
}

#[test]
fn fetch_paper_plan_matches_build_fetch_plan() {
    let root = "/tmp/doiget-test";
    for s in ["10.1234/example", "2401.12345"] {
        let plan = build_fetch_plan(&r(s), root);
        assert_eq!(fetch_paper_plan(&r(s), root), plan);
        assert_eq!(try_fetch_paper_plan(&r(s), root).expect("never fails"), plan);
    }
}

#[test]
fn batch_fetch_plans_returns_plan_per_ref_in_order() {
    let refs = vec![r("10.1234/alpha"), r("2401.12345")];
    let plans = batch_fetch_plans(&refs, "/tmp/doiget-batch-test").expect("under cap returns Ok");
    assert_eq!(plans.len(), 2);
    assert!(matches!(plans[0].0, Ref::Doi(_)));
    assert!(matches!(plans[1].0, Ref::Arxiv(_)));
    assert_eq!(plans[0].1.metadata_sources, vec!["crossref", "unpaywall"]);
    assert_eq!(plans[1].1.pdf_sources[0].key, "arxiv");
}

#[test]
fn batch_fetch_plans_too_many_refs_returns_err() {
    let n = MAX_BATCH_REFS + 1;
    let refs: Vec<Ref> = (0..n).map(|i| r(&format!("10.1234/n{}", i))).collect();
    match batch_fetch_plans(&refs, "/tmp/doiget-toomany") {
        Err(FetchError::TooManyRefs { got, max }) => {
            assert_eq!(got, n);
            assert_eq!(max, MAX_BATCH_REFS);
        }
        other => panic!("expected TooManyRefs, got {other:?}"),
    }
}

#[test]
fn batch_fetch_too_many_refs_returns_err_before_any_fetch() {
    let refs: Vec<Ref> = (0..101).map(|i| r(&format!("10.1234/n{}", i))).collect();
    assert!(matches!(
        BatchRun::start(&refs),
        Err(FetchError::TooManyRefs { got: 101, max: 100 })
    ));
}

#[test]
fn a_batch_keeps_going_past_a_failure() {
    let refs = vec![r("10.1234/a"), r("10.1234/b")];
    let mut run = match BatchRun::start(&refs) {
        Ok(run) => run,
        Err(e) => panic!("{e:?}"),
    };
    assert_eq!(run.next_ref(), Some(&refs[0]));
    run = run.reply(Err(FetchError::NotFound { hint: "x".to_string() }));
    assert_eq!(run.next_ref(), Some(&refs[1]));
    run = run.reply(Err(FetchError::NotFound { hint: "y".to_string() }));
    assert_eq!(run.next_ref(), None);
    run = run.reply(Err(FetchError::NotFound { hint: "z".to_string() }));
    let out = run.finish();
    assert_eq!(out.results.len(), 2);
    assert_eq!(out.results[0].ref_, refs[0]);
    assert_eq!(out.results[1].outcome, Err(FetchError::NotFound { hint: "y".to_string() }));
}

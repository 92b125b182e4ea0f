use doiget_core::http::allowlist::{oa_publisher_allowlist, SourceAllowlist};
use doiget_core::http::error::HttpError;
use doiget_core::json::{object, put, Json, JsonNumber};
use doiget_core::orchestrator::attempts::{
    attempts_to_value, classify_attempt, denial_to_value, is_access_refusal,
    nothing_was_consulted, render_attempts, AttemptOutcome, SourceAttempt,
};
use doiget_core::orchestrator::chain::{
    merge, optional_sources, record, skip_reason, tdm_source, tdm_sources, ChainEntry, SourceChain,
    SourceFailure, TdmPublisher,
};
use doiget_core::orchestrator::legs::check_oa_host;
use doiget_core::source::FetchError;
use doiget_core::urls::WebUrl;
use doiget_core::{DenialContext, DenialReason, ErrorCode, Ref};

fn redirect_denial() -> FetchError {
    FetchError::Http(HttpError::RedirectDenied {
        source_key: "hal".to_string(),
        host: "cdn.example.org".to_string(),
        expected_hosts: vec!["hal.science".to_string()],
    })
}

fn text(s: &str) -> Json {
    Json::Text(s.to_string())
}

fn value_of(j: &Json) -> serde_json::Value {
    match j {
        Json::Null => serde_json::Value::Null,
        Json::Bool(b) => (*b).into(),
        Json::Number(JsonNumber::Unsigned(n)) => (*n).into(),
        Json::Number(JsonNumber::Negative(n)) => (*n).into(),
        Json::Number(JsonNumber::Double(bits)) => f64::from_bits(*bits).into(),
        Json::Text(s) => s.clone().into(),
        Json::Array(v) => v.iter().map(value_of).collect(),
        Json::Object(v) => v.iter().map(|(k, x)| (k.clone(), value_of(x))).collect(),
    }
}

fn wire(d: &DenialContext) -> String {
    value_of(&denial_to_value(d)).to_string()
}

fn row_of(v: &Json, i: usize) -> &Json {
    &v.as_items().expect("an array")[i]
}

fn bare(reason: DenialReason) -> DenialContext {
    DenialContext::of(reason)
}

#[test]
fn a_policy_refusal_keeps_its_denial_context() {
    let outcome = classify_attempt(&redirect_denial(), "shown");
    let denial = outcome
        .denial()
        .expect("a redirect denial must survive classification");
    assert_eq!(denial.reason, DenialReason::RedirectNotInAllowlist);
    assert_eq!(denial.attempted.as_deref(), Some("cdn.example.org"));
    assert_eq!(outcome.wire(), "consulted_denied");
    assert!(outcome.was_consulted(), "a refusal means a request went out");
}

#[test]
fn a_denied_row_carries_a_remediation_on_the_wire() {
    let attempts = vec![SourceAttempt::new(
        "hal",
        classify_attempt(&redirect_denial(), "shown"),
    )];
    let advice = || Json::Array(vec![text("allow cdn.example.org")]);
    let v = attempts_to_value(&attempts, vec![Some(advice())]);
    let row = row_of(&v, 0);
    assert_eq!(row.get("outcome"), Some(&text("consulted_denied")));
    assert_eq!(
        row.get_in("denial_context", "reason"),
        Some(&text("redirect_not_in_allowlist")),
        "row: {row:?}"
    );
    assert_eq!(row.get("remediation"), Some(&advice()));
    assert!(
        row.text_at("detail").is_some(),
        "`detail` must stay populated; row: {row:?}"
    );
}

#[test]
fn an_ungranted_capability_is_not_reported_as_consulted_and_denied() {
    let outcome = classify_attempt(
        &FetchError::NotEligible {
            source_key: "tdm-aps".into(),
        },
        "shown",
    );
    assert!(
        outcome.denial().is_none(),
        "got {outcome:?}: this never reached the network"
    );
    assert_eq!(outcome.wire(), "consulted_failed");
    assert_eq!(outcome.detail(), Some("shown"));
}

#[test]
fn the_accessors_narrow_rather_than_generalise() {
    let failed = AttemptOutcome::Failed {
        detail: "connection reset".to_string(),
    };
    assert!(failed.denial().is_none());
    assert!(failed.required_env().is_none());
    assert!(failed.detail().is_some());

    let disabled = AttemptOutcome::Disabled {
        env: &["DOIGET_ENABLE_HAL"],
    };
    assert!(disabled.denial().is_none());
    assert!(
        disabled.detail().is_none(),
        "`Disabled` carries structure; the joined string is built at the wire"
    );
    assert!(!disabled.was_consulted());
    assert_eq!(
        disabled.render(),
        "not consulted (set DOIGET_ENABLE_HAL to enable)"
    );
}

#[test]
fn a_denial_without_an_attempted_host_still_renders() {
    let outcome = AttemptOutcome::Denied {
        denial: DenialContext {
            source: Some("core".to_string()),
            ..bare(DenialReason::SizeCapExceeded)
        },
    };
    assert_eq!(outcome.render(), "consulted: refused (SizeCapExceeded)");
    let v = attempts_to_value(&[SourceAttempt::new("core", outcome)], vec![None]);
    assert!(row_of(&v, 0).get("remediation").is_none(), "row: {v:?}");
    assert!(row_of(&v, 0).get("denial_context").is_some(), "row: {v:?}");
}

#[test]
fn a_disabled_row_lists_its_variables_instead_of_joining_them() {
    let attempts = vec![SourceAttempt::new(
        "tdm-aps",
        AttemptOutcome::Disabled {
            env: &["DOIGET_KEY_APS", "DOIGET_AGREE_TDM_APS"],
        },
    )];
    let v = attempts_to_value(&attempts, vec![None]);
    let row = row_of(&v, 0);
    assert_eq!(
        row.get("required_env"),
        Some(&Json::Array(vec![text("DOIGET_KEY_APS"), text("DOIGET_AGREE_TDM_APS")])),
        "row: {row:?}"
    );
    assert_eq!(
        row.get("detail"),
        Some(&text("DOIGET_KEY_APS + DOIGET_AGREE_TDM_APS")),
        "row: {row:?}"
    );
}

#[test]
fn pre_fetch_denial_produces_byte_identical_denial_context_as_redirect_denied_145() {
    let allow = SourceAllowlist::new(
        "oa-publisher",
        vec!["*.springer.com".to_string(), "*.plos.org".to_string()],
    );
    let url = WebUrl::parse("https://attacker.test/x.pdf").unwrap();
    let pre_fetch = check_oa_host(Some(&allow), &url).unwrap_err();
    let redirect_closure = HttpError::RedirectDenied {
        source_key: "oa-publisher".to_string(),
        host: "attacker.test".to_string(),
        expected_hosts: vec!["*.springer.com".to_string(), "*.plos.org".to_string()],
    };
    let dc_pre = pre_fetch.denial_context().expect("pre-fetch -> Some");
    let dc_red = redirect_closure.denial_context().expect("redirect -> Some");
    assert_eq!(dc_pre, dc_red);
    assert_eq!(dc_pre.reason, DenialReason::RedirectNotInAllowlist);
    assert_eq!(dc_pre.source.as_deref(), Some("oa-publisher"));
    assert_eq!(dc_pre.attempted.as_deref(), Some("attacker.test"));
    assert_eq!(
        dc_pre.expected,
        Some(vec!["*.springer.com".to_string(), "*.plos.org".to_string()]),
    );
    assert_eq!(dc_pre.hop_index, None);
    assert_eq!(dc_pre.cap, None);
    assert_eq!(dc_pre.actual, None);
}

#[test]
fn open_hosts_pass_the_check() {
    let lists = oa_publisher_allowlist();
    let url = WebUrl::parse("https://journals.plos.org/x.pdf").unwrap();
    assert!(check_oa_host(Some(&lists[0]), &url).is_ok());
}

#[test]
fn denial_reason_serializes_snake_case() {
    let token = |r| denial_to_value(&bare(r)).text_at("reason").cloned();
    assert_eq!(
        token(DenialReason::RedirectNotInAllowlist).as_deref(),
        Some("redirect_not_in_allowlist")
    );
    assert_eq!(token(DenialReason::SizeCapExceeded).as_deref(), Some("size_cap_exceeded"));
    assert_eq!(
        token(DenialReason::ContentTypeMismatch).as_deref(),
        Some("content_type_mismatch")
    );
}

#[test]
fn denial_context_serialize_elides_empty_fields() {
    assert_eq!(
        wire(&bare(DenialReason::CapabilityNotGranted)),
        "{\"reason\":\"capability_not_granted\"}"
    );
}

#[test]
fn denial_context_expected_some_empty_vec_preserves_explicit_empty_allowlist() {
    let dc = DenialContext {
        reason: DenialReason::RedirectNotInAllowlist,
        source: Some("crossref".to_string()),
        attempted: Some("evil.example.com".to_string()),
        expected: Some(Vec::new()),
        hop_index: None,
        cap: None,
        actual: None,
    };
    let s = wire(&dc);
    assert!(
        s.contains("\"expected\":[]"),
        "expected:[] must survive on the wire (got: {s})"
    );
}

#[test]
fn full_error_envelope_with_denial_context_serializes_to_pinned_json() {
    let denial = DenialContext {
        reason: DenialReason::RedirectNotInAllowlist,
        source: Some("crossref".into()),
        attempted: Some("evil.example.com".into()),
        expected: Some(vec!["api.crossref.org".into(), "*.crossref.org".into()]),
        hop_index: Some(1),
        cap: None,
        actual: None,
    };
    let mut error: Vec<(String, Json)> = Vec::new();
    put(&mut error, "code", text(ErrorCode::NetworkError.as_wire()));
    put(
        &mut error,
        "message",
        text("redirect target evil.example.com not in allowlist for source crossref"),
    );
    put(&mut error, "denial_context", denial_to_value(&denial));
    let mut envelope: Vec<(String, Json)> = Vec::new();
    put(&mut envelope, "ok", Json::Bool(false));
    put(&mut envelope, "error", object(error));
    let actual = value_of(&object(envelope)).to_string();
    let expected = r#"{"error":{"code":"NETWORK_ERROR","denial_context":{"attempted":"evil.example.com","expected":["api.crossref.org","*.crossref.org"],"hop_index":1,"reason":"redirect_not_in_allowlist","source":"crossref"},"message":"redirect target evil.example.com not in allowlist for source crossref"},"ok":false}"#;
    assert_eq!(actual, expected);
}

#[test]
fn misses_and_refusals_are_told_apart() {
    let miss = FetchError::NotFound { hint: "none".to_string() };
    assert_eq!(classify_attempt(&miss, "s"), AttemptOutcome::NoRecord);
    let closed = FetchError::SourceSchema { hint: "record is not open access".to_string() };
    assert_eq!(
        classify_attempt(&closed, "s"),
        AttemptOutcome::NotOpenAccess { detail: "record is not open access".to_string() }
    );
    assert!(is_access_refusal("openAccess = false"));
    assert!(!is_access_refusal("missing field"));
    let odd = FetchError::SourceSchema { hint: "missing field".to_string() };
    assert_eq!(classify_attempt(&odd, "s"), AttemptOutcome::Failed { detail: "s".to_string() });
}

#[test]
fn traces_render_one_line_per_source() {
    let rows = vec![
        SourceAttempt::new("hal", AttemptOutcome::NoRecord),
        SourceAttempt::new("core", AttemptOutcome::NotNeeded),
    ];
    assert_eq!(
        render_attempts(&rows),
        "  hal          consulted: no record\n  core         not consulted (an earlier source answered)"
    );
    assert!(!nothing_was_consulted(&rows));
    assert!(nothing_was_consulted(&rows[1..]));
    assert!(!nothing_was_consulted(&[]));
}

fn doi(s: &str) -> Ref {
    Ref::parse(s).expect("parses")
}

fn drive(
    mut chain: SourceChain,
    mut answer: impl FnMut(&'static str) -> Result<Option<Json>, SourceFailure>,
) -> (Vec<SourceAttempt>, Option<(&'static str, Json)>, Vec<&'static str>) {
    let mut asked = Vec::new();
    loop {
        let (c, next) = chain.next_source();
        chain = c;
        match next {
            Some(name) => {
                asked.push(name);
                chain = chain.reply(answer(name));
            }
            None => break,
        }
    }
    let (rows, found) = chain.finish();
    (rows, found, asked)
}

fn down() -> SourceFailure {
    SourceFailure {
        error: FetchError::NotFound { hint: "none".to_string() },
        shown: "none".to_string(),
    }
}

#[test]
fn every_optional_source_is_actually_reached_by_the_production_chain() {
    let all = optional_sources(true, true, true, true, true);
    let (rows, found, asked) = drive(SourceChain::new(&doi("10.1234/x"), false, all), |_| Err(down()));
    assert_eq!(asked, vec!["datacite", "europe-pmc", "openaire", "hal", "core"]);
    assert_eq!(rows.len(), 5);
    assert!(rows.iter().all(|r| r.outcome == AttemptOutcome::NoRecord));
    assert!(found.is_none());
}

#[test]
fn flags_off_means_never_consulted_and_says_which_var_to_set() {
    let none = optional_sources(false, false, false, false, false);
    let (rows, _, asked) = drive(SourceChain::new(&doi("10.1234/x"), false, none), |_| Err(down()));
    assert!(asked.is_empty());
    assert!(nothing_was_consulted(&rows));
    assert_eq!(
        rows[3].outcome,
        AttemptOutcome::Disabled { env: &["DOIGET_ENABLE_HAL"] }
    );
}

#[test]
fn an_answer_ends_the_questions() {
    let all = optional_sources(true, true, true, true, true);
    let (rows, found, asked) = drive(SourceChain::new(&doi("10.1234/x"), false, all), |name| {
        if name == "europe-pmc" {
            Ok(Some(Json::Null))
        } else {
            Err(down())
        }
    });
    assert_eq!(asked, vec!["datacite", "europe-pmc"]);
    assert_eq!(found, Some(("europe-pmc", Json::Null)));
    let tokens: Vec<&str> = rows.iter().map(|r| r.outcome.wire()).collect();
    assert_eq!(
        tokens,
        vec![
            "consulted_no_record",
            "consulted_resolved",
            "not_consulted_not_needed",
            "not_consulted_not_needed",
            "not_consulted_not_needed",
        ]
    );
}

#[test]
fn a_crossref_hit_skips_the_chain_without_pretending_it_was_disabled() {
    let all = optional_sources(true, false, true, true, true);
    let (rows, found, asked) = drive(SourceChain::new(&doi("10.1234/x"), true, all), |_| Err(down()));
    assert!(asked.is_empty() && found.is_none());
    assert!(rows.iter().all(|r| r.outcome == AttemptOutcome::NotNeeded));
}

#[test]
fn an_arxiv_ref_is_not_applicable_rather_than_disabled() {
    let none = optional_sources(false, false, false, false, false);
    let (rows, _, _) = drive(SourceChain::new(&doi("2401.12345"), false, none), |_| Err(down()));
    assert!(rows.iter().all(|r| r.outcome == AttemptOutcome::NotApplicable));
}

fn publishers(can_serve: bool) -> Vec<ChainEntry> {
    let built = |prefix: &str| Some((vec![prefix.to_string()], can_serve));
    tdm_sources(built("10.1103"), built("10.1016"), built("10.1007"), built("10.1109"))
}

#[test]
fn publishers_are_asked_in_one_order_as_far_as_they_are_built_in() {
    let names = |list: &[ChainEntry]| list.iter().map(|e| e.name).collect::<Vec<_>>();
    assert_eq!(
        names(&publishers(true)),
        vec!["tdm-aps", "tdm-elsevier", "tdm-springer", "tdm-ieee"]
    );
    let springer = || Some((vec!["10.1007".to_string()], false));
    let ieee = || Some((vec!["10.1109".to_string()], true));
    let some = tdm_sources(None, None, springer(), ieee());
    assert_eq!(names(&some), vec!["tdm-springer", "tdm-ieee"]);
    assert!(!some[0].can_serve && some[1].can_serve);
    assert_eq!(names(&tdm_sources(None, springer(), None, ieee())), vec!["tdm-elsevier", "tdm-ieee"]);
    assert!(tdm_sources(None, None, None, None).is_empty());
}

#[test]
fn each_publisher_has_its_own_source() {
    let one = tdm_source(TdmPublisher::Springer, vec!["10.1007".to_string()], true);
    assert_eq!(one.name, "tdm-springer");
    assert_eq!(one.env, &["DOIGET_KEY_SPRINGER", "DOIGET_AGREE_TDM_SPRINGER"]);
    assert!(one.can_serve);
}

#[test]
fn every_tdm_source_is_reached_for_its_own_publishers_doi() {
    for (prefix, name) in [
        ("10.1103", "tdm-aps"),
        ("10.1016", "tdm-elsevier"),
        ("10.1007", "tdm-springer"),
        ("10.1109", "tdm-ieee"),
    ] {
        let chain = SourceChain::new(&doi(&format!("{prefix}/x")), false, publishers(true));
        let (_, _, asked) = drive(chain, |_| Err(down()));
        assert_eq!(asked, vec![name]);
    }
}

#[test]
fn a_foreign_doi_is_wrong_publisher_not_disabled() {
    let aps = &publishers(false)[0];
    assert_eq!(
        skip_reason(false, &doi("10.1016/x"), aps),
        Some(AttemptOutcome::WrongPublisher {
            detail: "DOI prefix 10.1016 is not American Physical Society (APS)".to_string()
        })
    );
}

#[test]
fn closed_gates_name_the_key_and_the_agreement() {
    let aps = &publishers(false)[0];
    assert_eq!(
        skip_reason(false, &doi("10.1103/x"), aps),
        Some(AttemptOutcome::Disabled { env: &["DOIGET_KEY_APS", "DOIGET_AGREE_TDM_APS"] })
    );
}

#[test]
fn recording_touches_one_source() {
    let rows = vec![
        SourceAttempt::new("a", AttemptOutcome::NoRecord),
        SourceAttempt::new("b", AttemptOutcome::NotNeeded),
    ];
    let rows = record(rows, "b", AttemptOutcome::Resolved);
    assert_eq!(rows[0].outcome, AttemptOutcome::NoRecord);
    assert_eq!(rows[1].outcome, AttemptOutcome::Resolved);
    let rows = record(rows, "c", AttemptOutcome::NoRecord);
    assert_eq!(rows.len(), 3);
}

#[test]
fn the_fallback_preserves_the_tier_3_rows_it_used_to_delete() {
    let rows = vec![
        SourceAttempt::new("tdm-aps", AttemptOutcome::NoRecord),
        SourceAttempt::new("hal", AttemptOutcome::NotNeeded),
    ];
    let fresh = vec![SourceAttempt::new("hal", AttemptOutcome::Resolved)];
    let merged = merge(rows, fresh);
    assert_eq!(merged.len(), 2);
    assert_eq!(merged[0].source, "tdm-aps");
    assert!(merged.iter().any(|r| r.source == "hal" && r.outcome == AttemptOutcome::Resolved));
}

#[test]
fn an_access_refusal_is_recorded_distinctly_from_a_miss() {
    let all = optional_sources(false, true, false, true, false);
    let (rows, _, _) = drive(SourceChain::new(&doi("10.1234/x"), false, all), |name| {
        if name == "hal" {
            Err(SourceFailure {
                error: FetchError::SourceSchema { hint: "record is not open access".to_string() },
                shown: "s".to_string(),
            })
        } else {
            Err(down())
        }
    });
    assert_eq!(rows[1].outcome, AttemptOutcome::NoRecord);
    assert_eq!(rows[3].outcome.wire(), "consulted_not_open_access");
}

#[test]
fn every_compiled_publisher_is_in_the_chain() {
    let (rows, _, _) = drive(
        SourceChain::new(&doi("10.9999/x"), false, publishers(true)),
        |_| Err(down()),
    );
    let names: Vec<&str> = rows.iter().map(|r| r.source).collect();
    assert_eq!(names, vec!["tdm-aps", "tdm-elsevier", "tdm-springer", "tdm-ieee"]);
    assert!(rows.iter().all(|r| matches!(r.outcome, AttemptOutcome::WrongPublisher { .. })));
}

#[test]
fn a_crossref_hit_skips_the_tdm_chain() {
    let (rows, found, asked) = drive(
        SourceChain::new(&doi("10.1103/x"), true, publishers(true)),
        |_| Err(down()),
    );
    assert!(asked.is_empty() && found.is_none());
    assert!(rows.iter().all(|r| r.outcome == AttemptOutcome::NotNeeded));
}

#[test]
fn try_fetch_oa_pdf_off_allowlist_host_no_redirect_is_redirect_denied_145() {
    let lists = oa_publisher_allowlist();
    let url = WebUrl::parse("https://attacker.test/x.pdf").unwrap();
    match check_oa_host(Some(&lists[0]), &url) {
        Err(HttpError::RedirectDenied { source_key, host, expected_hosts }) => {
            assert_eq!(source_key, "oa-publisher");
            assert_eq!(host, "attacker.test");
            assert_eq!(expected_hosts, lists[0].redirect_hosts);
        }
        other => panic!("expected RedirectDenied, got {other:?}"),
    }
}

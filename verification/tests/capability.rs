use doiget_core::capability::{settings_without_build, BuildFeatures, CapabilityEnv, TdmEnv};
use doiget_core::clock::Timestamp;
use doiget_core::{
    CapabilityError, CapabilityProfile, RateLimits, DOI_SUFFIX_MAX_LEN, MCP_BATCH_MAX_SIZE,
    MCP_QUEUE_DEPTH_MAX, MCP_STDIN_EOF_SHUTDOWN_SEC, SCHEMA_VERSION,
};

const EPOCH: Timestamp = Timestamp { secs: 0, nanos: 0 };
const AGREED: Timestamp = Timestamp { secs: 7, nanos: 250_000_001 };

fn unset() -> TdmEnv {
    TdmEnv { agree: None, key_set: false }
}

fn clean_env() -> CapabilityEnv {
    CapabilityEnv {
        openalex_set: false,
        semantic_scholar_set: false,
        doaj_set: false,
        elsevier: unset(),
        aps: unset(),
        springer: unset(),
    }
}

fn built(all: bool) -> BuildFeatures {
    BuildFeatures { metadata: all, tdm_elsevier: all, tdm_aps: all, tdm_springer: all }
}

#[test]
fn rate_limits_hard_coded_match_legal_safeguards() {
    assert_eq!(RateLimits::hard_coded().max_concurrent_fetches(), 5);
    assert!((RateLimits::hard_coded().max_fetches_per_second() as f32 - 5.0).abs() < f32::EPSILON);
    assert_eq!(RateLimits::hard_coded().per_source_backoff_ms(), 200);
}

#[test]
fn batch_size_caps_match_security_doc() {
    assert_eq!(MCP_BATCH_MAX_SIZE, 100);
    assert_eq!(MCP_QUEUE_DEPTH_MAX, 100);
    assert_eq!(DOI_SUFFIX_MAX_LEN, 256);
    assert_eq!(MCP_STDIN_EOF_SHUTDOWN_SEC, 5);
}

#[test]
fn schema_version_is_pinned_to_1_0() {
    assert_eq!(SCHEMA_VERSION, "1.0");
}

#[test]
fn from_env_no_env_vars_set_returns_tier_1_only() {
    let p = CapabilityProfile::from_env(&clean_env(), &built(true), EPOCH).expect("clean env never errors");
    assert!(p.tdm_elsevier.is_none());
    assert!(p.tdm_aps.is_none());
    assert!(p.tdm_springer.is_none());
    assert!(!p.metadata.openalex);
    assert!(!p.metadata.semantic_scholar);
    assert!(!p.metadata.doaj);
    assert_eq!(p.rate_limits.max_concurrent_fetches(), 5);
}

#[test]
fn from_env_no_tdm_returns_tier_1_profile() {
    let p = CapabilityProfile::from_env(&clean_env(), &built(false), EPOCH).expect("no TDM env -> Ok");
    assert!(p.tdm_elsevier.is_none());
    assert!(p.tdm_aps.is_none());
    assert!(p.tdm_springer.is_none());
}

#[test]
fn from_env_agreed_but_no_key_errs() {
    let mut env = clean_env();
    env.elsevier.agree = Some("1".to_string());
    match CapabilityProfile::from_env(&env, &built(true), EPOCH) {
        Err(CapabilityError::AgreedButNoKey { agree_var, key_var }) => {
            assert_eq!(agree_var, "DOIGET_AGREE_TDM_ELSEVIER");
            assert_eq!(key_var, "DOIGET_KEY_ELSEVIER");
        }
        other => panic!("expected AgreedButNoKey, got {:?}", other),
    }
}

#[test]
fn from_env_key_but_not_agreed_errs() {
    let mut env = clean_env();
    env.elsevier.key_set = true;
    match CapabilityProfile::from_env(&env, &built(true), EPOCH) {
        Err(CapabilityError::KeyButNotAgreed { agree_var }) => {
            assert_eq!(agree_var, "DOIGET_AGREE_TDM_ELSEVIER");
        }
        other => panic!("expected KeyButNotAgreed, got {:?}", other),
    }
}

#[test]
fn from_env_agree_not_one_errs() {
    let mut env = clean_env();
    env.elsevier = TdmEnv { agree: Some("true".to_string()), key_set: true };
    match CapabilityProfile::from_env(&env, &built(true), EPOCH) {
        Err(CapabilityError::KeyButNotAgreed { agree_var }) => {
            assert_eq!(agree_var, "DOIGET_AGREE_TDM_ELSEVIER");
        }
        other => panic!("expected KeyButNotAgreed, got {:?}", other),
    }
}

#[test]
fn from_env_both_set_correctly_returns_grant() {
    let mut env = clean_env();
    env.elsevier = TdmEnv { agree: Some("1".to_string()), key_set: true };
    let p = CapabilityProfile::from_env(&env, &built(true), AGREED).expect("agree=1 + key -> Ok");
    let grant = p.tdm_elsevier.as_ref().expect("built in -> Some(TdmGrant)");
    assert_eq!(grant.agree_env_var, "DOIGET_AGREE_TDM_ELSEVIER");
    assert_eq!(grant.agreed_at, AGREED);
    let q = CapabilityProfile::from_env(&env, &built(false), AGREED).expect("agree=1 + key -> Ok");
    assert!(q.tdm_elsevier.is_none(), "not built in -> None");
}

#[test]
fn from_env_metadata_env_warns_without_feature() {
    let mut env = clean_env();
    env.openalex_set = true;
    let with = CapabilityProfile::from_env(&env, &built(true), EPOCH).expect("metadata env never errors");
    assert!(with.metadata.openalex);
    let without = CapabilityProfile::from_env(&env, &built(false), EPOCH).expect("metadata env never errors");
    assert!(!without.metadata.openalex);
}

#[test]
fn the_first_contradiction_is_the_error() {
    let mut env = clean_env();
    env.aps.key_set = true;
    env.springer.agree = Some("1".to_string());
    let e = CapabilityProfile::from_env(&env, &built(true), EPOCH).unwrap_err();
    assert_eq!(
        e,
        CapabilityError::KeyButNotAgreed { agree_var: "DOIGET_AGREE_TDM_APS".to_string() }
    );
    assert_eq!(
        e.message(),
        "key for DOIGET_AGREE_TDM_APS is present but DOIGET_AGREE_TDM_APS is not set to '1'"
    );
}

#[test]
fn a_default_grant_is_dated_now() {
    let grant = doiget_core::TdmGrant::default();
    assert!(grant.agree_env_var.is_empty());
    assert!(grant.agreed_at.secs > 1_600_000_000);
    assert!(grant.agreed_at.nanos < 1_000_000_000);
}

#[test]
fn settings_without_the_build_are_told() {
    let mut env = clean_env();
    assert!(settings_without_build(&env, &built(false)).is_empty());
    env.semantic_scholar_set = true;
    env.aps = TdmEnv { agree: Some("1".to_string()), key_set: true };
    env.springer = TdmEnv { agree: Some("yes".to_string()), key_set: true };
    assert_eq!(
        settings_without_build(&env, &built(false)),
        vec![("DOIGET_ENABLE_S2", "metadata"), ("DOIGET_AGREE_TDM_APS", "tdm-aps")]
    );
    assert!(settings_without_build(&env, &built(true)).is_empty());
}

//! Which sources a run may use: the capability profile and how it is resolved
//! from the environment.

use crate::clock::Timestamp;
use crate::text;
use vstd::prelude::*;

verus! {

/// Hard-coded cap on concurrent fetches.
pub const MAX_CONCURRENT_FETCHES: u32 = 5;

/// Hard-coded cap on fetches a second.
pub const MAX_FETCHES_PER_SECOND: u32 = 5;

/// Pause between two requests to one source, in milliseconds.
pub const PER_SOURCE_BACKOFF_MS: u64 = 200;

/// Marker of the open-access tier, which is always on.
#[derive(Debug, Clone, Copy)]
pub struct AlwaysOn;

/// Which Tier 2 metadata sources are enabled.
#[derive(Debug, Clone, Copy)]
#[non_exhaustive]
pub struct MetadataAccess {
    /// Enabled by `DOIGET_ENABLE_OPENALEX`.
    pub openalex: bool,
    /// Enabled by `DOIGET_ENABLE_S2`.
    pub semantic_scholar: bool,
    /// Enabled by `DOIGET_ENABLE_DOAJ`.
    pub doaj: bool,
}

impl Default for MetadataAccess {
    fn default() -> (r: Self)
        ensures
            !r.openalex,
            !r.semantic_scholar,
            !r.doaj,
    {
        MetadataAccess { openalex: false, semantic_scholar: false, doaj: false }
    }
}

/// Process-wide rate limits. [`RateLimits::hard_coded`] is the only way to
/// have one.
#[derive(Debug, Clone, Copy)]
#[non_exhaustive]
pub struct RateLimits {
    pub(crate) max_concurrent_fetches: u32,
    pub(crate) max_fetches_per_second: u32,
    pub(crate) per_source_backoff_ms: u64,
}

impl RateLimits {
    #[verifier::type_invariant]
    closed spec fn wf(&self) -> bool {
        &&& self.max_concurrent_fetches == MAX_CONCURRENT_FETCHES
        &&& self.max_fetches_per_second == MAX_FETCHES_PER_SECOND
        &&& self.per_source_backoff_ms == PER_SOURCE_BACKOFF_MS
    }

    /// The concurrent fetches, the fetches a second, and the pause in
    /// milliseconds.
    pub closed spec fn limits(&self) -> (u32, u32, u64) {
        (self.max_concurrent_fetches, self.max_fetches_per_second, self.per_source_backoff_ms)
    }

    /// The single set of rate limits.
    pub fn hard_coded() -> (r: RateLimits)
        ensures
            r.limits() == (MAX_CONCURRENT_FETCHES, MAX_FETCHES_PER_SECOND, PER_SOURCE_BACKOFF_MS),
    {
        RateLimits {
            max_concurrent_fetches: MAX_CONCURRENT_FETCHES,
            max_fetches_per_second: MAX_FETCHES_PER_SECOND,
            per_source_backoff_ms: PER_SOURCE_BACKOFF_MS,
        }
    }

    /// Maximum number of fetches in flight.
    pub fn max_concurrent_fetches(&self) -> (r: u32)
        ensures
            r == self.limits().0,
            r == MAX_CONCURRENT_FETCHES,
    {
        proof {
            use_type_invariant(self);
        }
        self.max_concurrent_fetches
    }

    /// Maximum fetch attempts a second, over all sources.
    pub fn max_fetches_per_second(&self) -> (r: u32)
        ensures
            r == self.limits().1,
            r == MAX_FETCHES_PER_SECOND,
    {
        proof {
            use_type_invariant(self);
        }
        self.max_fetches_per_second
    }

    /// Pause in milliseconds between two requests to one source.
    pub fn per_source_backoff_ms(&self) -> (r: u64)
        ensures
            r == self.limits().2,
            r == PER_SOURCE_BACKOFF_MS,
    {
        proof {
            use_type_invariant(self);
        }
        self.per_source_backoff_ms
    }
}

/// A text-and-data-mining grant: the user agreed and supplied a key.
#[derive(Debug, Clone)]
#[non_exhaustive]
pub struct TdmGrant {
    /// The variable with which the user agreed.
    pub agree_env_var: String,
    /// When the agreement was observed.
    pub agreed_at: Timestamp,
}

impl Default for TdmGrant {
    fn default() -> (r: Self)
        ensures
            r.agree_env_var@ == Seq::<char>::empty(),
    {
        TdmGrant { agree_env_var: String::new(), agreed_at: Timestamp::now() }
    }
}

/// Which sources a run may use.
#[derive(Debug, Clone)]
#[non_exhaustive]
pub struct CapabilityProfile {
    /// Tier 1 sources are always permitted.
    pub oa: AlwaysOn,
    /// Tier 2 metadata access.
    pub metadata: MetadataAccess,
    /// Tier 3 grant for Elsevier.
    pub tdm_elsevier: Option<TdmGrant>,
    /// Tier 3 grant for APS.
    pub tdm_aps: Option<TdmGrant>,
    /// Tier 3 grant for Springer.
    pub tdm_springer: Option<TdmGrant>,
    /// Rate limits of this process.
    pub rate_limits: RateLimits,
}

/// A misconfigured pair of agreement and key.
#[derive(Debug, PartialEq, Eq)]
pub enum CapabilityError {
    /// The user agreed but supplied no key.
    AgreedButNoKey {
        /// The agreement variable.
        agree_var: String,
        /// The key variable that should go with it.
        key_var: String,
    },
    /// A key is there but the user has not agreed.
    KeyButNotAgreed {
        /// The agreement variable that has to be `1`.
        agree_var: String,
    },
}

impl CapabilityError {
    /// The one-line text of the error.
    pub open spec fn spec_message(&self) -> Seq<char> {
        match *self {
            CapabilityError::AgreedButNoKey { agree_var, key_var } => "env "@ + agree_var@
                + " is set but "@ + key_var@ + " is missing"@,
            CapabilityError::KeyButNotAgreed { agree_var } => "key for "@ + agree_var@
                + " is present but "@ + agree_var@ + " is not set to '1'"@,
        }
    }

    /// Renders the error as one line.
    pub fn message(&self) -> (r: String)
        ensures
            r@ == self.spec_message(),
    {
        match self {
            CapabilityError::AgreedButNoKey { agree_var, key_var } => "env ".to_string().concat(
                agree_var.as_str(),
            ).concat(" is set but ").concat(key_var.as_str()).concat(" is missing"),
            CapabilityError::KeyButNotAgreed { agree_var } => "key for ".to_string().concat(
                agree_var.as_str(),
            ).concat(" is present but ").concat(agree_var.as_str()).concat(" is not set to '1'"),
        }
    }
}

/// What the environment says of one publisher.
#[derive(Debug, Clone)]
pub struct TdmEnv {
    /// Value of the agreement variable, where it is set to a Unicode text.
    pub agree: Option<String>,
    /// The key variable is set.
    pub key_set: bool,
}

/// What the environment says of all sources.
#[derive(Debug, Clone)]
pub struct CapabilityEnv {
    /// `DOIGET_ENABLE_OPENALEX` is set.
    pub openalex_set: bool,
    /// `DOIGET_ENABLE_S2` is set.
    pub semantic_scholar_set: bool,
    /// `DOIGET_ENABLE_DOAJ` is set.
    pub doaj_set: bool,
    /// `DOIGET_AGREE_TDM_ELSEVIER` and `DOIGET_KEY_ELSEVIER`.
    pub elsevier: TdmEnv,
    /// `DOIGET_AGREE_TDM_APS` and `DOIGET_KEY_APS`.
    pub aps: TdmEnv,
    /// `DOIGET_AGREE_TDM_SPRINGER` and `DOIGET_KEY_SPRINGER`.
    pub springer: TdmEnv,
}

/// Which optional sources the build holds.
#[derive(Debug, Clone, Copy)]
pub struct BuildFeatures {
    /// Tier 2 metadata sources.
    pub metadata: bool,
    /// The Elsevier source.
    pub tdm_elsevier: bool,
    /// The APS source.
    pub tdm_aps: bool,
    /// The Springer source.
    pub tdm_springer: bool,
}

/// The user agreed: the variable is exactly `1`.
pub open spec fn agreed(env: TdmEnv) -> bool {
    env.agree is Some && env.agree->Some_0@ == "1"@
}

/// The result that [`resolve_tdm_grant`] owes.
pub open spec fn grant_resolved(
    agree_var: Seq<char>,
    key_var: Seq<char>,
    env: TdmEnv,
    built: bool,
    now: Timestamp,
    r: Result<Option<TdmGrant>, CapabilityError>,
) -> bool {
    if agreed(env) && env.key_set {
        match r {
            Ok(Some(g)) => built && g.agree_env_var@ == agree_var && g.agreed_at == now,
            Ok(None) => !built,
            Err(_) => false,
        }
    } else if agreed(env) {
        r matches Err(CapabilityError::AgreedButNoKey { agree_var: a, key_var: k }) && a@
            == agree_var && k@ == key_var
    } else if env.key_set {
        r matches Err(CapabilityError::KeyButNotAgreed { agree_var: a }) && a@ == agree_var
    } else {
        r matches Ok(None)
    }
}

/// A Tier 2 source is available where its variable is set and the build holds
/// it.
pub fn resolve_metadata_flag(env_set: bool, built: bool) -> (r: bool)
    ensures
        r == (env_set && built),
{
    match (env_set, built) {
        (true, true) => true,
        (true, false) => false,
        (false, _) => false,
    }
}

/// Resolves the grant of one publisher from its two variables.
pub fn resolve_tdm_grant(
    agree_var: &str,
    key_var: &str,
    env: &TdmEnv,
    built: bool,
    now: Timestamp,
) -> (r: Result<Option<TdmGrant>, CapabilityError>)
    ensures
        grant_resolved(agree_var@, key_var@, *env, built, now, r),
{
    let has_agreed = match &env.agree {
        Some(a) => text::same(a.as_str(), "1"),
        None => false,
    };
    match (has_agreed, env.key_set) {
        (true, true) => if built {
            Ok(Some(TdmGrant { agree_env_var: agree_var.to_string(), agreed_at: now }))
        } else {
            Ok(None)
        },
        (true, false) => Err(
            CapabilityError::AgreedButNoKey {
                agree_var: agree_var.to_string(),
                key_var: key_var.to_string(),
            },
        ),
        (false, true) => Err(CapabilityError::KeyButNotAgreed { agree_var: agree_var.to_string() }),
        (false, false) => Ok(None),
    }
}

/// The pair of variables of a publisher contradict each other.
pub open spec fn misconfigured(env: TdmEnv) -> bool {
    agreed(env) != env.key_set
}

impl CapabilityProfile {
    /// Resolves the profile from what the environment says.
    ///
    /// The publishers are looked at in the order Elsevier, APS, Springer; the
    /// first contradiction is the error.
    pub fn from_env(env: &CapabilityEnv, built: &BuildFeatures, now: Timestamp) -> (r: Result<
        CapabilityProfile,
        CapabilityError,
    >)
        ensures
            r is Ok <==> !misconfigured(env.elsevier) && !misconfigured(env.aps) && !misconfigured(
                env.springer,
            ),
            r matches Ok(p) ==> {
                &&& p.metadata.openalex == (env.openalex_set && built.metadata)
                &&& p.metadata.semantic_scholar == (env.semantic_scholar_set && built.metadata)
                &&& p.metadata.doaj == (env.doaj_set && built.metadata)
                &&& grant_resolved(
                    "DOIGET_AGREE_TDM_ELSEVIER"@,
                    "DOIGET_KEY_ELSEVIER"@,
                    env.elsevier,
                    built.tdm_elsevier,
                    now,
                    Ok(p.tdm_elsevier),
                )
                &&& grant_resolved(
                    "DOIGET_AGREE_TDM_APS"@,
                    "DOIGET_KEY_APS"@,
                    env.aps,
                    built.tdm_aps,
                    now,
                    Ok(p.tdm_aps),
                )
                &&& grant_resolved(
                    "DOIGET_AGREE_TDM_SPRINGER"@,
                    "DOIGET_KEY_SPRINGER"@,
                    env.springer,
                    built.tdm_springer,
                    now,
                    Ok(p.tdm_springer),
                )
            },
            r matches Err(e) ==> if misconfigured(env.elsevier) {
                grant_resolved(
                    "DOIGET_AGREE_TDM_ELSEVIER"@,
                    "DOIGET_KEY_ELSEVIER"@,
                    env.elsevier,
                    built.tdm_elsevier,
                    now,
                    Err(e),
                )
            } else if misconfigured(env.aps) {
                grant_resolved(
                    "DOIGET_AGREE_TDM_APS"@,
                    "DOIGET_KEY_APS"@,
                    env.aps,
                    built.tdm_aps,
                    now,
                    Err(e),
                )
            } else {
                grant_resolved(
                    "DOIGET_AGREE_TDM_SPRINGER"@,
                    "DOIGET_KEY_SPRINGER"@,
                    env.springer,
                    built.tdm_springer,
                    now,
                    Err(e),
                )
            },
    {
        let metadata = MetadataAccess {
            openalex: resolve_metadata_flag(env.openalex_set, built.metadata),
            semantic_scholar: resolve_metadata_flag(env.semantic_scholar_set, built.metadata),
            doaj: resolve_metadata_flag(env.doaj_set, built.metadata),
        };
        let tdm_elsevier = match resolve_tdm_grant(
            "DOIGET_AGREE_TDM_ELSEVIER",
            "DOIGET_KEY_ELSEVIER",
            &env.elsevier,
            built.tdm_elsevier,
            now,
        ) {
            Ok(g) => g,
            Err(e) => return Err(e),
        };
        let tdm_aps = match resolve_tdm_grant(
            "DOIGET_AGREE_TDM_APS",
            "DOIGET_KEY_APS",
            &env.aps,
            built.tdm_aps,
            now,
        ) {
            Ok(g) => g,
            Err(e) => return Err(e),
        };
        let tdm_springer = match resolve_tdm_grant(
            "DOIGET_AGREE_TDM_SPRINGER",
            "DOIGET_KEY_SPRINGER",
            &env.springer,
            built.tdm_springer,
            now,
        ) {
            Ok(g) => g,
            Err(e) => return Err(e),
        };
        Ok(
            CapabilityProfile {
                oa: AlwaysOn,
                metadata,
                tdm_elsevier,
                tdm_aps,
                tdm_springer,
                rate_limits: RateLimits::hard_coded(),
            },
        )
    }
}

/// One setting, where it has no effect.
pub open spec fn idle(no_effect: bool, env_var: Seq<char>, feature: Seq<char>) -> Seq<
    (Seq<char>, Seq<char>),
> {
    if no_effect {
        seq![(env_var, feature)]
    } else {
        Seq::empty()
    }
}

/// The variables that ask for a source that the build does not hold, each with
/// the feature that is missing. A publisher is asked for by an agreement and a
/// key.
pub open spec fn idle_settings(env: CapabilityEnv, built: BuildFeatures) -> Seq<
    (Seq<char>, Seq<char>),
> {
    idle(env.openalex_set && !built.metadata, "DOIGET_ENABLE_OPENALEX"@, "metadata"@) + idle(
        env.semantic_scholar_set && !built.metadata,
        "DOIGET_ENABLE_S2"@,
        "metadata"@,
    ) + idle(env.doaj_set && !built.metadata, "DOIGET_ENABLE_DOAJ"@, "metadata"@) + idle(
        agreed(env.elsevier) && env.elsevier.key_set && !built.tdm_elsevier,
        "DOIGET_AGREE_TDM_ELSEVIER"@,
        "tdm-elsevier"@,
    ) + idle(
        agreed(env.aps) && env.aps.key_set && !built.tdm_aps,
        "DOIGET_AGREE_TDM_APS"@,
        "tdm-aps"@,
    ) + idle(
        agreed(env.springer) && env.springer.key_set && !built.tdm_springer,
        "DOIGET_AGREE_TDM_SPRINGER"@,
        "tdm-springer"@,
    )
}

/// What a list of settings holds.
pub open spec fn setting_views(v: Seq<(&'static str, &'static str)>) -> Seq<
    (Seq<char>, Seq<char>),
> {
    Seq::new(v.len(), |i: int| (v[i].0@, v[i].1@))
}

fn note_idle(
    out: &mut Vec<(&'static str, &'static str)>,
    no_effect: bool,
    env_var: &'static str,
    feature: &'static str,
)
    ensures
        setting_views(final(out)@) == setting_views(old(out)@) + idle(
            no_effect,
            env_var@,
            feature@,
        ),
{
    if no_effect {
        out.push((env_var, feature));
    }
    assert(setting_views(out@) =~= setting_views(old(out)@) + idle(no_effect, env_var@, feature@));
}

fn asks_for_publisher(env: &TdmEnv) -> (r: bool)
    ensures
        r == (agreed(*env) && env.key_set),
{
    match &env.agree {
        Some(a) => text::same(a.as_str(), "1") && env.key_set,
        None => false,
    }
}

/// The variables that ask for a source that the build does not hold, each with
/// the feature that is missing: worth a warning, and no error.
pub fn settings_without_build(env: &CapabilityEnv, built: &BuildFeatures) -> (r: Vec<
    (&'static str, &'static str),
>)
    ensures
        setting_views(r@) == idle_settings(*env, *built),
{
    let mut out: Vec<(&'static str, &'static str)> = Vec::new();
    assert(setting_views(out@) =~= Seq::<(Seq<char>, Seq<char>)>::empty());
    let lacks_metadata = !built.metadata;
    note_idle(
        &mut out,
        env.openalex_set && lacks_metadata,
        "DOIGET_ENABLE_OPENALEX",
        "metadata",
    );
    note_idle(
        &mut out,
        env.semantic_scholar_set && lacks_metadata,
        "DOIGET_ENABLE_S2",
        "metadata",
    );
    note_idle(&mut out, env.doaj_set && lacks_metadata, "DOIGET_ENABLE_DOAJ", "metadata");
    note_idle(
        &mut out,
        asks_for_publisher(&env.elsevier) && !built.tdm_elsevier,
        "DOIGET_AGREE_TDM_ELSEVIER",
        "tdm-elsevier",
    );
    note_idle(
        &mut out,
        asks_for_publisher(&env.aps) && !built.tdm_aps,
        "DOIGET_AGREE_TDM_APS",
        "tdm-aps",
    );
    note_idle(
        &mut out,
        asks_for_publisher(&env.springer) && !built.tdm_springer,
        "DOIGET_AGREE_TDM_SPRINGER",
        "tdm-springer",
    );
    assert(setting_views(out@) =~= idle_settings(*env, *built));
    out
}

/// A publisher's source is granted only where the build holds it, the user
/// agreed and supplied a key: none of the three stands in for another.
pub proof fn law_grants_need_agreement_key_and_build(
    agree_var: Seq<char>,
    key_var: Seq<char>,
    env: TdmEnv,
    built: bool,
    now: Timestamp,
    r: Result<Option<TdmGrant>, CapabilityError>,
)
    requires
        grant_resolved(agree_var, key_var, env, built, now, r),
    ensures
        (r is Ok && r->Ok_0 is Some) <==> (agreed(env) && env.key_set && built),
        r is Err <==> agreed(env) != env.key_set,
{
}

/// Without any variable the profile is that of the open-access tier alone,
/// whatever the build holds.
pub proof fn law_nothing_is_granted_by_default(
    agree_var: Seq<char>,
    key_var: Seq<char>,
    built: bool,
    now: Timestamp,
    r: Result<Option<TdmGrant>, CapabilityError>,
)
    requires
        grant_resolved(agree_var, key_var, TdmEnv { agree: None, key_set: false }, built, now, r),
    ensures
        r matches Ok(None),
{
}

/// A publisher is agreed to by the text `1` and by no other.
pub proof fn law_only_one_text_agrees(env: TdmEnv)
    ensures
        env.agree is None ==> !agreed(env),
        env.agree matches Some(s) ==> (agreed(env) <==> s@.len() == 1 && s@[0] == '1'),
{
    reveal_strlit("1");
    if let Some(s) = env.agree {
        if s@.len() == 1 && s@[0] == '1' {
            assert(s@ =~= "1"@);
        }
    }
}

/// A grant names the setting that was agreed to and when it was read; a half
/// configuration names what is missing.
pub proof fn law_grants_name_their_setting(
    agree_var: Seq<char>,
    key_var: Seq<char>,
    env: TdmEnv,
    built: bool,
    now: Timestamp,
    r: Result<Option<TdmGrant>, CapabilityError>,
)
    requires
        grant_resolved(agree_var, key_var, env, built, now, r),
    ensures
        r matches Ok(Some(g)) ==> g.agree_env_var@ == agree_var && g.agreed_at == now,
        r matches Err(CapabilityError::AgreedButNoKey { agree_var: a, key_var: k }) ==> a@
            == agree_var && k@ == key_var && !env.key_set,
        r matches Err(CapabilityError::KeyButNotAgreed { agree_var: a }) ==> a@ == agree_var
            && env.key_set,
{
}

proof fn lemma_idle(no_effect: bool, name: Seq<char>, feature: Seq<char>, p: (Seq<char>, Seq<char>))
    ensures
        idle(no_effect, name, feature).contains(p) <==> no_effect && p == (name, feature),
{
    if no_effect {
        assert(seq![(name, feature)][0] == (name, feature));
    }
}

proof fn lemma_added(
    a: Seq<(Seq<char>, Seq<char>)>,
    b: Seq<(Seq<char>, Seq<char>)>,
    p: (Seq<char>, Seq<char>),
)
    ensures
        (a + b).contains(p) <==> a.contains(p) || b.contains(p),
{
    if a.contains(p) {
        let i = choose|i: int| 0 <= i < a.len() && a[i] == p;
        assert((a + b)[i] == p);
    }
    if b.contains(p) {
        let i = choose|i: int| 0 <= i < b.len() && b[i] == p;
        assert((a + b)[a.len() + i] == p);
    }
    if (a + b).contains(p) {
        let i = choose|i: int| 0 <= i < (a + b).len() && (a + b)[i] == p;
        if i >= a.len() {
            assert(b[i - a.len()] == p);
        } else {
            assert(a[i] == p);
        }
    }
}

/// A setting is without effect where it is made and the build lacks its feature;
/// every such setting is told, and no other.
pub proof fn law_settings_without_effect_are_told(env: CapabilityEnv, built: BuildFeatures)
    ensures
        ({
            let told = idle_settings(env, built);
            &&& told.contains(("DOIGET_ENABLE_OPENALEX"@, "metadata"@)) <==> env.openalex_set
                && !built.metadata
            &&& told.contains(("DOIGET_ENABLE_S2"@, "metadata"@)) <==> env.semantic_scholar_set
                && !built.metadata
            &&& told.contains(("DOIGET_ENABLE_DOAJ"@, "metadata"@)) <==> env.doaj_set
                && !built.metadata
            &&& told.contains(("DOIGET_AGREE_TDM_ELSEVIER"@, "tdm-elsevier"@)) <==> agreed(
                env.elsevier,
            ) && env.elsevier.key_set && !built.tdm_elsevier
            &&& told.contains(("DOIGET_AGREE_TDM_APS"@, "tdm-aps"@)) <==> agreed(env.aps)
                && env.aps.key_set && !built.tdm_aps
            &&& told.contains(("DOIGET_AGREE_TDM_SPRINGER"@, "tdm-springer"@)) <==> agreed(
                env.springer,
            ) && env.springer.key_set && !built.tdm_springer
            &&& told.len() <= 6
        }),
{
    reveal_strlit("DOIGET_ENABLE_OPENALEX");
    reveal_strlit("DOIGET_ENABLE_S2");
    reveal_strlit("DOIGET_ENABLE_DOAJ");
    reveal_strlit("DOIGET_AGREE_TDM_ELSEVIER");
    reveal_strlit("DOIGET_AGREE_TDM_APS");
    reveal_strlit("DOIGET_AGREE_TDM_SPRINGER");
    let p1 = ("DOIGET_ENABLE_OPENALEX"@, "metadata"@);
    let p2 = ("DOIGET_ENABLE_S2"@, "metadata"@);
    let p3 = ("DOIGET_ENABLE_DOAJ"@, "metadata"@);
    let p4 = ("DOIGET_AGREE_TDM_ELSEVIER"@, "tdm-elsevier"@);
    let p5 = ("DOIGET_AGREE_TDM_APS"@, "tdm-aps"@);
    let p6 = ("DOIGET_AGREE_TDM_SPRINGER"@, "tdm-springer"@);
    assert(p1.0.len() == 22 && p2.0.len() == 16 && p3.0.len() == 18 && p4.0.len() == 25
        && p5.0.len() == 20 && p6.0.len() == 25);
    assert(p4.0[17] != p6.0[17]);
    lemma_six(env, built, p1);
    lemma_six(env, built, p2);
    lemma_six(env, built, p3);
    lemma_six(env, built, p4);
    lemma_six(env, built, p5);
    lemma_six(env, built, p6);
}

proof fn lemma_six(env: CapabilityEnv, built: BuildFeatures, p: (Seq<char>, Seq<char>))
    ensures
        idle_settings(env, built).contains(p) <==> {
            ||| env.openalex_set && !built.metadata && p == (
                "DOIGET_ENABLE_OPENALEX"@,
                "metadata"@,
            )
            ||| env.semantic_scholar_set && !built.metadata && p == (
                "DOIGET_ENABLE_S2"@,
                "metadata"@,
            )
            ||| env.doaj_set && !built.metadata && p == ("DOIGET_ENABLE_DOAJ"@, "metadata"@)
            ||| agreed(env.elsevier) && env.elsevier.key_set && !built.tdm_elsevier && p == (
                "DOIGET_AGREE_TDM_ELSEVIER"@,
                "tdm-elsevier"@,
            )
            ||| agreed(env.aps) && env.aps.key_set && !built.tdm_aps && p == (
                "DOIGET_AGREE_TDM_APS"@,
                "tdm-aps"@,
            )
            ||| agreed(env.springer) && env.springer.key_set && !built.tdm_springer && p == (
                "DOIGET_AGREE_TDM_SPRINGER"@,
                "tdm-springer"@,
            )
        },
{
    let a = idle(env.openalex_set && !built.metadata, "DOIGET_ENABLE_OPENALEX"@, "metadata"@);
    let b = idle(env.semantic_scholar_set && !built.metadata, "DOIGET_ENABLE_S2"@, "metadata"@);
    let c = idle(env.doaj_set && !built.metadata, "DOIGET_ENABLE_DOAJ"@, "metadata"@);
    let d = idle(
        agreed(env.elsevier) && env.elsevier.key_set && !built.tdm_elsevier,
        "DOIGET_AGREE_TDM_ELSEVIER"@,
        "tdm-elsevier"@,
    );
    let e = idle(
        agreed(env.aps) && env.aps.key_set && !built.tdm_aps,
        "DOIGET_AGREE_TDM_APS"@,
        "tdm-aps"@,
    );
    let f = idle(
        agreed(env.springer) && env.springer.key_set && !built.tdm_springer,
        "DOIGET_AGREE_TDM_SPRINGER"@,
        "tdm-springer"@,
    );
    lemma_added(a, b, p);
    lemma_added(a + b, c, p);
    lemma_added(a + b + c, d, p);
    lemma_added(a + b + c + d, e, p);
    lemma_added(a + b + c + d + e, f, p);
    lemma_idle(env.openalex_set && !built.metadata, "DOIGET_ENABLE_OPENALEX"@, "metadata"@, p);
    lemma_idle(env.semantic_scholar_set && !built.metadata, "DOIGET_ENABLE_S2"@, "metadata"@, p);
    lemma_idle(env.doaj_set && !built.metadata, "DOIGET_ENABLE_DOAJ"@, "metadata"@, p);
    lemma_idle(
        agreed(env.elsevier) && env.elsevier.key_set && !built.tdm_elsevier,
        "DOIGET_AGREE_TDM_ELSEVIER"@,
        "tdm-elsevier"@,
        p,
    );
    lemma_idle(
        agreed(env.aps) && env.aps.key_set && !built.tdm_aps,
        "DOIGET_AGREE_TDM_APS"@,
        "tdm-aps"@,
        p,
    );
    lemma_idle(
        agreed(env.springer) && env.springer.key_set && !built.tdm_springer,
        "DOIGET_AGREE_TDM_SPRINGER"@,
        "tdm-springer"@,
        p,
    );
}

} // verus!

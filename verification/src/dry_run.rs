//! What a fetch would do, told without doing it.

use crate::capability::RateLimits;
use crate::http::allowlist;
use crate::json;
use crate::json::Json;
use crate::json::JsonModel;
use crate::json::JsonNumber;
use crate::paths;
use crate::refs::Ref;
use crate::refs::RefModel;
use crate::safekey;
use crate::source::FetchError;
use crate::text;
use vstd::prelude::*;

verus! {

/// A source of the document, and the hosts that it may be fetched from. The
/// hosts are an upper bound: which of them a fetch would ask is not known
/// before it runs.
#[derive(Debug, Clone, PartialEq, Eq)]
pub struct PdfSourcePlan {
    /// Source key.
    pub key: String,
    /// Hosts that the source may be fetched from.
    pub candidate_hosts: Vec<String>,
}

/// The rate limits that a fetch would keep to.
#[derive(Debug, Clone, Copy, PartialEq, Eq)]
pub struct RateLimitBudget {
    /// Fetches per second over all sources.
    pub global_per_sec: u32,
    /// Smallest gap between two requests to one source, in milliseconds.
    pub per_source_min_gap_ms: u64,
}

/// What a fetch would do.
#[derive(Debug, Clone, PartialEq, Eq)]
pub struct FetchPlan {
    /// Metadata sources, in the order in which they are consulted.
    pub metadata_sources: Vec<String>,
    /// Sources of the document.
    pub pdf_sources: Vec<PdfSourcePlan>,
    /// Sources whose allowlists are loaded.
    pub redirect_allowlists_loaded: Vec<String>,
    /// Where the document would be stored.
    pub target_pdf_path: String,
    /// Where the metadata would be stored.
    pub target_metadata_path: String,
    /// Whether the fetch would add to the provenance log.
    pub would_append_provenance: bool,
    /// Whether the hosts are an upper bound.
    pub candidate_hosts_are_upper_bound: bool,
}

/// What a plan holds.
pub struct PlanModel {
    pub metadata_sources: Seq<Seq<char>>,
    pub pdf_sources: Seq<(Seq<char>, Seq<Seq<char>>)>,
    pub redirect_allowlists_loaded: Seq<Seq<char>>,
    pub target_pdf_path: Seq<char>,
    pub target_metadata_path: Seq<char>,
    pub would_append_provenance: bool,
    pub candidate_hosts_are_upper_bound: bool,
}

/// What a list of document sources holds.
pub open spec fn pdf_views(v: Seq<PdfSourcePlan>) -> Seq<(Seq<char>, Seq<Seq<char>>)> {
    Seq::new(v.len(), |i: int| (v[i].key@, text::views(v[i].candidate_hosts@)))
}

impl View for FetchPlan {
    type V = PlanModel;

    open spec fn view(&self) -> PlanModel {
        PlanModel {
            metadata_sources: text::views(self.metadata_sources@),
            pdf_sources: pdf_views(self.pdf_sources@),
            redirect_allowlists_loaded: text::views(self.redirect_allowlists_loaded@),
            target_pdf_path: self.target_pdf_path@,
            target_metadata_path: self.target_metadata_path@,
            would_append_provenance: self.would_append_provenance,
            candidate_hosts_are_upper_bound: self.candidate_hosts_are_upper_bound,
        }
    }
}

/// The rate limits, which nothing can change.
pub fn rate_limit_budget() -> (r: RateLimitBudget)
    ensures
        r == (RateLimitBudget { global_per_sec: 5, per_source_min_gap_ms: 200 }),
{
    let limits = RateLimits::hard_coded();
    RateLimitBudget {
        global_per_sec: limits.max_fetches_per_second(),
        per_source_min_gap_ms: limits.per_source_backoff_ms(),
    }
}

/// Where the document of a reference is stored.
pub open spec fn pdf_path(root: Seq<char>, key: Seq<char>) -> Seq<char> {
    paths::joined(root, key + ".pdf"@)
}

/// Where the metadata of a reference is stored.
pub open spec fn metadata_path(root: Seq<char>, key: Seq<char>) -> Seq<char> {
    paths::joined(paths::joined(root, ".metadata"@), key + ".toml"@)
}

/// Where the document of a reference is stored.
pub fn pdf_path_of(root: &str, key: &str) -> (r: String)
    ensures
        r@ == pdf_path(root@, key@),
{
    paths::join_path(root, key.to_string().concat(".pdf").as_str())
}

/// Where the metadata of a reference is stored.
pub fn metadata_path_of(root: &str, key: &str) -> (r: String)
    ensures
        r@ == metadata_path(root@, key@),
{
    paths::join_path(
        paths::join_path(root, ".metadata").as_str(),
        key.to_string().concat(".toml").as_str(),
    )
}

/// The plan for a reference: a DOI asks two metadata sources and may fetch
/// from the open-access hosts; an arXiv id goes to arXiv alone.
pub open spec fn plan_model(m: RefModel, root: Seq<char>) -> PlanModel {
    let key = safekey::key_of_text(safekey::raw_key(m));
    PlanModel {
        metadata_sources: match m {
            RefModel::Doi(_) => seq!["crossref"@, "unpaywall"@],
            RefModel::Arxiv(_) => Seq::empty(),
        },
        pdf_sources: match m {
            RefModel::Doi(_) => seq![("oa-publisher"@, allowlist::oa_publisher_model()[0].hosts)],
            RefModel::Arxiv(_) => seq![("arxiv"@, allowlist::tier_1_model()[2].hosts)],
        },
        redirect_allowlists_loaded: seq![
            "crossref"@,
            "unpaywall"@,
            "arxiv"@,
            "oa-publisher"@,
        ],
        target_pdf_path: pdf_path(root, key),
        target_metadata_path: metadata_path(root, key),
        would_append_provenance: true,
        candidate_hosts_are_upper_bound: true,
    }
}

proof fn lemma_listed_sources()
    ensures
        allowlist::hosts_for(allowlist::oa_publisher_model(), "oa-publisher"@) == Some(
            allowlist::oa_publisher_model()[0].hosts,
        ),
        allowlist::hosts_for(allowlist::tier_1_model(), "arxiv"@) == Some(
            allowlist::tier_1_model()[2].hosts,
        ),
{
    let t = allowlist::tier_1_model();
    reveal_strlit("crossref");
    reveal_strlit("unpaywall");
    reveal_strlit("arxiv");
    assert("crossref"@.len() != "arxiv"@.len());
    assert("unpaywall"@.len() != "arxiv"@.len());
    assert(t.drop_first()[0] == t[1]);
    assert(t.drop_first().drop_first()[0] == t[2]);
    reveal_with_fuel(allowlist::hosts_for, 4);
}

fn strings(a: &[&str]) -> (r: Vec<String>)
    ensures
        r@.len() == a@.len(),
        forall|i: int| 0 <= i < r@.len() ==> (#[trigger] r@[i])@ == a@[i]@,
{
    let mut out: Vec<String> = Vec::new();
    let mut i: usize = 0;
    while i < a.len()
        invariant
            i <= a.len(),
            out@.len() == i,
            forall|j: int| 0 <= j < i ==> (#[trigger] out@[j])@ == a@[j]@,
        decreases a.len() - i,
    {
        let s: &str = a[i];
        out.push(s.to_string());
        i += 1;
    }
    out
}

/// Plans the fetch of a reference; fails only where the built-in lists lack
/// the source, which they never do.
pub fn try_build_fetch_plan(ref_: &Ref, store_root: &str) -> (r: Result<FetchPlan, FetchError>)
    ensures
        r is Ok,
        r->Ok_0@ == plan_model(ref_@, store_root@),
{
    proof {
        lemma_listed_sources();
    }
    let key = ref_.safekey();
    let (metadata_sources, source, hosts) = match ref_ {
        Ref::Doi(_) => (
            strings(&["crossref", "unpaywall"]),
            "oa-publisher",
            allowlist::hosts_of(&allowlist::oa_publisher_allowlist(), "oa-publisher"),
        ),
        Ref::Arxiv(_) => (
            Vec::new(),
            "arxiv",
            allowlist::hosts_of(&allowlist::tier_1_allowlist(), "arxiv"),
        ),
    };
    let candidate_hosts = match hosts {
        Some(h) => h,
        None => return Err(
            FetchError::SourceSchema {
                hint: "no allowlist for source ".to_string().concat(source),
            },
        ),
    };
    let pdf_sources = vec![PdfSourcePlan { key: source.to_string(), candidate_hosts }];
    let plan = FetchPlan {
        metadata_sources,
        pdf_sources,
        redirect_allowlists_loaded: strings(&["crossref", "unpaywall", "arxiv", "oa-publisher"]),
        target_pdf_path: pdf_path_of(store_root, key.as_str()),
        target_metadata_path: metadata_path_of(store_root, key.as_str()),
        would_append_provenance: true,
        candidate_hosts_are_upper_bound: true,
    };
    proof {
        let m = plan_model(ref_@, store_root@);
        assert(plan@.metadata_sources =~= m.metadata_sources);
        assert(plan@.pdf_sources =~= m.pdf_sources);
        assert(plan@.redirect_allowlists_loaded =~= m.redirect_allowlists_loaded);
    }
    Ok(plan)
}

/// Plans the fetch of a reference.
pub fn build_fetch_plan(ref_: &Ref, store_root: &str) -> (r: FetchPlan)
    ensures
        r@ == plan_model(ref_@, store_root@),
{
    let r = try_build_fetch_plan(ref_, store_root);
    r.unwrap()
}

/// The bits of the double 5.0.
pub const FIVE_BITS: u64 = 0x4014_0000_0000_0000;

/// A plan as JSON.
pub open spec fn plan_json(p: PlanModel) -> JsonModel {
    JsonModel::Object(
        seq![
            ("metadata_sources"@, json::texts_model(p.metadata_sources)),
            (
                "pdf_sources"@,
                JsonModel::Array(
                    Seq::new(
                        p.pdf_sources.len(),
                        |i: int|
                            JsonModel::Object(
                                seq![
                                    ("key"@, JsonModel::Text(p.pdf_sources[i].0)),
                                    ("candidate_hosts"@, json::texts_model(p.pdf_sources[i].1)),
                                ],
                            ),
                    ),
                ),
            ),
            ("redirect_allowlists_loaded"@, json::texts_model(p.redirect_allowlists_loaded)),
            ("target_pdf_path"@, JsonModel::Text(p.target_pdf_path)),
            ("target_metadata_path"@, JsonModel::Text(p.target_metadata_path)),
            ("would_append_provenance"@, JsonModel::Bool(p.would_append_provenance)),
            (
                "candidate_hosts_are_upper_bound"@,
                JsonModel::Bool(p.candidate_hosts_are_upper_bound),
            ),
        ],
    )
}

/// A reference as an object of one member, named after its kind.
pub open spec fn ref_json(m: RefModel) -> JsonModel {
    match m {
        RefModel::Doi(d) => JsonModel::Object(seq![("doi"@, JsonModel::Text(d))]),
        RefModel::Arxiv(a) => JsonModel::Object(seq![("arxiv"@, JsonModel::Text(a))]),
    }
}

/// A preview as JSON.
pub open spec fn envelope_json(m: RefModel, p: PlanModel) -> JsonModel {
    JsonModel::Object(
        seq![
            ("ok"@, JsonModel::Bool(true)),
            ("dry_run"@, JsonModel::Bool(true)),
            ("ref"@, ref_json(m)),
            ("plan"@, plan_json(p)),
            (
                "rate_limit_budget"@,
                JsonModel::Object(
                    seq![
                        ("global_per_sec"@, JsonModel::Number(JsonNumber::Double(FIVE_BITS))),
                        (
                            "per_source_min_gap_ms"@,
                            JsonModel::Number(JsonNumber::Unsigned(200)),
                        ),
                    ],
                ),
            ),
        ],
    )
}

fn plan_to_json(plan: &FetchPlan) -> (r: Json)
    ensures
        r@ == plan_json(plan@),
{
    let mut sources: Vec<Json> = Vec::new();
    let mut i: usize = 0;
    while i < plan.pdf_sources.len()
        invariant
            i <= plan.pdf_sources.len(),
            sources@.len() == i,
            forall|j: int|
                0 <= j < i ==> (#[trigger] sources@[j])@ == JsonModel::Object(
                    seq![
                        ("key"@, JsonModel::Text(plan.pdf_sources@[j].key@)),
                        (
                            "candidate_hosts"@,
                            json::texts_model(text::views(plan.pdf_sources@[j].candidate_hosts@)),
                        ),
                    ],
                ),
        decreases plan.pdf_sources.len() - i,
    {
        let mut m: Vec<(String, Json)> = Vec::new();
        json::put(&mut m, "key", json::text_value(plan.pdf_sources[i].key.as_str()));
        json::put(
            &mut m,
            "candidate_hosts",
            json::texts_value(&plan.pdf_sources[i].candidate_hosts),
        );
        let o = json::object(m);
        assert(o@->Object_0 =~= seq![
            ("key"@, JsonModel::Text(plan.pdf_sources@[i as int].key@)),
            (
                "candidate_hosts"@,
                json::texts_model(text::views(plan.pdf_sources@[i as int].candidate_hosts@)),
            ),
        ]);
        sources.push(o);
        i += 1;
    }
    let mut m: Vec<(String, Json)> = Vec::new();
    json::put(&mut m, "metadata_sources", json::texts_value(&plan.metadata_sources));
    let listed = json::array(sources);
    assert(listed@ == plan_json(plan@)->Object_0[1].1) by {
        assert(listed@->Array_0 =~= plan_json(plan@)->Object_0[1].1->Array_0);
    }
    json::put(&mut m, "pdf_sources", listed);
    json::put(
        &mut m,
        "redirect_allowlists_loaded",
        json::texts_value(&plan.redirect_allowlists_loaded),
    );
    json::put(&mut m, "target_pdf_path", json::text_value(plan.target_pdf_path.as_str()));
    json::put(&mut m, "target_metadata_path", json::text_value(plan.target_metadata_path.as_str()));
    json::put(&mut m, "would_append_provenance", Json::Bool(plan.would_append_provenance));
    json::put(
        &mut m,
        "candidate_hosts_are_upper_bound",
        Json::Bool(plan.candidate_hosts_are_upper_bound),
    );
    assert(json::members_model(m@) =~= plan_json(plan@)->Object_0);
    json::object(m)
}

fn ref_kind_object(ref_: &Ref) -> (r: Json)
    ensures
        r@ == ref_json(ref_@),
{
    let mut m: Vec<(String, Json)> = Vec::new();
    match ref_ {
        Ref::Doi(d) => {
            json::put(&mut m, "doi", json::text_value(d.as_str()));
        },
        Ref::Arxiv(a) => {
            json::put(&mut m, "arxiv", json::text_value(a.as_str()));
        },
    }
    assert(json::members_model(m@) =~= ref_json(ref_@)->Object_0);
    json::object(m)
}

/// The preview of a fetch as JSON.
pub fn build_dry_run_envelope(ref_: &Ref, plan: &FetchPlan) -> (r: Json)
    ensures
        r@ == envelope_json(ref_@, plan@),
{
    let budget = rate_limit_budget();
    let mut b: Vec<(String, Json)> = Vec::new();
    json::put(&mut b, "global_per_sec", Json::Number(JsonNumber::Double(FIVE_BITS)));
    json::put(
        &mut b,
        "per_source_min_gap_ms",
        Json::Number(JsonNumber::Unsigned(budget.per_source_min_gap_ms)),
    );
    assert(json::members_model(b@) =~= envelope_json(ref_@, plan@)->Object_0[4].1->Object_0);
    let mut m: Vec<(String, Json)> = Vec::new();
    json::put(&mut m, "ok", Json::Bool(true));
    json::put(&mut m, "dry_run", Json::Bool(true));
    json::put(&mut m, "ref", ref_kind_object(ref_));
    json::put(&mut m, "plan", plan_to_json(plan));
    json::put(&mut m, "rate_limit_budget", json::object(b));
    assert(json::members_model(m@) =~= envelope_json(ref_@, plan@)->Object_0);
    json::object(m)
}

/// A plan names where the document and its metadata would go: below the root,
/// under the key of the reference.
pub proof fn law_plans_name_their_targets(m: RefModel, root: Seq<char>)
    requires
        root.len() > 0,
        root.last() != '/',
    ensures
        plan_model(m, root).target_pdf_path == root + "/"@ + (safekey::key_of_text(
            safekey::raw_key(m),
        ) + ".pdf"@),
        plan_model(m, root).target_metadata_path == root + "/.metadata/"@ + (safekey::key_of_text(
            safekey::raw_key(m),
        ) + ".toml"@),
{
    reveal_strlit("/");
    reveal_strlit(".metadata");
    reveal_strlit("/.metadata/");
    let key = safekey::key_of_text(safekey::raw_key(m));
    paths::law_children_lie_below_their_directory(root, key + ".pdf"@);
    paths::law_children_lie_below_their_directory(root, ".metadata"@);
    let dir = root + "/"@ + ".metadata"@;
    assert(dir.last() == 'a');
    paths::law_children_lie_below_their_directory(dir, key + ".toml"@);
    assert("/"@ + ".metadata"@ + "/"@ =~= "/.metadata/"@);
    assert(dir + "/"@ + (key + ".toml"@) =~= root + "/.metadata/"@ + (key + ".toml"@));
}

/// A plan for a DOI asks Crossref and then Unpaywall, and fetches from the hosts
/// of open copies; one for an arXiv identifier asks nobody, and fetches from
/// arXiv. Every plan writes to the log and may name more hosts than are asked.
pub proof fn law_plans_name_their_sources(s: Seq<char>, root: Seq<char>)
    ensures
        ({
            let p = plan_model(RefModel::Doi(s), root);
            &&& p.metadata_sources == seq!["crossref"@, "unpaywall"@]
            &&& p.pdf_sources == seq![("oa-publisher"@, allowlist::oa_publisher_model()[0].hosts)]
            &&& p.redirect_allowlists_loaded == seq![
                "crossref"@,
                "unpaywall"@,
                "arxiv"@,
                "oa-publisher"@,
            ]
            &&& p.would_append_provenance && p.candidate_hosts_are_upper_bound
        }),
        ({
            let p = plan_model(RefModel::Arxiv(s), root);
            &&& p.metadata_sources.len() == 0
            &&& p.pdf_sources == seq![("arxiv"@, allowlist::tier_1_model()[2].hosts)]
            &&& p.redirect_allowlists_loaded == seq![
                "crossref"@,
                "unpaywall"@,
                "arxiv"@,
                "oa-publisher"@,
            ]
            &&& p.would_append_provenance && p.candidate_hosts_are_upper_bound
        }),
{
}

/// What is shown of a plan is the plan: every member has its name and its value.
pub proof fn law_plans_are_shown_in_full(p: PlanModel)
    ensures
        plan_json(p) matches JsonModel::Object(m) && {
            &&& m.len() == 7
            &&& m[0] == ("metadata_sources"@, json::texts_model(p.metadata_sources))
            &&& m[1].0 == "pdf_sources"@ && (m[1].1 matches JsonModel::Array(v) && v.len()
                == p.pdf_sources.len() && forall|i: int|
                0 <= i < v.len() ==> #[trigger] v[i] == JsonModel::Object(
                    seq![
                        ("key"@, JsonModel::Text(p.pdf_sources[i].0)),
                        ("candidate_hosts"@, json::texts_model(p.pdf_sources[i].1)),
                    ],
                ))
            &&& m[2] == (
                "redirect_allowlists_loaded"@,
                json::texts_model(p.redirect_allowlists_loaded),
            )
            &&& m[3] == ("target_pdf_path"@, JsonModel::Text(p.target_pdf_path))
            &&& m[4] == ("target_metadata_path"@, JsonModel::Text(p.target_metadata_path))
            &&& m[5] == ("would_append_provenance"@, JsonModel::Bool(p.would_append_provenance))
            &&& m[6] == (
                "candidate_hosts_are_upper_bound"@,
                JsonModel::Bool(p.candidate_hosts_are_upper_bound),
            )
        },
{
}

/// The answer to a dry run says that it is one, for which reference, and what
/// the plan is.
pub proof fn law_dry_runs_say_so(m: RefModel, p: PlanModel)
    ensures
        envelope_json(m, p) matches JsonModel::Object(e) && {
            &&& e.len() == 5
            &&& e[0] == ("ok"@, JsonModel::Bool(true))
            &&& e[1] == ("dry_run"@, JsonModel::Bool(true))
            &&& e[2].0 == "ref"@
            &&& m matches RefModel::Doi(d) ==> e[2].1 == JsonModel::Object(
                seq![("doi"@, JsonModel::Text(d))],
            )
            &&& m matches RefModel::Arxiv(a) ==> e[2].1 == JsonModel::Object(
                seq![("arxiv"@, JsonModel::Text(a))],
            )
            &&& e[3] == ("plan"@, plan_json(p))
        },
{
}

} // verus!

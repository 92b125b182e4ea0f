//! Per-source host allowlists.

use crate::text;
use vstd::prelude::*;

verus! {

/// The hosts that requests of one source may be redirected to.
#[derive(Debug, Clone, PartialEq, Eq)]
#[non_exhaustive]
pub struct SourceAllowlist {
    /// Source key, such as `crossref`.
    pub source: String,
    /// Literal host names, or `*.<suffix>` globs that match the suffix itself
    /// and every subdomain of it.
    pub redirect_hosts: Vec<String>,
}

/// What an allowlist holds.
pub struct AllowModel {
    pub source: Seq<char>,
    pub hosts: Seq<Seq<char>>,
}

impl View for SourceAllowlist {
    type V = AllowModel;

    open spec fn view(&self) -> AllowModel {
        AllowModel { source: self.source@, hosts: text::views(self.redirect_hosts@) }
    }
}

/// `host`, in lower case, matches `pattern`.
pub open spec fn host_matches(host: Seq<char>, pattern: Seq<char>) -> bool {
    let p = text::lower(pattern);
    if "*."@.is_prefix_of(p) {
        host == p.skip(2) || ("."@ + p.skip(2)).is_suffix_of(host)
    } else {
        host == p
    }
}

/// `host`, in any case, matches one of the patterns.
pub open spec fn allowed(host: Seq<char>, hosts: Seq<Seq<char>>) -> bool {
    exists|i: int| 0 <= i < hosts.len() && host_matches(text::lower(host), #[trigger] hosts[i])
}

/// Whether `host`, which is in lower case, matches `pattern`.
pub fn host_matches_pattern(host: &str, pattern: &str) -> (r: bool)
    ensures
        r == host_matches(host@, pattern@),
{
    proof {
        reveal_strlit("*.");
        reveal_strlit(".");
    }
    let p = text::lower_chars(text::chars_of(pattern).as_slice());
    let h = text::chars_of(host);
    let glob = text::chars_of("*.");
    if text::starts_with(p.as_slice(), glob.as_slice()) {
        let suffix = vstd::slice::slice_subrange(p.as_slice(), 2, p.len());
        assert(suffix@ =~= p@.skip(2));
        let dotted = vstd::slice::slice_subrange(p.as_slice(), 1, p.len());
        assert(p@[1] == '.') by {
            assert(p@.subrange(0, 2)[1] == '.');
        }
        assert(dotted@ =~= "."@ + p@.skip(2));
        text::same_chars(h.as_slice(), suffix) || text::ends_with(h.as_slice(), dotted)
    } else {
        text::same_chars(h.as_slice(), p.as_slice())
    }
}

impl SourceAllowlist {
    /// Makes an allowlist.
    pub fn new(source: &str, redirect_hosts: Vec<String>) -> (r: SourceAllowlist)
        ensures
            r.source@ == source@,
            r.redirect_hosts == redirect_hosts,
    {
        SourceAllowlist { source: source.to_string(), redirect_hosts }
    }

    /// Whether a host, in any case, matches one of the patterns.
    pub fn matches(&self, host: &str) -> (r: bool)
        ensures
            r == allowed(host@, self@.hosts),
    {
        let low = text::lower_of(host);
        let mut i: usize = 0;
        while i < self.redirect_hosts.len()
            invariant
                i <= self.redirect_hosts.len(),
                low@ == text::lower(host@),
                forall|j: int| 0 <= j < i ==> !host_matches(low@, #[trigger] self@.hosts[j]),
            decreases self.redirect_hosts.len() - i,
        {
            if host_matches_pattern(low.as_str(), self.redirect_hosts[i].as_str()) {
                assert(host_matches(text::lower(host@), self@.hosts[i as int]));
                return true;
            }
            assert(self@.hosts[i as int] == self.redirect_hosts@[i as int]@);
            i += 1;
        }
        false
    }

    /// A copy of this allowlist.
    pub fn copy(&self) -> (r: SourceAllowlist)
        ensures
            r@ == self@,
    {
        SourceAllowlist {
            source: self.source.clone(),
            redirect_hosts: text::copy_strings(&self.redirect_hosts),
        }
    }
}

/// The hosts of the first list of that source.
pub open spec fn hosts_for(lists: Seq<AllowModel>, source: Seq<char>) -> Option<Seq<Seq<char>>>
    decreases lists.len(),
{
    if lists.len() == 0 {
        None
    } else if lists[0].source == source {
        Some(lists[0].hosts)
    } else {
        hosts_for(lists.drop_first(), source)
    }
}

/// The hosts of the first list of that source.
pub fn hosts_of(lists: &Vec<SourceAllowlist>, source: &str) -> (r: Option<Vec<String>>)
    ensures
        match hosts_for(models(lists@), source@) {
            Some(h) => r is Some && text::views(r->Some_0@) == h,
            None => r is None,
        },
{
    let ghost all = models(lists@);
    assert(all.skip(0) =~= all);
    let mut i: usize = 0;
    while i < lists.len()
        invariant
            i <= lists.len(),
            all == models(lists@),
            hosts_for(all, source@) == hosts_for(all.skip(i as int), source@),
        decreases lists.len() - i,
    {
        assert(all.skip(i as int)[0] == lists@[i as int]@);
        assert(all.skip(i as int).drop_first() =~= all.skip(i + 1));
        if text::same(lists[i].source.as_str(), source) {
            return Some(text::copy_strings(&lists[i].redirect_hosts));
        }
        i += 1;
    }
    None
}

// ---------------------------------------------------------------------------
// The built-in lists
// ---------------------------------------------------------------------------

/// What a list of allowlists holds.
pub open spec fn models(v: Seq<SourceAllowlist>) -> Seq<AllowModel> {
    Seq::new(v.len(), |i: int| v[i]@)
}

spec fn str_views(v: Seq<&str>) -> Seq<Seq<char>> {
    Seq::new(v.len(), |i: int| v[i]@)
}

fn entry(source: &str, hosts: &[&str]) -> (r: SourceAllowlist)
    ensures
        r@.source == source@,
        r@.hosts == str_views(hosts@),
{
    let mut out: Vec<String> = Vec::new();
    let mut i: usize = 0;
    while i < hosts.len()
        invariant
            i <= hosts.len(),
            out@.len() == i,
            forall|j: int| 0 <= j < i ==> (#[trigger] out@[j])@ == hosts@[j]@,
        decreases hosts.len() - i,
    {
        let host: &str = hosts[i];
        out.push(host.to_string());
        i += 1;
    }
    let r = SourceAllowlist::new(source, out);
    assert(r@.hosts =~= str_views(hosts@));
    r
}

/// The Tier 1 sources.
pub open spec fn tier_1_model() -> Seq<AllowModel> {
    seq![
        AllowModel { source: "crossref"@, hosts: seq!["api.crossref.org"@, "*.crossref.org"@] },
        AllowModel { source: "unpaywall"@, hosts: seq!["api.unpaywall.org"@] },
        AllowModel { source: "arxiv"@, hosts: seq!["arxiv.org"@, "export.arxiv.org"@, "*.arxiv.org"@] },
    ]
}

/// Allowlists of the Tier 1 sources.
pub fn tier_1_allowlist() -> (r: Vec<SourceAllowlist>)
    ensures
        models(r@) == tier_1_model(),
{
    let r = vec![
        entry("crossref", &["api.crossref.org", "*.crossref.org"]),
        entry("unpaywall", &["api.unpaywall.org"]),
        entry("arxiv", &["arxiv.org", "export.arxiv.org", "*.arxiv.org"]),
    ];
    proof {
        let m = tier_1_model();
        assert(r@[0]@.hosts =~= m[0].hosts);
        assert(r@[1]@.hosts =~= m[1].hosts);
        assert(r@[2]@.hosts =~= m[2].hosts);
        assert(models(r@) =~= m);
    }
    r
}

/// The Tier 2 metadata sources.
pub open spec fn tier_2_model() -> Seq<AllowModel> {
    seq![
        AllowModel { source: "openalex"@, hosts: seq!["api.openalex.org"@] },
        AllowModel { source: "semantic_scholar"@, hosts: seq!["api.semanticscholar.org"@] },
        AllowModel { source: "doaj"@, hosts: seq!["doaj.org"@, "*.doaj.org"@] },
    ]
}

/// Allowlists of the Tier 2 metadata sources.
pub fn tier_2_allowlist() -> (r: Vec<SourceAllowlist>)
    ensures
        models(r@) == tier_2_model(),
{
    let r = vec![
        entry("openalex", &["api.openalex.org"]),
        entry("semantic_scholar", &["api.semanticscholar.org"]),
        entry("doaj", &["doaj.org", "*.doaj.org"]),
    ];
    proof {
        let m = tier_2_model();
        assert(r@[0]@.hosts =~= m[0].hosts);
        assert(r@[1]@.hosts =~= m[1].hosts);
        assert(r@[2]@.hosts =~= m[2].hosts);
        assert(models(r@) =~= m);
    }
    r
}

/// The discovery search, which every build holds.
pub open spec fn discovery_model() -> Seq<AllowModel> {
    seq![
        AllowModel { source: "openalex"@, hosts: seq!["api.openalex.org"@] },
    ]
}

/// Allowlists of the discovery search, which every build holds.
pub fn discovery_allowlist() -> (r: Vec<SourceAllowlist>)
    ensures
        models(r@) == discovery_model(),
{
    let r = vec![
        entry("openalex", &["api.openalex.org"]),
    ];
    proof {
        let m = discovery_model();
        assert(r@[0]@.hosts =~= m[0].hosts);
        assert(models(r@) =~= m);
    }
    r
}

/// The full-text renderer, under a key of its own.
pub open spec fn fulltext_model() -> Seq<AllowModel> {
    seq![
        AllowModel { source: "ar5iv"@, hosts: seq!["ar5iv.labs.arxiv.org"@] },
    ]
}

/// Allowlists of the full-text renderer, under a key of its own.
pub fn fulltext_allowlist() -> (r: Vec<SourceAllowlist>)
    ensures
        models(r@) == fulltext_model(),
{
    let r = vec![
        entry("ar5iv", &["ar5iv.labs.arxiv.org"]),
    ];
    proof {
        let m = fulltext_model();
        assert(r@[0]@.hosts =~= m[0].hosts);
        assert(models(r@) =~= m);
    }
    r
}

/// The Springer Nature text-mining source.
pub open spec fn tier_3_springer_model() -> Seq<AllowModel> {
    seq![
        AllowModel { source: "tdm-springer"@, hosts: seq!["api.springernature.com"@, "*.springernature.com"@] },
    ]
}

/// Allowlists of the Springer Nature text-mining source.
pub fn tier_3_springer_allowlist() -> (r: Vec<SourceAllowlist>)
    ensures
        models(r@) == tier_3_springer_model(),
{
    let r = vec![
        entry("tdm-springer", &["api.springernature.com", "*.springernature.com"]),
    ];
    proof {
        let m = tier_3_springer_model();
        assert(r@[0]@.hosts =~= m[0].hosts);
        assert(models(r@) =~= m);
    }
    r
}

/// The APS text-mining source.
pub open spec fn tier_3_aps_model() -> Seq<AllowModel> {
    seq![
        AllowModel { source: "tdm-aps"@, hosts: seq!["harvest.aps.org"@, "*.aps.org"@] },
    ]
}

/// Allowlists of the APS text-mining source.
pub fn tier_3_aps_allowlist() -> (r: Vec<SourceAllowlist>)
    ensures
        models(r@) == tier_3_aps_model(),
{
    let r = vec![
        entry("tdm-aps", &["harvest.aps.org", "*.aps.org"]),
    ];
    proof {
        let m = tier_3_aps_model();
        assert(r@[0]@.hosts =~= m[0].hosts);
        assert(models(r@) =~= m);
    }
    r
}

/// The Elsevier text-mining source.
pub open spec fn tier_3_elsevier_model() -> Seq<AllowModel> {
    seq![
        AllowModel { source: "tdm-elsevier"@, hosts: seq!["api.elsevier.com"@, "*.elsevier.com"@] },
    ]
}

/// Allowlists of the Elsevier text-mining source.
pub fn tier_3_elsevier_allowlist() -> (r: Vec<SourceAllowlist>)
    ensures
        models(r@) == tier_3_elsevier_model(),
{
    let r = vec![
        entry("tdm-elsevier", &["api.elsevier.com", "*.elsevier.com"]),
    ];
    proof {
        let m = tier_3_elsevier_model();
        assert(r@[0]@.hosts =~= m[0].hosts);
        assert(models(r@) =~= m);
    }
    r
}

/// The publisher, preprint and repository hosts of open-access copies.
pub open spec fn oa_publisher_model() -> Seq<AllowModel> {
    seq![
        AllowModel {
            source: "oa-publisher"@,
            hosts: seq![
                "*.springer.com"@,
                "*.springeropen.com"@,
                "*.springernature.com"@,
                "*.nature.com"@,
                "*.wiley.com"@,
                "*.elsevier.com"@,
                "*.sciencedirect.com"@,
                "*.frontiersin.org"@,
                "*.mdpi.com"@,
                "*.plos.org"@,
                "*.biorxiv.org"@,
                "*.medrxiv.org"@,
                "europepmc.org"@,
                "*.europepmc.org"@,
                "*.nih.gov"@,
                "*.ncbi.nlm.nih.gov"@,
                "*.aps.org"@,
                "scipost.org"@,
                "*.scipost.org"@,
                "*.iop.org"@,
                "arxiv.org"@,
                "*.arxiv.org"@,
            ],
        },
    ]
}

/// Allowlists of the publisher, preprint and repository hosts of open-access copies.
pub fn oa_publisher_allowlist() -> (r: Vec<SourceAllowlist>)
    ensures
        models(r@) == oa_publisher_model(),
{
    let r = vec![
        entry(
            "oa-publisher",
            &[
                "*.springer.com",
                "*.springeropen.com",
                "*.springernature.com",
                "*.nature.com",
                "*.wiley.com",
                "*.elsevier.com",
                "*.sciencedirect.com",
                "*.frontiersin.org",
                "*.mdpi.com",
                "*.plos.org",
                "*.biorxiv.org",
                "*.medrxiv.org",
                "europepmc.org",
                "*.europepmc.org",
                "*.nih.gov",
                "*.ncbi.nlm.nih.gov",
                "*.aps.org",
                "scipost.org",
                "*.scipost.org",
                "*.iop.org",
                "arxiv.org",
                "*.arxiv.org",
            ],
        ),
    ];
    proof {
        let m = oa_publisher_model();
        assert(r@[0]@.hosts =~= m[0].hosts);
        assert(models(r@) =~= m);
    }
    r
}

// ---------------------------------------------------------------------------
// Laws
// ---------------------------------------------------------------------------

/// A glob matches the suffix itself and hosts that end in a dot and the
/// suffix, and no other: it never cuts a label in two.
pub proof fn law_globs_respect_labels(host: Seq<char>, suffix: Seq<char>)
    ensures
        host_matches(host, "*."@ + suffix) <==> host == text::lower(suffix) || exists|sub: Seq<char>|
            host == #[trigger] (sub + "."@) + text::lower(suffix),
{
    reveal_strlit("*.");
    reveal_strlit(".");
    let p = text::lower("*."@ + suffix);
    let low = text::lower(suffix);
    assert(p.subrange(0, 2) =~= "*."@);
    assert(p.skip(2) =~= low);
    let dotted = "."@ + low;
    if dotted.is_suffix_of(host) {
        let k = host.len() - dotted.len();
        let sub = host.take(k);
        let whole = (sub + "."@) + low;
        assert forall|i: int| 0 <= i < host.len() implies host[i] == whole[i] by {
            if i >= k {
                assert(host.subrange(k, host.len() as int)[i - k] == dotted[i - k]);
            }
        }
        assert(host =~= whole);
    }
    if exists|sub: Seq<char>| host == #[trigger] (sub + "."@) + low {
        let sub = choose|sub: Seq<char>| host == #[trigger] (sub + "."@) + low;
        assert(host.subrange(host.len() - dotted.len(), host.len() as int) =~= dotted);
    }
}

/// Matching looks past the case of the host.
pub proof fn law_matching_ignores_case(host: Seq<char>, hosts: Seq<Seq<char>>)
    ensures
        allowed(text::lower(host), hosts) == allowed(host, hosts),
{
    text::lemma_lower_idempotent(host);
}

/// An allowlist without patterns lets no host through.
pub proof fn law_empty_list_allows_nothing(host: Seq<char>)
    ensures
        !allowed(host, Seq::empty()),
{
}

/// A pattern without a glob is the one host that it names, in any case.
pub proof fn law_plain_patterns_name_one_host(host: Seq<char>, pattern: Seq<char>)
    requires
        pattern.len() < 2 || pattern[0] != '*' || pattern[1] != '.',
    ensures
        host_matches(host, pattern) <==> host == text::lower(pattern),
{
    reveal_strlit("*.");
    let p = text::lower(pattern);
    text::law_lower_case_changes_capitals_only(pattern);
    if "*."@.is_prefix_of(p) {
        assert(p.subrange(0, 2)[0] == '*' && p.subrange(0, 2)[1] == '.');
        assert(p[0] == '*' && p[1] == '.');
        assert(pattern[0] == '*' && pattern[1] == '.') by {
            assert(text::lower(pattern)[0] == p[0]);
            assert(text::lower(pattern)[1] == p[1]);
        }
    }
}

/// Every host of a list counts.
pub proof fn law_every_listed_host_counts(
    host: Seq<char>,
    a: Seq<Seq<char>>,
    pattern: Seq<char>,
    b: Seq<Seq<char>>,
)
    ensures
        allowed(host, a + b) <==> allowed(host, a) || allowed(host, b),
        allowed(host, seq![pattern]) <==> host_matches(text::lower(host), pattern),
{
    let low = text::lower(host);
    if allowed(host, a) {
        let i = choose|i: int| 0 <= i < a.len() && host_matches(low, #[trigger] a[i]);
        assert((a + b)[i] == a[i]);
    }
    if allowed(host, b) {
        let i = choose|i: int| 0 <= i < b.len() && host_matches(low, #[trigger] b[i]);
        assert((a + b)[a.len() + i] == b[i]);
    }
    if allowed(host, a + b) {
        let i = choose|i: int| 0 <= i < (a + b).len() && host_matches(low, #[trigger] (a + b)[i]);
        if i < a.len() {
            assert(a[i] == (a + b)[i]);
        } else {
            assert(b[i - a.len()] == (a + b)[i]);
        }
    }
    assert(seq![pattern][0] == pattern);
}

/// A source has the hosts of its first entry, and none where it has no entry.
pub proof fn law_the_first_entry_counts(a: Seq<AllowModel>, m: AllowModel, b: Seq<AllowModel>)
    requires
        forall|i: int| 0 <= i < a.len() ==> (#[trigger] a[i]).source != m.source,
    ensures
        hosts_for(a.push(m) + b, m.source) == Some(m.hosts),
        hosts_for(a, m.source) is None,
    decreases a.len(),
{
    let all = a.push(m) + b;
    if a.len() == 0 {
        assert(all[0] == m);
    } else {
        let d = a.drop_first();
        assert forall|i: int| 0 <= i < d.len() implies (#[trigger] d[i]).source != m.source by {
            assert(d[i] == a[i + 1]);
        }
        law_the_first_entry_counts(d, m, b);
        assert(all[0] == a[0]);
        assert(a[0].source != m.source);
        assert(all.drop_first() =~= d.push(m) + b);
    }
}

/// An open copy may come from twenty-two kinds of host, and from no other.
pub proof fn law_open_copies_come_from_known_hosts(host: Seq<char>)
    ensures
        allowed(host, oa_publisher_model()[0].hosts) <==> exists|pattern: Seq<char>|
            host_matches(text::lower(host), pattern) && seq![
                "*.springer.com"@,
                "*.springeropen.com"@,
                "*.springernature.com"@,
                "*.nature.com"@,
                "*.wiley.com"@,
                "*.elsevier.com"@,
                "*.sciencedirect.com"@,
                "*.frontiersin.org"@,
                "*.mdpi.com"@,
                "*.plos.org"@,
                "*.biorxiv.org"@,
                "*.medrxiv.org"@,
                "europepmc.org"@,
                "*.europepmc.org"@,
                "*.nih.gov"@,
                "*.ncbi.nlm.nih.gov"@,
                "*.aps.org"@,
                "scipost.org"@,
                "*.scipost.org"@,
                "*.iop.org"@,
                "arxiv.org"@,
                "*.arxiv.org"@,
            ].contains(pattern),
        oa_publisher_model().len() == 1,
        oa_publisher_model()[0].source == "oa-publisher"@,
{
    let hosts = oa_publisher_model()[0].hosts;
    let low = text::lower(host);
    if allowed(host, hosts) {
        let i = choose|i: int| 0 <= i < hosts.len() && host_matches(low, #[trigger] hosts[i]);
        assert(hosts.contains(hosts[i]));
    }
    if exists|pattern: Seq<char>| host_matches(low, pattern) && hosts.contains(pattern) {
        let pattern = choose|pattern: Seq<char>|
            host_matches(low, pattern) && hosts.contains(pattern);
        let i = choose|i: int| 0 <= i < hosts.len() && hosts[i] == pattern;
        assert(host_matches(low, hosts[i]));
    }
}

/// Every source reaches its own hosts and no other.
pub proof fn law_sources_reach_their_own_hosts(host: Seq<char>)
    ensures
        ({
            let low = text::lower(host);
            let one = tier_1_model();
            let two = tier_2_model();
            &&& allowed(host, one[0].hosts) <==> host_matches(low, "api.crossref.org"@)
                || host_matches(low, "*.crossref.org"@)
            &&& allowed(host, one[1].hosts) <==> host_matches(low, "api.unpaywall.org"@)
            &&& allowed(host, one[2].hosts) <==> host_matches(low, "arxiv.org"@) || host_matches(
                low,
                "export.arxiv.org"@,
            ) || host_matches(low, "*.arxiv.org"@)
            &&& allowed(host, two[0].hosts) <==> host_matches(low, "api.openalex.org"@)
            &&& allowed(host, two[1].hosts) <==> host_matches(low, "api.semanticscholar.org"@)
            &&& allowed(host, two[2].hosts) <==> host_matches(low, "doaj.org"@) || host_matches(
                low,
                "*.doaj.org"@,
            )
            &&& allowed(host, discovery_model()[0].hosts) <==> host_matches(
                low,
                "api.openalex.org"@,
            )
            &&& allowed(host, fulltext_model()[0].hosts) <==> host_matches(
                low,
                "ar5iv.labs.arxiv.org"@,
            )
            &&& allowed(host, tier_3_springer_model()[0].hosts) <==> host_matches(
                low,
                "api.springernature.com"@,
            ) || host_matches(low, "*.springernature.com"@)
            &&& allowed(host, tier_3_aps_model()[0].hosts) <==> host_matches(low, "harvest.aps.org"@)
                || host_matches(low, "*.aps.org"@)
            &&& allowed(host, tier_3_elsevier_model()[0].hosts) <==> host_matches(
                low,
                "api.elsevier.com"@,
            ) || host_matches(low, "*.elsevier.com"@)
        }),
{
    lemma_two(host, "api.crossref.org"@, "*.crossref.org"@);
    lemma_one(host, "api.unpaywall.org"@);
    lemma_two(host, "arxiv.org"@, "export.arxiv.org"@);
    lemma_one(host, "*.arxiv.org"@);
    let a = seq!["arxiv.org"@, "export.arxiv.org"@];
    law_every_listed_host_counts(host, a, "*.arxiv.org"@, seq!["*.arxiv.org"@]);
    assert(tier_1_model()[2].hosts =~= a + seq!["*.arxiv.org"@]);
    lemma_one(host, "api.openalex.org"@);
    lemma_one(host, "api.semanticscholar.org"@);
    lemma_two(host, "doaj.org"@, "*.doaj.org"@);
    lemma_one(host, "ar5iv.labs.arxiv.org"@);
    lemma_two(host, "api.springernature.com"@, "*.springernature.com"@);
    lemma_two(host, "harvest.aps.org"@, "*.aps.org"@);
    lemma_two(host, "api.elsevier.com"@, "*.elsevier.com"@);
}

proof fn lemma_one(host: Seq<char>, p: Seq<char>)
    ensures
        allowed(host, seq![p]) <==> host_matches(text::lower(host), p),
{
    law_every_listed_host_counts(host, Seq::empty(), p, Seq::empty());
}

proof fn lemma_two(host: Seq<char>, p: Seq<char>, q: Seq<char>)
    ensures
        allowed(host, seq![p, q]) <==> host_matches(text::lower(host), p) || host_matches(
            text::lower(host),
            q,
        ),
{
    law_every_listed_host_counts(host, seq![p], p, seq![q]);
    lemma_one(host, q);
    assert(seq![p, q] =~= seq![p] + seq![q]);
}

} // verus!

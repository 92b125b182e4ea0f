//! Discovery search: free-text queries against OpenAlex.

use crate::bytes;
use crate::json;
use crate::json::Json;
use crate::json::JsonModel;
use crate::json::JsonNumber;
use crate::json_read;
use crate::order;
use crate::refs;
use crate::refs::ArxivId;
use crate::score;
use crate::source::FetchError;
use crate::text;
use crate::urls;
use crate::urls::UrlModel;
use crate::urls::WebUrl;
use vstd::prelude::*;

verus! {

/// Largest page that OpenAlex serves.
pub const MAX_PER_PAGE: usize = 200;

/// Page size where the caller gives none.
pub const DEFAULT_LIMIT: usize = 25;

/// Longest excerpt of a response in an error text, in characters.
pub const HINT_MAX_CHARS: usize = 200;

// ---------------------------------------------------------------------------
// Queries
// ---------------------------------------------------------------------------

/// Ordering of the results.
#[derive(Debug, Clone, Copy, PartialEq, Eq, Structural)]
pub enum SearchSort {
    /// Best textual match first.
    Relevance,
    /// Most cited first.
    Cited,
    /// Newest first.
    Recent,
}

impl SearchSort {
    /// The `sort` parameter of this ordering.
    pub open spec fn parameter(self) -> Seq<char> {
        match self {
            SearchSort::Relevance => "relevance_score:desc"@,
            SearchSort::Cited => "cited_by_count:desc"@,
            SearchSort::Recent => "publication_date:desc"@,
        }
    }

    /// The `sort` parameter of this ordering.
    pub fn as_openalex(self) -> (r: &'static str)
        ensures
            r@ == self.parameter(),
    {
        match self {
            SearchSort::Relevance => "relevance_score:desc",
            SearchSort::Cited => "cited_by_count:desc",
            SearchSort::Recent => "publication_date:desc",
        }
    }
}

/// A discovery search: the query and its filters.
#[derive(Debug, Clone)]
pub struct PaperSearchQuery {
    /// Free-text query.
    pub query: String,
    /// Maximum number of results, kept within 1 and [`MAX_PER_PAGE`].
    pub limit: usize,
    /// First publication year.
    pub from_year: Option<i32>,
    /// Last publication year.
    pub to_year: Option<i32>,
    /// Open-access works only.
    pub oa_only: bool,
    /// Works cited more often than this.
    pub min_citations: Option<u64>,
    /// Author name.
    pub author: Option<String>,
    /// Venue name.
    pub venue: Option<String>,
    /// Publisher name.
    pub publisher: Option<String>,
    /// Ordering.
    pub sort: SearchSort,
}

impl PaperSearchQuery {
    /// A bare query: the default limit, no filters, best match first.
    pub fn new(query: &str) -> (r: PaperSearchQuery)
        ensures
            r.query@ == query@,
            r.limit == DEFAULT_LIMIT,
            r.from_year is None,
            r.to_year is None,
            !r.oa_only,
            r.min_citations is None,
            r.author is None,
            r.venue is None,
            r.publisher is None,
            r.sort == SearchSort::Relevance,
    {
        PaperSearchQuery {
            query: query.to_string(),
            limit: DEFAULT_LIMIT,
            from_year: None,
            to_year: None,
            oa_only: false,
            min_citations: None,
            author: None,
            venue: None,
            publisher: None,
            sort: SearchSort::Relevance,
        }
    }
}

/// The ids that the name filters of a query were resolved to.
#[derive(Debug, Clone)]
pub struct ResolvedIds {
    /// Author id.
    pub author: Option<String>,
    /// Venue id.
    pub source: Option<String>,
    /// Publisher id.
    pub publisher: Option<String>,
}

impl Default for ResolvedIds {
    fn default() -> (r: Self)
        ensures
            r.author is None,
            r.source is None,
            r.publisher is None,
    {
        ResolvedIds { author: None, source: None, publisher: None }
    }
}

/// The name has to be looked up: it is given and not blank.
pub open spec fn asks_for(name: Option<String>) -> bool {
    name is Some && text::trim(name->Some_0@).len() > 0
}

/// The name of a filter that has to be looked up.
pub fn name_to_resolve(name: &Option<String>) -> (r: Option<&String>)
    ensures
        r is Some == asks_for(*name),
        r is Some ==> *r->Some_0 == name->Some_0,
{
    match name {
        Some(n) => if text::trim_of(n.as_str()).as_str().is_empty() {
            None
        } else {
            Some(n)
        },
        None => None,
    }
}

// ---------------------------------------------------------------------------
// Texts
// ---------------------------------------------------------------------------

/// The last segment of an id URL.
pub fn strip_openalex_prefix(id: &str) -> (r: String)
    ensures
        r@ == text::after_last(id@, '/'),
{
    text::text_after_last(id, '/')
}

/// The DOI of a DOI URL, in lower case.
pub open spec fn bare_doi(s: Seq<char>) -> Seq<char> {
    let low = text::lower(s);
    if "https://doi.org/"@.is_prefix_of(low) {
        low.skip(16)
    } else if "http://doi.org/"@.is_prefix_of(low) {
        low.skip(15)
    } else {
        low
    }
}

/// The DOI of a DOI URL, in lower case.
pub fn strip_doi_prefix(doi_url: &str) -> (r: String)
    ensures
        r@ == bare_doi(doi_url@),
{
    let low = text::lower_chars(text::chars_of(doi_url).as_slice());
    let secure = text::chars_of("https://doi.org/");
    let plain = text::chars_of("http://doi.org/");
    proof {
        reveal_strlit("https://doi.org/");
        reveal_strlit("http://doi.org/");
    }
    if text::starts_with(low.as_slice(), secure.as_slice()) {
        text::string_of(vstd::slice::slice_subrange(low.as_slice(), 16, low.len()))
    } else if text::starts_with(low.as_slice(), plain.as_slice()) {
        text::string_of(vstd::slice::slice_subrange(low.as_slice(), 15, low.len()))
    } else {
        text::string_of(low.as_slice())
    }
}

/// A text cut to [`HINT_MAX_CHARS`] characters, with an ellipsis where
/// something was cut.
pub open spec fn hint_text(s: Seq<char>) -> Seq<char> {
    if s.len() <= HINT_MAX_CHARS {
        s
    } else {
        s.take(HINT_MAX_CHARS as int) + "…"@
    }
}

/// Cuts a text for an error message.
pub fn hint_of(s: &str) -> (r: String)
    ensures
        r@ == hint_text(s@),
{
    let v = text::chars_of(s);
    if v.len() <= HINT_MAX_CHARS {
        s.to_string()
    } else {
        text::string_of(vstd::slice::slice_subrange(v.as_slice(), 0, HINT_MAX_CHARS)).concat("…")
    }
}

/// Cuts a response body for an error message.
pub fn truncate_for_hint(body: &[u8]) -> (r: String)
    ensures
        r@ == hint_text(bytes::utf8_lossy(body@)),
        vstd::utf8::valid_utf8(body@) ==> r@ == hint_text(vstd::utf8::decode_utf8(body@)),
{
    hint_of(bytes::lossy_text(body).as_str())
}

// ---------------------------------------------------------------------------
// URLs
// ---------------------------------------------------------------------------

/// The fields that a search asks for.
pub open spec fn select_fields() -> Seq<char> {
    "id,doi,title,display_name,publication_year,cited_by_count,abstract_inverted_index,authorships,primary_location,open_access,locations"@
}

/// Nothing, or one text.
pub open spec fn when_some(o: Option<Seq<char>>) -> Seq<Seq<char>> {
    match o {
        Some(s) => seq![s],
        None => Seq::empty(),
    }
}

/// The clauses of the `filter` parameter, in order.
pub open spec fn filter_clauses(q: PaperSearchQuery, ids: ResolvedIds) -> Seq<Seq<char>> {
    when_some(
        match q.from_year {
            Some(y) => Some("from_publication_date:"@ + text::decimal_int(y as int) + "-01-01"@),
            None => None,
        },
    ) + when_some(
        match q.to_year {
            Some(y) => Some("to_publication_date:"@ + text::decimal_int(y as int) + "-12-31"@),
            None => None,
        },
    ) + when_some(
        if q.oa_only {
            Some("is_oa:true"@)
        } else {
            None
        },
    ) + when_some(
        match q.min_citations {
            Some(n) => Some("cited_by_count:>"@ + text::decimal(n as nat)),
            None => None,
        },
    ) + when_some(
        match ids.author {
            Some(id) => Some("authorships.author.id:"@ + id@),
            None => None,
        },
    ) + when_some(
        match ids.source {
            Some(id) => Some("primary_location.source.id:"@ + id@),
            None => None,
        },
    ) + when_some(
        match ids.publisher {
            Some(id) => Some("primary_location.source.publisher_lineage:"@ + id@),
            None => None,
        },
    )
}

/// The page size that is asked for.
pub open spec fn page_size(limit: usize) -> nat {
    if limit < 1 {
        1
    } else if limit > MAX_PER_PAGE {
        MAX_PER_PAGE as nat
    } else {
        limit as nat
    }
}

fn page_size_of(limit: usize) -> (r: usize)
    ensures
        r == page_size(limit),
{
    if limit < 1 {
        1
    } else if limit > MAX_PER_PAGE {
        MAX_PER_PAGE
    } else {
        limit
    }
}

/// Nothing, or one pair.
pub open spec fn pair_if(b: bool, name: Seq<char>, value: Seq<char>) -> Seq<
    (Seq<char>, Seq<char>),
> {
    if b {
        seq![(name, value)]
    } else {
        Seq::empty()
    }
}

/// The query parameters of a search, in order.
pub open spec fn search_pairs(
    contact_email: Seq<char>,
    q: PaperSearchQuery,
    ids: ResolvedIds,
) -> Seq<(Seq<char>, Seq<char>)> {
    seq![
        ("search"@, q.query@),
        ("per-page"@, text::decimal(page_size(q.limit))),
        ("sort"@, q.sort.parameter()),
        ("select"@, select_fields()),
    ] + pair_if(
        filter_clauses(q, ids).len() > 0,
        "filter"@,
        text::join(filter_clauses(q, ids), ","@),
    ) + pair_if(contact_email.len() > 0, "mailto"@, contact_email)
}

/// The query parameters of a look-up by name, in order.
pub open spec fn lookup_pairs(contact_email: Seq<char>, name: Seq<char>) -> Seq<
    (Seq<char>, Seq<char>),
> {
    seq![("search"@, name), ("per-page"@, "5"@)] + pair_if(
        contact_email.len() > 0,
        "mailto"@,
        contact_email,
    )
}

/// A URL below `base` with the given query, or the error that none can be
/// made.
pub open spec fn url_made(
    r: Result<WebUrl, FetchError>,
    base: UrlModel,
    path: Seq<char>,
    pairs: Seq<(Seq<char>, Seq<char>)>,
    complaint: Seq<char>,
) -> bool {
    let joined = urls::url_joined(base, path);
    match joined {
        Err(e) => r matches Err(FetchError::SourceSchema { hint }) && hint@ == complaint + e,
        Ok(u) => match urls::url_with_query(u, pairs) {
            Err(e) => r matches Err(FetchError::SourceSchema { hint }) && hint@ == complaint + e,
            Ok(v) => r is Ok && r->Ok_0@ == v,
        },
    }
}

fn make_url(base: &WebUrl, path: &str, pairs: &Vec<(String, String)>, complaint: &str) -> (r:
    Result<WebUrl, FetchError>)
    ensures
        url_made(r, base@, path@, urls::pair_views(pairs@), complaint@),
        r is Ok ==> urls::url_query_pairs(r->Ok_0@) == urls::pair_views(pairs@),
{
    let plain = match base.join(path) {
        Ok(u) => u,
        Err(e) => return Err(
            FetchError::SourceSchema { hint: complaint.to_string().concat(e.as_str()) },
        ),
    };
    match plain.with_query(pairs) {
        Ok(u) => Ok(u),
        Err(e) => Err(FetchError::SourceSchema { hint: complaint.to_string().concat(e.as_str()) }),
    }
}

fn pair_of(name: &str, value: &str) -> (r: (String, String))
    ensures
        (r.0@, r.1@) == (name@, value@),
{
    (name.to_string(), value.to_string())
}

fn push_some(out: &mut Vec<String>, clause: Option<String>)
    ensures
        text::views(final(out)@) == text::views(old(out)@) + when_some(text::opt_view(clause)),
{
    match clause {
        Some(c) => out.push(c),
        None => {},
    }
    assert(text::views(out@) =~= text::views(old(out)@) + when_some(text::opt_view(clause)));
}

fn year_clause(name: &str, year: Option<i32>, day: &str) -> (r: Option<String>)
    ensures
        text::opt_view(r) == (match year {
            Some(y) => Some(name@ + text::decimal_int(y as int) + day@),
            None => None,
        }),
{
    match year {
        Some(y) => Some(
            name.to_string().concat(text::decimal_int_of(y as i64).as_str()).concat(day),
        ),
        None => None,
    }
}

fn id_clause(name: &str, id: &Option<String>) -> (r: Option<String>)
    ensures
        text::opt_view(r) == (match *id {
            Some(i) => Some(name@ + i@),
            None => None,
        }),
{
    match id {
        Some(i) => Some(name.to_string().concat(i.as_str())),
        None => None,
    }
}

fn clause_list(query: &PaperSearchQuery, ids: &ResolvedIds) -> (r: Vec<String>)
    ensures
        text::views(r@) == filter_clauses(*query, *ids),
{
    let mut out: Vec<String> = Vec::new();
    let oa = if query.oa_only {
        Some("is_oa:true".to_string())
    } else {
        None
    };
    let cited = match query.min_citations {
        Some(n) => Some("cited_by_count:>".to_string().concat(text::decimal_of(n).as_str())),
        None => None,
    };
    let from = year_clause("from_publication_date:", query.from_year, "-01-01");
    let ghost first = when_some(text::opt_view(from));
    push_some(&mut out, from);
    assert(text::views(out@) =~= first);
    push_some(&mut out, year_clause("to_publication_date:", query.to_year, "-12-31"));
    push_some(&mut out, oa);
    push_some(&mut out, cited);
    push_some(&mut out, id_clause("authorships.author.id:", &ids.author));
    push_some(&mut out, id_clause("primary_location.source.id:", &ids.source));
    push_some(
        &mut out,
        id_clause("primary_location.source.publisher_lineage:", &ids.publisher),
    );
    out
}

/// The URL of a search.
pub fn build_search_url(
    base: &WebUrl,
    contact_email: &str,
    query: &PaperSearchQuery,
    ids: &ResolvedIds,
) -> (r: Result<WebUrl, FetchError>)
    ensures
        url_made(
            r,
            base@,
            "/works"@,
            search_pairs(contact_email@, *query, *ids),
            "openalex search URL construction failed: "@,
        ),
        r is Ok ==> urls::url_query_pairs(r->Ok_0@) == search_pairs(contact_email@, *query, *ids),
{
    let per_page = page_size_of(query.limit);
    let filters = clause_list(query, ids);
    let mut pairs: Vec<(String, String)> = Vec::new();
    pairs.push(pair_of("search", query.query.as_str()));
    pairs.push(pair_of("per-page", text::decimal_of(per_page as u64).as_str()));
    pairs.push(pair_of("sort", query.sort.as_openalex()));
    pairs.push(
        pair_of(
            "select",
            "id,doi,title,display_name,publication_year,cited_by_count,abstract_inverted_index,authorships,primary_location,open_access,locations",
        ),
    );
    if filters.len() > 0 {
        pairs.push(pair_of("filter", text::join_of(filters.as_slice(), ",").as_str()));
    }
    if !contact_email.is_empty() {
        pairs.push(pair_of("mailto", contact_email));
    }
    assert(urls::pair_views(pairs@) =~= search_pairs(contact_email@, *query, *ids));
    make_url(base, "/works", &pairs, "openalex search URL construction failed: ")
}

/// The path below which entities of a kind are looked up.
pub open spec fn entity_path_text(entity_path: Seq<char>) -> Seq<char> {
    "/"@ + entity_path
}

/// The URL of a look-up of a name among `authors`, `sources` or `publishers`.
pub fn build_lookup_url(base: &WebUrl, contact_email: &str, entity_path: &str, name: &str) -> (r:
    Result<WebUrl, FetchError>)
    ensures
        url_made(
            r,
            base@,
            entity_path_text(entity_path@),
            lookup_pairs(contact_email@, name@),
            "openalex "@ + entity_path@ + " URL construction failed: "@,
        ),
        r is Ok ==> urls::url_query_pairs(r->Ok_0@) == lookup_pairs(contact_email@, name@),
{
    let mut pairs: Vec<(String, String)> = Vec::new();
    pairs.push(pair_of("search", name));
    pairs.push(pair_of("per-page", "5"));
    if !contact_email.is_empty() {
        pairs.push(pair_of("mailto", contact_email));
    }
    assert(urls::pair_views(pairs@) =~= lookup_pairs(contact_email@, name@));
    let path = "/".to_string().concat(entity_path);
    let complaint = "openalex ".to_string().concat(entity_path).concat(" URL construction failed: ");
    make_url(base, path.as_str(), &pairs, complaint.as_str())
}

// ---------------------------------------------------------------------------
// Entities
// ---------------------------------------------------------------------------

/// One hit of a look-up by name.
#[derive(Debug, Clone, PartialEq, Eq)]
pub struct Candidate {
    /// Bare id.
    pub id: String,
    /// Display name.
    pub display_name: String,
    /// Number of works of the entity.
    pub works_count: u64,
    /// Relevance of the hit: the bits of a double, 0 where it is not given.
    pub relevance: u64,
}

/// The bits of the double closest to an integer.
pub uninterp spec fn integer_double_bits(n: i128) -> Option<u64>;

/// Converts an integer with `serde_json::Number::from_i128` and
/// `serde_json::Number::as_f64`, and hands out the bits of the double. They
/// depend on the integer alone.
#[verifier::external_body]
fn double_bits_of(n: i128) -> (r: Option<u64>)
    ensures
        r == integer_double_bits(n),
{
    serde_json::Number::from_i128(n).and_then(|x| x.as_f64()).map(|x| x.to_bits())
}

/// The bits of a JSON number as a double.
pub open spec fn number_bits(n: JsonNumber) -> Option<u64> {
    match n {
        JsonNumber::Unsigned(u) => integer_double_bits(u as i128),
        JsonNumber::Negative(i) => integer_double_bits(i as i128),
        JsonNumber::Double(b) => Some(b),
    }
}

/// The relevance of a hit: a number, 0 where there is none.
pub open spec fn relevance_of(v: Json) -> u64 {
    match v.member("relevance_score"@) {
        Some(Json::Number(n)) => match number_bits(n) {
            Some(b) => b,
            None => 0,
        },
        _ => 0,
    }
}

/// A text that may be missing, empty where it is.
pub open spec fn text_or_empty(o: Option<Seq<char>>) -> Seq<char> {
    match o {
        Some(s) => s,
        None => Seq::empty(),
    }
}

/// What a candidate holds.
pub struct CandidateModel {
    pub id: Seq<char>,
    pub display_name: Seq<char>,
    pub works_count: u64,
    pub relevance: u64,
}

impl View for Candidate {
    type V = CandidateModel;

    open spec fn view(&self) -> CandidateModel {
        CandidateModel {
            id: self.id@,
            display_name: self.display_name@,
            works_count: self.works_count,
            relevance: self.relevance,
        }
    }
}

/// The candidate that a hit stands for: none without an id.
pub open spec fn candidate_of(v: Json) -> Option<CandidateModel> {
    match json::opt_text(v.member("id"@)) {
        None => None,
        Some(id) => Some(
            CandidateModel {
                id: text::after_last(id, '/'),
                display_name: text_or_empty(json::opt_text(v.member("display_name"@))),
                works_count: match json::opt_unsigned(v.member("works_count"@)) {
                    Some(n) => n,
                    None => 0,
                },
                relevance: relevance_of(v),
            },
        ),
    }
}

impl Candidate {
    /// Reads a hit.
    pub fn from_value(v: &Json) -> (r: Option<Candidate>)
        ensures
            match candidate_of(*v) {
                Some(m) => r is Some && r->Some_0@ == m,
                None => r is None,
            },
    {
        let id = match v.text_at("id") {
            Some(s) => strip_openalex_prefix(s.as_str()),
            None => return None,
        };
        let display_name = match v.text_at("display_name") {
            Some(s) => s.clone(),
            None => String::new(),
        };
        let works_count = match v.unsigned_at("works_count") {
            Some(n) => n,
            None => 0,
        };
        let bits = match v.get("relevance_score") {
            Some(Json::Number(JsonNumber::Unsigned(u))) => double_bits_of(*u as i128),
            Some(Json::Number(JsonNumber::Negative(i))) => double_bits_of(*i as i128),
            Some(Json::Number(JsonNumber::Double(b))) => Some(*b),
            _ => None,
        };
        let relevance = match bits {
            Some(b) => b,
            None => 0,
        };
        Some(Candidate { id, display_name, works_count, relevance })
    }
}

/// A higher relevance comes first.
pub open spec fn more_relevant(a: CandidateModel, b: CandidateModel) -> bool {
    score::score_value(b.relevance) < score::score_value(a.relevance)
}

/// The candidates among the hits, in the order of the hits.
pub open spec fn candidates_of(hits: Seq<Json>) -> Seq<CandidateModel>
    decreases hits.len(),
{
    if hits.len() == 0 {
        Seq::empty()
    } else {
        let before = candidates_of(hits.drop_last());
        match candidate_of(hits.last()) {
            Some(c) => before.push(c),
            None => before,
        }
    }
}

/// The candidates, the most relevant first, equals in the order of the hits.
pub open spec fn ranked_candidates(hits: Seq<Json>) -> Seq<CandidateModel> {
    order::stable_sort(
        candidates_of(hits),
        |a: CandidateModel, b: CandidateModel| more_relevant(a, b),
    )
}

/// What a list of candidates holds.
pub open spec fn candidate_views(v: Seq<Candidate>) -> Seq<CandidateModel> {
    Seq::new(v.len(), |i: int| v[i]@)
}

fn place_candidate(v: &mut Vec<Candidate>, c: Candidate)
    ensures
        candidate_views(final(v)@) == order::place(
            candidate_views(old(v)@),
            c@,
            |a: CandidateModel, b: CandidateModel| more_relevant(a, b),
        ),
{
    let ghost s = candidate_views(v@);
    let ghost rel = |a: CandidateModel, b: CandidateModel| more_relevant(a, b);
    let mut i: usize = v.len();
    while i > 0 && score::score_less(v[i - 1].relevance, c.relevance)
        invariant
            i <= v.len(),
            s == candidate_views(v@),
            rel == (|a: CandidateModel, b: CandidateModel| more_relevant(a, b)),
            forall|j: int| i <= j < v.len() ==> rel(c@, #[trigger] s[j]),
        decreases i,
    {
        i -= 1;
    }
    let ghost x = c@;
    proof {
        if i > 0 {
            assert(s[i - 1] == v@[i - 1]@);
        }
        order::lemma_place_at(s, x, rel, i as int);
    }
    v.insert(i, c);
    assert(candidate_views(v@) =~= s.take(i as int).push(x) + s.skip(i as int));
}

fn rank_candidates(hits: &Vec<Json>) -> (r: Vec<Candidate>)
    ensures
        candidate_views(r@) == ranked_candidates(hits@),
{
    let ghost rel = |a: CandidateModel, b: CandidateModel| more_relevant(a, b);
    let mut out: Vec<Candidate> = Vec::new();
    assert(candidate_views(out@) =~= Seq::<CandidateModel>::empty());
    let mut i: usize = 0;
    while i < hits.len()
        invariant
            i <= hits.len(),
            rel == (|a: CandidateModel, b: CandidateModel| more_relevant(a, b)),
            candidate_views(out@) == order::stable_sort(candidates_of(hits@.take(i as int)), rel),
        decreases hits.len() - i,
    {
        assert(hits@.take(i + 1).drop_last() =~= hits@.take(i as int));
        match Candidate::from_value(&hits[i]) {
            Some(c) => {
                proof {
                    let before = candidates_of(hits@.take(i as int));
                    assert(before.push(c@).drop_last() =~= before);
                }
                place_candidate(&mut out, c);
            },
            None => {},
        }
        i += 1;
    }
    assert(hits@.take(i as int) =~= hits@);
    out
}

/// The name of an entity kind in messages.
pub open spec fn label_of(entity_path: Seq<char>) -> Seq<char> {
    if entity_path == "authors"@ {
        "author"@
    } else if entity_path == "sources"@ {
        "venue"@
    } else if entity_path == "publishers"@ {
        "publisher"@
    } else {
        entity_path
    }
}

/// The name of an entity kind in messages.
pub fn entity_label(entity_path: &str) -> (r: &str)
    ensures
        r@ == label_of(entity_path@),
{
    if text::same(entity_path, "authors") {
        "author"
    } else if text::same(entity_path, "sources") {
        "venue"
    } else if text::same(entity_path, "publishers") {
        "publisher"
    } else {
        entity_path
    }
}

/// The display name is the name, white space around it and case aside.
pub open spec fn named(c: CandidateModel, name: Seq<char>) -> bool {
    text::lower(text::trim(c.display_name)) == text::lower(text::trim(name))
}

/// The candidate at `i` alone has the name.
pub open spec fn only_named(cands: Seq<CandidateModel>, name: Seq<char>, i: int) -> bool {
    &&& 0 <= i < cands.len()
    &&& named(cands[i], name)
    &&& forall|j: int| 0 <= j < cands.len() && j != i ==> !named(#[trigger] cands[j], name)
}

/// No candidate has the name.
pub open spec fn none_named(cands: Seq<CandidateModel>, name: Seq<char>) -> bool {
    forall|j: int| 0 <= j < cands.len() ==> !named(#[trigger] cands[j], name)
}

/// The candidate at `i` is the one that is meant: it is the only one, or alone
/// has the name, or it comes first, no one has the name, and its relevance is
/// at least twice that of the next.
pub open spec fn chosen(cands: Seq<CandidateModel>, name: Seq<char>, i: int) -> bool {
    if cands.len() == 1 {
        i == 0
    } else {
        only_named(cands, name, i) || (i == 0 && cands.len() >= 2 && none_named(cands, name)
            && score::dominates(cands[0].relevance, cands[1].relevance))
    }
}

/// One line of the list of candidates.
pub open spec fn candidate_line(c: CandidateModel) -> Seq<char> {
    "\n  "@ + c.display_name + " ("@ + c.id + ", "@ + text::decimal(c.works_count as nat)
        + " works)"@
}

/// The lines of the first `n` candidates.
pub open spec fn candidate_lines(cands: Seq<CandidateModel>, n: int) -> Seq<char>
    decreases n,
{
    if n <= 0 {
        Seq::empty()
    } else {
        candidate_lines(cands, n - 1) + candidate_line(cands[n - 1])
    }
}

/// The message that a name is ambiguous: how many candidates there are, and
/// the first five of them.
pub open spec fn ambiguous_text(
    label: Seq<char>,
    name: Seq<char>,
    cands: Seq<CandidateModel>,
) -> Seq<char> {
    "ambiguous "@ + label + " '"@ + name + "' — "@ + text::decimal(cands.len())
        + " candidates; narrow the name (add a first name / fuller title) and retry:"@
        + candidate_lines(
        cands,
        if cands.len() < 5 {
            cands.len() as int
        } else {
            5
        },
    )
}

/// The message that a name is ambiguous.
pub fn format_ambiguous(label: &str, name: &str, candidates: &Vec<Candidate>) -> (r: String)
    ensures
        r@ == ambiguous_text(label@, name@, candidate_views(candidates@)),
{
    let ghost cands = candidate_views(candidates@);
    let mut lines = String::new();
    let n: usize = if candidates.len() < 5 {
        candidates.len()
    } else {
        5
    };
    let mut i: usize = 0;
    while i < n
        invariant
            i <= n <= candidates.len(),
            cands == candidate_views(candidates@),
            lines@ == candidate_lines(cands, i as int),
        decreases n - i,
    {
        let c = &candidates[i];
        let line = "\n  ".to_string().concat(c.display_name.as_str()).concat(" (").concat(
            c.id.as_str(),
        ).concat(", ").concat(text::decimal_of(c.works_count).as_str()).concat(" works)");
        assert(line@ == candidate_line(cands[i as int]));
        lines.append(line.as_str());
        i += 1;
    }
    "ambiguous ".to_string().concat(label).concat(" '").concat(name).concat("' — ").concat(
        text::decimal_of(candidates.len() as u64).as_str(),
    ).concat(
        " candidates; narrow the name (add a first name / fuller title) and retry:",
    ).concat(lines.as_str())
}

/// Picks the entity that a name means among candidates that are ranked by
/// relevance.
pub fn select_entity(entity_path: &str, name: &str, candidates: &Vec<Candidate>) -> (r: Result<
    String,
    FetchError,
>)
    ensures
        forall|i: int|
            0 <= i < candidates.len() && #[trigger] chosen(
                candidate_views(candidates@),
                name@,
                i,
            ) ==> r is Ok && r->Ok_0@ == candidates@[i].id@,
        (forall|i: int| !chosen(candidate_views(candidates@), name@, i)) && candidates.len() > 0
            ==> (r matches Err(FetchError::Ambiguous { hint }) && hint@ == ambiguous_text(
            label_of(entity_path@),
            name@,
            candidate_views(candidates@),
        )),
        candidates.len() == 0 ==> (r matches Err(FetchError::NotFound { hint }) && hint@
            == "no OpenAlex "@ + label_of(entity_path@) + " matched '"@ + name@ + "'"@),
{
    let ghost cands = candidate_views(candidates@);
    let label = entity_label(entity_path);
    if candidates.len() == 0 {
        return Err(
            FetchError::NotFound {
                hint: "no OpenAlex ".to_string().concat(label).concat(" matched '").concat(
                    name,
                ).concat("'"),
            },
        );
    }
    if candidates.len() == 1 {
        assert(chosen(cands, name@, 0));
        return Ok(candidates[0].id.clone());
    }
    let wanted = text::lower_of(text::trim_of(name).as_str());
    let mut count: usize = 0;
    let mut at: usize = 0;
    let mut i: usize = 0;
    while i < candidates.len()
        invariant
            i <= candidates.len(),
            cands == candidate_views(candidates@),
            wanted@ == text::lower(text::trim(name@)),
            count <= i,
            count == 0 ==> forall|j: int| 0 <= j < i ==> !named(#[trigger] cands[j], name@),
            count > 0 ==> at < i && named(cands[at as int], name@),
            count == 1 ==> forall|j: int|
                0 <= j < i && j != at ==> !named(#[trigger] cands[j], name@),
            count > 1 ==> exists|j: int| 0 <= j < at && named(#[trigger] cands[j], name@),
        decreases candidates.len() - i,
    {
        let have = text::lower_of(text::trim_of(candidates[i].display_name.as_str()).as_str());
        assert(cands[i as int] == candidates@[i as int]@);
        if text::same(have.as_str(), wanted.as_str()) {
            assert(count > 0 ==> named(cands[at as int], name@));
            count = count + 1;
            at = i;
        }
        i += 1;
    }
    if count == 1 {
        assert(only_named(cands, name@, at as int));
        assert(chosen(cands, name@, at as int));
        return Ok(candidates[at].id.clone());
    }
    assert(forall|k: int| !only_named(cands, name@, k)) by {
        if count > 1 {
            let j = choose|j: int| 0 <= j < at && named(#[trigger] cands[j], name@);
            assert forall|k: int| !only_named(cands, name@, k) by {
                if only_named(cands, name@, k) {
                    if k != j {
                        assert(!named(cands[j], name@));
                    } else {
                        assert(!named(cands[at as int], name@));
                    }
                }
            }
        }
    }
    if count == 0 && score::score_dominates(candidates[0].relevance, candidates[1].relevance) {
        assert(cands[0].relevance == candidates@[0].relevance);
        assert(cands[1].relevance == candidates@[1].relevance);
        assert(chosen(cands, name@, 0));
        return Ok(candidates[0].id.clone());
    }
    assert(cands[0].relevance == candidates@[0].relevance);
    assert(cands[1].relevance == candidates@[1].relevance);
    if count > 0 {
        assert(!none_named(cands, name@)) by {
            assert(named(cands[at as int], name@));
        }
    }
    Err(FetchError::Ambiguous { hint: format_ambiguous(label, name, candidates) })
}

/// What a look-up by name comes to: the entity that is meant, or the candidates
/// where none is meant clearly, or that nothing matched. A response without
/// results is no answer.
pub open spec fn entity_outcome(
    entity_path: Seq<char>,
    name: Seq<char>,
    value: Json,
    rendered: Seq<char>,
    r: Result<String, FetchError>,
) -> bool {
    match json::opt_items(value.member("results"@)) {
        None => r matches Err(FetchError::SourceSchema { hint }) && hint@ == "openalex /"@
            + entity_path + " response missing `results` array — likely an error payload (got: "@
            + hint_text(rendered) + ")"@,
        Some(hits) => {
            let cands = ranked_candidates(hits);
            &&& forall|i: int|
                0 <= i < cands.len() && #[trigger] chosen(cands, name, i) ==> r is Ok && r->Ok_0@
                    == cands[i].id
            &&& (forall|i: int| !chosen(cands, name, i)) && cands.len() > 0 ==> (r matches Err(
                FetchError::Ambiguous { hint },
            ) && hint@ == ambiguous_text(label_of(entity_path), name, cands))
            &&& cands.len() == 0 ==> (r matches Err(FetchError::NotFound { hint }) && hint@
                == "no OpenAlex "@ + label_of(entity_path) + " matched '"@ + name + "'"@)
        },
    }
}

/// The results of a look-up by name: the entity that is meant.
///
/// `rendered` is the response as text, for the error that it has no results.
pub fn entity_of_response(entity_path: &str, name: &str, value: &Json, rendered: &str) -> (r:
    Result<String, FetchError>)
    ensures
        entity_outcome(entity_path@, name@, *value, rendered@, r),
{
    match value.items_at("results") {
        None => Err(
            FetchError::SourceSchema {
                hint: "openalex /".to_string().concat(entity_path).concat(
                    " response missing `results` array — likely an error payload (got: ",
                ).concat(hint_of(rendered).as_str()).concat(")"),
            },
        ),
        Some(hits) => {
            let candidates = rank_candidates(hits);
            assert(forall|i: int|
                0 <= i < candidates@.len() ==> candidate_views(candidates@)[i].id
                    == #[trigger] candidates@[i].id@);
            select_entity(entity_path, name, &candidates)
        },
    }
}

// ---------------------------------------------------------------------------
// Hits
// ---------------------------------------------------------------------------

/// One paper of a search result.
#[derive(Debug, Clone, PartialEq, Eq)]
pub struct PaperHit {
    /// Bare DOI, in lower case.
    pub doi: Option<String>,
    /// OpenAlex id of the work.
    pub openalex_id: String,
    /// arXiv id, where a location names one.
    pub arxiv: Option<String>,
    /// Title.
    pub title: String,
    /// Author names, in order.
    pub authors: Vec<String>,
    /// Publication year.
    pub year: Option<i32>,
    /// Venue.
    pub venue: Option<String>,
    /// Abstract.
    pub abstract_: Option<String>,
    /// Number of citations.
    pub cited_by_count: u64,
    /// Open-access status.
    pub oa_status: Option<String>,
    /// Where the record comes from, always `openalex`.
    pub source: &'static str,
}

/// The result of a search.
#[derive(Debug, Clone, PartialEq, Eq)]
pub struct PaperSearchResults {
    /// The papers.
    pub results: Vec<PaperHit>,
    /// Number of works that match upstream.
    pub total_results: Option<u64>,
}

/// A paper as JSON. Whatever it lacks is `null`, so that every paper has the
/// same members.
pub open spec fn hit_json(h: PaperHit) -> JsonModel {
    JsonModel::Object(
        seq![
            ("doi"@, json::text_or_null(text::opt_view(h.doi))),
            ("openalex_id"@, JsonModel::Text(h.openalex_id@)),
            ("arxiv"@, json::text_or_null(text::opt_view(h.arxiv))),
            ("title"@, JsonModel::Text(h.title@)),
            ("authors"@, json::texts_model(text::views(h.authors@))),
            ("year"@, json::integer_or_null(h.year)),
            ("venue"@, json::text_or_null(text::opt_view(h.venue))),
            ("abstract"@, json::text_or_null(text::opt_view(h.abstract_))),
            ("cited_by_count"@, JsonModel::Number(JsonNumber::Unsigned(h.cited_by_count))),
            ("oa_status"@, json::text_or_null(text::opt_view(h.oa_status))),
            ("source"@, JsonModel::Text(h.source@)),
        ],
    )
}

impl PaperHit {
    /// The paper as JSON.
    pub fn to_value(&self) -> (r: Json)
        ensures
            r@ == hit_json(*self),
    {
        let mut m: Vec<(String, Json)> = Vec::new();
        json::put(&mut m, "doi", json::text_or_null_value(&self.doi));
        json::put(&mut m, "openalex_id", json::text_value(self.openalex_id.as_str()));
        json::put(&mut m, "arxiv", json::text_or_null_value(&self.arxiv));
        json::put(&mut m, "title", json::text_value(self.title.as_str()));
        json::put(&mut m, "authors", json::texts_value(&self.authors));
        json::put(&mut m, "year", json::integer_or_null_value(self.year));
        json::put(&mut m, "venue", json::text_or_null_value(&self.venue));
        json::put(&mut m, "abstract", json::text_or_null_value(&self.abstract_));
        json::put(
            &mut m,
            "cited_by_count",
            Json::Number(JsonNumber::Unsigned(self.cited_by_count)),
        );
        json::put(&mut m, "oa_status", json::text_or_null_value(&self.oa_status));
        json::put(&mut m, "source", json::text_value(self.source));
        assert(json::members_model(m@) =~= hit_json(*self)->Object_0);
        json::object(m)
    }
}

/// The result of a search as JSON.
pub open spec fn results_json(r: PaperSearchResults) -> JsonModel {
    JsonModel::Object(
        seq![
            (
                "results"@,
                JsonModel::Array(Seq::new(r.results@.len(), |i: int| hit_json(r.results@[i]))),
            ),
            ("total_results"@, json::count_or_null(r.total_results)),
        ],
    )
}

impl PaperSearchResults {
    /// The result as JSON.
    pub fn to_value(&self) -> (r: Json)
        ensures
            r@ == results_json(*self),
    {
        let mut hits: Vec<Json> = Vec::new();
        let mut i: usize = 0;
        while i < self.results.len()
            invariant
                i <= self.results.len(),
                hits@.len() == i,
                forall|j: int| 0 <= j < i ==> (#[trigger] hits@[j])@ == hit_json(self.results@[j]),
            decreases self.results.len() - i,
        {
            hits.push(self.results[i].to_value());
            i += 1;
        }
        let listed = json::array(hits);
        assert(listed@->Array_0 =~= Seq::new(
            self.results@.len(),
            |j: int| hit_json(self.results@[j]),
        ));
        let mut m: Vec<(String, Json)> = Vec::new();
        json::put(&mut m, "results", listed);
        json::put(&mut m, "total_results", json::count_or_null_value(self.total_results));
        assert(json::members_model(m@) =~= results_json(*self)->Object_0);
        json::object(m)
    }
}

/// A word and the positions that it stands at.
pub open spec fn word_positions(word: Seq<char>, positions: Seq<Json>) -> Seq<(u64, Seq<char>)>
    decreases positions.len(),
{
    if positions.len() == 0 {
        Seq::empty()
    } else {
        let before = word_positions(word, positions.drop_last());
        match positions.last().unsigned() {
            Some(p) => before.push((p, word)),
            None => before,
        }
    }
}

/// Every word of an inverted index with each of its positions, in the order of
/// the index.
pub open spec fn indexed_words(members: Seq<(String, Json)>) -> Seq<(u64, Seq<char>)>
    decreases members.len(),
{
    if members.len() == 0 {
        Seq::empty()
    } else {
        indexed_words(members.drop_last()) + (match members.last().1.items() {
            Some(positions) => word_positions(members.last().0@, positions),
            None => Seq::empty(),
        })
    }
}

/// A lower position comes first.
pub open spec fn stands_before(a: (u64, Seq<char>), b: (u64, Seq<char>)) -> bool {
    a.0 < b.0
}

/// The words in the order of their positions.
pub open spec fn ordered_words(members: Seq<(String, Json)>) -> Seq<(u64, Seq<char>)> {
    order::stable_sort(
        indexed_words(members),
        |a: (u64, Seq<char>), b: (u64, Seq<char>)| stands_before(a, b),
    )
}

/// The text of positioned words, with spaces between them.
pub open spec fn words_text(words: Seq<(u64, Seq<char>)>) -> Seq<char> {
    text::join(Seq::new(words.len(), |i: int| words[i].1), " "@)
}

/// The abstract that an inverted index stands for; none where it places no
/// word.
pub open spec fn abstract_text(index: Json) -> Option<Seq<char>> {
    match index {
        Json::Object(members) => if indexed_words(members@).len() > 0 {
            Some(words_text(ordered_words(members@)))
        } else {
            None
        },
        _ => None,
    }
}

/// What a list of positioned words holds.
pub open spec fn word_views(v: Seq<(u64, String)>) -> Seq<(u64, Seq<char>)> {
    Seq::new(v.len(), |i: int| (v[i].0, v[i].1@))
}

fn place_word(v: &mut Vec<(u64, String)>, position: u64, word: String)
    ensures
        word_views(final(v)@) == order::place(
            word_views(old(v)@),
            (position, word@),
            |a: (u64, Seq<char>), b: (u64, Seq<char>)| stands_before(a, b),
        ),
{
    let ghost s = word_views(v@);
    let ghost rel = |a: (u64, Seq<char>), b: (u64, Seq<char>)| stands_before(a, b);
    let ghost x = (position, word@);
    let mut i: usize = v.len();
    while i > 0 && position < v[i - 1].0
        invariant
            i <= v.len(),
            s == word_views(v@),
            x == (position, word@),
            rel == (|a: (u64, Seq<char>), b: (u64, Seq<char>)| stands_before(a, b)),
            forall|j: int| i <= j < v.len() ==> rel(x, #[trigger] s[j]),
        decreases i,
    {
        i -= 1;
    }
    proof {
        if i > 0 {
            assert(s[i - 1] == (v@[i - 1].0, v@[i - 1].1@));
        }
        order::lemma_place_at(s, x, rel, i as int);
    }
    v.insert(i, (position, word));
    assert(word_views(v@) =~= s.take(i as int).push(x) + s.skip(i as int));
}

/// Adds the positions of one word to words that are in order.
fn place_positions(
    v: &mut Vec<(u64, String)>,
    word: &String,
    positions: &Vec<Json>,
    Ghost(before): Ghost<Seq<(u64, Seq<char>)>>,
)
    requires
        word_views(old(v)@) == order::stable_sort(
            before,
            |a: (u64, Seq<char>), b: (u64, Seq<char>)| stands_before(a, b),
        ),
    ensures
        word_views(final(v)@) == order::stable_sort(
            before + word_positions(word@, positions@),
            |a: (u64, Seq<char>), b: (u64, Seq<char>)| stands_before(a, b),
        ),
{
    let ghost rel = |a: (u64, Seq<char>), b: (u64, Seq<char>)| stands_before(a, b);
    let mut i: usize = 0;
    assert(before + word_positions(word@, positions@.take(0)) =~= before);
    while i < positions.len()
        invariant
            i <= positions.len(),
            rel == (|a: (u64, Seq<char>), b: (u64, Seq<char>)| stands_before(a, b)),
            word_views(v@) == order::stable_sort(
                before + word_positions(word@, positions@.take(i as int)),
                rel,
            ),
        decreases positions.len() - i,
    {
        assert(positions@.take(i + 1).drop_last() =~= positions@.take(i as int));
        match positions[i].as_unsigned() {
            Some(p) => {
                proof {
                    let done = before + word_positions(word@, positions@.take(i as int));
                    let next = before + word_positions(word@, positions@.take(i + 1));
                    assert(next =~= done.push((p, word@)));
                    assert(next.drop_last() =~= done);
                }
                place_word(v, p, word.clone());
            },
            None => {},
        }
        i += 1;
    }
    assert(positions@.take(i as int) =~= positions@);
}

/// Restores the text of an abstract from its inverted index.
pub fn reconstruct_abstract(index: &Json) -> (r: Option<String>)
    ensures
        text::opt_view(r) == abstract_text(*index),
{
    let members = match index {
        Json::Object(m) => m,
        _ => return None,
    };
    let ghost rel = |a: (u64, Seq<char>), b: (u64, Seq<char>)| stands_before(a, b);
    let mut words: Vec<(u64, String)> = Vec::new();
    assert(word_views(words@) =~= Seq::<(u64, Seq<char>)>::empty());
    let mut i: usize = 0;
    while i < members.len()
        invariant
            i <= members.len(),
            rel == (|a: (u64, Seq<char>), b: (u64, Seq<char>)| stands_before(a, b)),
            word_views(words@) == order::stable_sort(indexed_words(members@.take(i as int)), rel),
        decreases members.len() - i,
    {
        let ghost before = indexed_words(members@.take(i as int));
        assert(members@.take(i + 1).drop_last() =~= members@.take(i as int));
        assert(members@.take(i + 1).last() == members@[i as int]);
        match members[i].1.as_items() {
            Some(positions) => {
                place_positions(&mut words, &members[i].0, positions, Ghost(before));
            },
            None => {
                assert(before + Seq::<(u64, Seq<char>)>::empty() =~= before);
            },
        }
        i += 1;
    }
    assert(members@.take(i as int) =~= members@);
    proof {
        order::lemma_stable_sort(
            indexed_words(members@),
            rel,
            |a: (u64, Seq<char>)| a.0 as int,
        );
    }
    if words.len() == 0 {
        return None;
    }
    let mut parts: Vec<String> = Vec::new();
    let mut k: usize = 0;
    while k < words.len()
        invariant
            k <= words.len(),
            parts@.len() == k,
            forall|j: int| 0 <= j < k ==> (#[trigger] parts@[j])@ == words@[j].1@,
        decreases words.len() - k,
    {
        parts.push(words[k].1.clone());
        k += 1;
    }
    let ghost ordered = ordered_words(members@);
    assert(text::views(parts@) =~= Seq::new(ordered.len(), |j: int| ordered[j].1)) by {
        assert forall|j: int| 0 <= j < ordered.len() implies text::views(parts@)[j] == ordered[j].1 by {
            assert(word_views(words@)[j] == ordered[j]);
        }
    }
    Some(text::join_of(parts.as_slice(), " "))
}

/// The characters that end what a URL says behind `arxiv.org/abs/`.
pub open spec fn ends_id(c: char) -> bool {
    c == '?' || c == '#' || c == ' '
}

/// The text is one that [`ArxivId::parse`] accepts.
pub open spec fn reads_as_arxiv(s: Seq<char>) -> bool {
    refs::arxiv_defect(refs::strip_scheme(s, "arxiv:"@)) is None
}

/// Position of the second slash, or the length where there are fewer.
pub open spec fn second_slash(s: Seq<char>) -> int {
    let k = text::first_at(s, '/');
    if k >= s.len() {
        s.len() as int
    } else {
        k + 1 + text::first_at(s.skip(k + 1), '/')
    }
}

/// The arXiv id that a text begins with: the whole text, or what stands in
/// front of its first slash, or, as an old-style id has a slash of its own,
/// what stands in front of its second. None where none of these is an id.
pub open spec fn leading_arxiv(s: Seq<char>) -> Option<Seq<char>> {
    if reads_as_arxiv(s) {
        Some(s)
    } else if reads_as_arxiv(s.take(text::first_at(s, '/'))) {
        Some(s.take(text::first_at(s, '/')))
    } else if reads_as_arxiv(s.take(second_slash(s))) {
        Some(s.take(second_slash(s)))
    } else {
        None
    }
}

/// The arXiv id that a URL names behind `arxiv.org/abs/`, if any.
pub open spec fn arxiv_in_url(url: Seq<char>) -> Option<Seq<char>> {
    match text::first_text(url, "arxiv.org/abs/"@) {
        None => None,
        Some(k) => leading_arxiv(text::text_until(url.skip(k + 14), |c: char| ends_id(c))),
    }
}

/// The arXiv id of a URL that may be missing.
pub open spec fn arxiv_in_opt(url: Option<Seq<char>>) -> Option<Seq<char>> {
    match url {
        Some(u) => arxiv_in_url(u),
        None => None,
    }
}

/// The arXiv id that a location names: in its landing page, or else in its
/// PDF link.
pub open spec fn arxiv_of_location(loc: Json) -> Option<Seq<char>> {
    match arxiv_in_opt(json::opt_text(loc.member("landing_page_url"@))) {
        Some(id) => Some(id),
        None => arxiv_in_opt(json::opt_text(loc.member("pdf_url"@))),
    }
}

fn arxiv_prefix(v: &[char], n: usize) -> (r: Option<String>)
    requires
        n <= v@.len(),
    ensures
        text::opt_view(r) == if reads_as_arxiv(v@.take(n as int)) {
            Some(v@.take(n as int))
        } else {
            None
        },
{
    let id = text::string_of(vstd::slice::slice_subrange(v, 0, n));
    assert(v@.subrange(0, n as int) =~= v@.take(n as int));
    if ArxivId::parse(id.as_str()).is_ok() {
        Some(id)
    } else {
        None
    }
}

fn arxiv_at_start(v: &[char]) -> (r: Option<String>)
    ensures
        text::opt_view(r) == leading_arxiv(v@),
{
    let len = v.len();
    assert(v@.take(len as int) =~= v@);
    match arxiv_prefix(v, len) {
        Some(id) => return Some(id),
        None => {},
    }
    let first = text::find_char(v, '/');
    match arxiv_prefix(v, first) {
        Some(id) => return Some(id),
        None => {},
    }
    if first >= len {
        return None;
    }
    let rest = vstd::slice::slice_subrange(v, first + 1, len);
    assert(rest@ =~= v@.skip(first + 1));
    let second = first + 1 + text::find_char(rest, '/');
    arxiv_prefix(v, second)
}

fn arxiv_id_in(url: &str) -> (r: Option<String>)
    ensures
        text::opt_view(r) == arxiv_in_url(url@),
{
    let v = text::chars_of(url);
    let needle = text::chars_of("arxiv.org/abs/");
    proof {
        reveal_strlit("arxiv.org/abs/");
    }
    let len = v.len();
    let from = match text::find_text(v.as_slice(), needle.as_slice()) {
        None => return None,
        Some(k) => k + 14,
    };
    let rest = vstd::slice::slice_subrange(v.as_slice(), from, len);
    assert(rest@ =~= url@.skip(from as int));
    let mut n: usize = 0;
    while n < rest.len() && rest[n] != '?' && rest[n] != '#' && rest[n] != ' '
        invariant
            n <= rest.len(),
            forall|i: int| 0 <= i < n ==> !ends_id(#[trigger] rest@[i]),
        decreases rest.len() - n,
    {
        n += 1;
    }
    proof {
        text::lemma_text_until(rest@, |c: char| ends_id(c), n as int);
        assert(rest@.subrange(0, n as int) =~= rest@.take(n as int));
    }
    arxiv_at_start(vstd::slice::slice_subrange(rest, 0, n))
}

/// The arXiv id that a location names.
pub fn extract_arxiv_from_location(loc: &Json) -> (r: Option<String>)
    ensures
        text::opt_view(r) == arxiv_of_location(*loc),
{
    let landing = match loc.text_at("landing_page_url") {
        Some(u) => arxiv_id_in(u.as_str()),
        None => None,
    };
    match landing {
        Some(id) => Some(id),
        None => match loc.text_at("pdf_url") {
            Some(u) => arxiv_id_in(u.as_str()),
            None => None,
        },
    }
}

/// The arXiv id of the first location that names one.
pub open spec fn arxiv_of_locations(locs: Seq<Json>) -> Option<Seq<char>>
    decreases locs.len(),
{
    if locs.len() == 0 {
        None
    } else {
        match arxiv_of_location(locs[0]) {
            Some(id) => Some(id),
            None => arxiv_of_locations(locs.drop_first()),
        }
    }
}

fn arxiv_among(locs: &Vec<Json>) -> (r: Option<String>)
    ensures
        text::opt_view(r) == arxiv_of_locations(locs@),
{
    assert(locs@.skip(0) =~= locs@);
    let mut i: usize = 0;
    while i < locs.len()
        invariant
            i <= locs.len(),
            arxiv_of_locations(locs@) == arxiv_of_locations(locs@.skip(i as int)),
        decreases locs.len() - i,
    {
        assert(locs@.skip(i as int)[0] == locs@[i as int]);
        assert(locs@.skip(i as int).drop_first() =~= locs@.skip(i + 1));
        match extract_arxiv_from_location(&locs[i]) {
            Some(id) => return Some(id),
            None => {},
        }
        i += 1;
    }
    None
}

/// The display name in an authorship.
pub open spec fn author_name(a: Json) -> Option<Seq<char>> {
    json::opt_text(json::opt_member(a.member("author"@), "display_name"@))
}

/// The names in the authorships that have one, in order.
pub open spec fn author_names(items: Seq<Json>) -> Seq<Seq<char>>
    decreases items.len(),
{
    if items.len() == 0 {
        Seq::empty()
    } else {
        let before = author_names(items.drop_last());
        match author_name(items.last()) {
            Some(n) => before.push(n),
            None => before,
        }
    }
}

fn names_of(items: &Vec<Json>) -> (r: Vec<String>)
    ensures
        text::views(r@) == author_names(items@),
{
    let mut out: Vec<String> = Vec::new();
    assert(text::views(out@) =~= Seq::<Seq<char>>::empty());
    let mut i: usize = 0;
    while i < items.len()
        invariant
            i <= items.len(),
            text::views(out@) == author_names(items@.take(i as int)),
        decreases items.len() - i,
    {
        assert(items@.take(i + 1).drop_last() =~= items@.take(i as int));
        match items[i].text_in("author", "display_name") {
            Some(n) => {
                let ghost before = text::views(out@);
                out.push(n.clone());
                assert(text::views(out@) =~= before.push(n@));
            },
            None => {},
        }
        i += 1;
    }
    assert(items@.take(i as int) =~= items@);
    out
}

/// The number, where 32 bits hold it with a sign.
pub open spec fn year_number(v: Option<Json>) -> Option<i32> {
    match v {
        Some(j) => match j.signed() {
            Some(n) => if i32::MIN <= n <= i32::MAX {
                Some(n as i32)
            } else {
                None
            },
            None => None,
        },
        None => None,
    }
}

/// The first of two texts that is there, else the empty text.
pub open spec fn either_text(a: Option<Seq<char>>, b: Option<Seq<char>>) -> Seq<char> {
    match a {
        Some(s) => s,
        None => text_or_empty(b),
    }
}

/// The paper that a work record stands for. Whatever the record lacks is left
/// out.
pub open spec fn hit_of(work: Json, h: PaperHit) -> bool {
    &&& h.openalex_id@ == (match json::opt_text(work.member("id"@)) {
        Some(id) => text::after_last(id, '/'),
        None => Seq::empty(),
    })
    &&& text::opt_view(h.doi) == (match json::opt_text(work.member("doi"@)) {
        Some(d) => Some(bare_doi(d)),
        None => None,
    })
    &&& h.title@ == either_text(
        json::opt_text(work.member("title"@)),
        json::opt_text(work.member("display_name"@)),
    )
    &&& text::views(h.authors@) == (match json::opt_items(work.member("authorships"@)) {
        Some(items) => author_names(items),
        None => Seq::empty(),
    })
    &&& h.year == year_number(work.member("publication_year"@))
    &&& text::opt_view(h.venue) == json::opt_text(
        json::opt_member(
            json::opt_member(work.member("primary_location"@), "source"@),
            "display_name"@,
        ),
    )
    &&& text::opt_view(h.abstract_) == (match work.member("abstract_inverted_index"@) {
        Some(index) => abstract_text(index),
        None => None,
    })
    &&& h.cited_by_count == (match json::opt_unsigned(work.member("cited_by_count"@)) {
        Some(n) => n,
        None => 0,
    })
    &&& text::opt_view(h.oa_status) == json::opt_text(
        json::opt_member(work.member("open_access"@), "oa_status"@),
    )
    &&& text::opt_view(h.arxiv) == (match json::opt_items(work.member("locations"@)) {
        Some(locs) => arxiv_of_locations(locs),
        None => None,
    })
    &&& h.source@ == "openalex"@
}

/// Reads a work record.
pub fn work_to_hit(work: &Json) -> (r: PaperHit)
    ensures
        hit_of(*work, r),
{
    let openalex_id = match work.text_at("id") {
        Some(id) => strip_openalex_prefix(id.as_str()),
        None => String::new(),
    };
    let doi = match work.text_at("doi") {
        Some(d) => Some(strip_doi_prefix(d.as_str())),
        None => None,
    };
    let title = match work.text_at("title") {
        Some(t) => t.clone(),
        None => match work.text_at("display_name") {
            Some(t) => t.clone(),
            None => String::new(),
        },
    };
    let authors = match work.items_at("authorships") {
        Some(items) => names_of(items),
        None => Vec::new(),
    };
    assert(work.member("authorships"@) is None || json::opt_items(
        work.member("authorships"@),
    ) is None ==> text::views(authors@) =~= Seq::<Seq<char>>::empty());
    let year = match work.get("publication_year") {
        Some(y) => match y.as_signed() {
            Some(n) => if i32::MIN as i64 <= n && n <= i32::MAX as i64 {
                Some(n as i32)
            } else {
                None
            },
            None => None,
        },
        None => None,
    };
    let venue = match work.get_in("primary_location", "source") {
        Some(s) => json::owned_text(s.text_at("display_name")),
        None => None,
    };
    let abstract_ = match work.get("abstract_inverted_index") {
        Some(index) => reconstruct_abstract(index),
        None => None,
    };
    let cited_by_count = match work.unsigned_at("cited_by_count") {
        Some(n) => n,
        None => 0,
    };
    let oa_status = json::owned_text(work.text_in("open_access", "oa_status"));
    let arxiv = match work.items_at("locations") {
        Some(locs) => arxiv_among(locs),
        None => None,
    };
    PaperHit {
        doi,
        openalex_id,
        arxiv,
        title,
        authors,
        year,
        venue,
        abstract_,
        cited_by_count,
        oa_status,
        source: "openalex",
    }
}

/// Number of records that a search takes up: all of them, but no more than the
/// limit of the query.
pub open spec fn taken_up(records: nat, limit: usize) -> nat {
    if records <= page_size(limit) {
        records
    } else {
        page_size(limit)
    }
}

/// What a search comes to: one paper for each record, in order, up to the
/// limit of the query. A response without records is no answer.
pub open spec fn search_outcome(
    value: Json,
    rendered: Seq<char>,
    limit: usize,
    r: Result<PaperSearchResults, FetchError>,
) -> bool {
    match json::opt_items(value.member("results"@)) {
        None => r matches Err(FetchError::SourceSchema { hint }) && hint@
            == "openalex search response missing `results` array — likely an error payload (got: "@
            + hint_text(rendered) + ")"@,
        Some(works) => {
            &&& r is Ok
            &&& r->Ok_0.results@.len() == taken_up(works.len(), limit)
            &&& forall|i: int|
                0 <= i < r->Ok_0.results@.len() ==> hit_of(
                    works[i],
                    #[trigger] r->Ok_0.results@[i],
                )
            &&& r->Ok_0.total_results == json::opt_unsigned(
                json::opt_member(value.member("meta"@), "count"@),
            )
        },
    }
}

/// The result that a search response stands for: one paper for each record, in
/// order, up to the limit of the query. `rendered` is the response as text, for
/// the error that it has no records.
pub fn results_of_response(value: &Json, rendered: &str, limit: usize) -> (r: Result<
    PaperSearchResults,
    FetchError,
>)
    ensures
        search_outcome(*value, rendered@, limit, r),
{
    let works = match value.items_at("results") {
        None => return Err(
            FetchError::SourceSchema {
                hint:
                    "openalex search response missing `results` array — likely an error payload (got: ".to_string().concat(
                    hint_of(rendered).as_str(),
                ).concat(")"),
            },
        ),
        Some(w) => w,
    };
    let page = page_size_of(limit);
    let count: usize = if works.len() <= page {
        works.len()
    } else {
        page
    };
    let mut results: Vec<PaperHit> = Vec::new();
    let mut i: usize = 0;
    while i < count
        invariant
            i <= count <= works.len(),
            results@.len() == i,
            forall|j: int| 0 <= j < i ==> hit_of(works@[j], #[trigger] results@[j]),
        decreases count - i,
    {
        results.push(work_to_hit(&works[i]));
        i += 1;
    }
    let total_results = match value.get_in("meta", "count") {
        Some(n) => n.as_unsigned(),
        None => None,
    };
    Ok(PaperSearchResults { results, total_results })
}

/// The error for a response that is not JSON.
pub open spec fn not_json(e: FetchError, why: Seq<char>) -> bool {
    e matches FetchError::SourceSchema { hint } && hint@ == "openalex returned non-JSON: "@ + why
}

fn not_json_error(why: &str) -> (r: FetchError)
    ensures
        not_json(r, why@),
{
    FetchError::SourceSchema { hint: "openalex returned non-JSON: ".to_string().concat(why) }
}

/// A response that was read: its value, and the value as text.
#[derive(Debug, PartialEq, Eq)]
pub struct Reply {
    value: Json,
    rendered: String,
}

impl Reply {
    /// The value.
    pub closed spec fn value(&self) -> Json {
        self.value
    }

    /// The value as text.
    pub closed spec fn rendered(&self) -> Seq<char> {
        self.rendered@
    }

    /// Reads a response, which has to be JSON.
    pub fn read(body: &[u8]) -> (r: Result<Reply, FetchError>)
        ensures
            match json_read::json_of(body@) {
                Err(why) => r is Err && not_json(r->Err_0, why),
                Ok(m) => r is Ok && r->Ok_0.value()@ == m && r->Ok_0.rendered()
                    == json_read::json_text(m),
            },
    {
        match json_read::parse_and_render(body) {
            Err(why) => Err(not_json_error(why.as_str())),
            Ok((value, rendered)) => Ok(Reply { value, rendered }),
        }
    }
}

/// What the bytes of a response to a look-up by name come to.
pub open spec fn body_resolves(
    entity_path: Seq<char>,
    name: Seq<char>,
    body: Seq<u8>,
    r: Result<String, FetchError>,
) -> bool {
    match json_read::json_of(body) {
        Err(why) => r is Err && not_json(r->Err_0, why),
        Ok(m) => exists|v: Json|
            v@ == m && #[trigger] entity_outcome(
                entity_path,
                name,
                v,
                json_read::json_text(m),
                r,
            ),
    }
}

/// What the bytes of a response to a search come to.
pub open spec fn body_lists(
    body: Seq<u8>,
    limit: usize,
    r: Result<PaperSearchResults, FetchError>,
) -> bool {
    match json_read::json_of(body) {
        Err(why) => r is Err && not_json(r->Err_0, why),
        Ok(m) => exists|v: Json|
            v@ == m && #[trigger] search_outcome(v, json_read::json_text(m), limit, r),
    }
}

/// The entity that a response to a look-up by name stands for.
pub fn entity_of_body(entity_path: &str, name: &str, body: &[u8]) -> (r: Result<String, FetchError>)
    ensures
        body_resolves(entity_path@, name@, body@, r),
{
    match Reply::read(body) {
        Err(e) => Err(e),
        Ok(reply) => entity_of_response(
            entity_path,
            name,
            &reply.value,
            reply.rendered.as_str(),
        ),
    }
}

/// The papers that a response to a search stands for, up to the limit of the
/// query.
pub fn results_of_body(body: &[u8], limit: usize) -> (r: Result<PaperSearchResults, FetchError>)
    ensures
        body_lists(body@, limit, r),
{
    match Reply::read(body) {
        Err(e) => Err(e),
        Ok(reply) => results_of_response(&reply.value, reply.rendered.as_str(), limit),
    }
}

// ---------------------------------------------------------------------------
// A search under way
// ---------------------------------------------------------------------------

/// Where a search stands: which name is to be looked up, or that the papers
/// are to be asked for.
#[derive(Debug, Clone, Copy, PartialEq, Eq, Structural)]
pub enum SearchStage {
    /// The author is looked up.
    Author,
    /// The venue is looked up.
    Venue,
    /// The publisher is looked up.
    Publisher,
    /// The papers are asked for.
    Works,
}

/// The first stage from the publisher on that a query needs.
pub open spec fn from_publisher(q: PaperSearchQuery) -> SearchStage {
    if asks_for(q.publisher) {
        SearchStage::Publisher
    } else {
        SearchStage::Works
    }
}

/// The first stage from the venue on that a query needs.
pub open spec fn from_venue(q: PaperSearchQuery) -> SearchStage {
    if asks_for(q.venue) {
        SearchStage::Venue
    } else {
        from_publisher(q)
    }
}

/// The first stage that a query needs: a name that is not given, or blank, is
/// not looked up.
pub open spec fn from_author(q: PaperSearchQuery) -> SearchStage {
    if asks_for(q.author) {
        SearchStage::Author
    } else {
        from_venue(q)
    }
}

/// The entities among which a stage looks up, and the name.
pub open spec fn lookup_of(q: PaperSearchQuery, s: SearchStage) -> Option<(Seq<char>, Seq<char>)> {
    match s {
        SearchStage::Author => Some(("authors"@, q.author->Some_0@)),
        SearchStage::Venue => Some(("sources"@, q.venue->Some_0@)),
        SearchStage::Publisher => Some(("publishers"@, q.publisher->Some_0@)),
        SearchStage::Works => None,
    }
}

/// The stage after a name was resolved.
pub open spec fn stage_after(q: PaperSearchQuery, s: SearchStage) -> SearchStage {
    match s {
        SearchStage::Author => from_venue(q),
        SearchStage::Venue => from_publisher(q),
        _ => SearchStage::Works,
    }
}

/// A search under way: names are resolved first, then the papers are asked for.
pub struct SearchRun {
    query: PaperSearchQuery,
    ids: ResolvedIds,
    stage: SearchStage,
}

impl SearchRun {
    /// The query.
    pub closed spec fn query(&self) -> PaperSearchQuery {
        self.query
    }

    /// The ids that were resolved so far.
    pub closed spec fn ids(&self) -> ResolvedIds {
        self.ids
    }

    /// Where the search stands.
    pub closed spec fn at(&self) -> SearchStage {
        self.stage
    }

    #[verifier::type_invariant]
    closed spec fn wf(&self) -> bool {
        match self.stage {
            SearchStage::Author => self.query.author is Some,
            SearchStage::Venue => self.query.venue is Some,
            SearchStage::Publisher => self.query.publisher is Some,
            SearchStage::Works => true,
        }
    }

    fn publisher_stage(query: &PaperSearchQuery) -> (r: SearchStage)
        ensures
            r == from_publisher(*query),
    {
        if name_to_resolve(&query.publisher).is_some() {
            SearchStage::Publisher
        } else {
            SearchStage::Works
        }
    }

    fn venue_stage(query: &PaperSearchQuery) -> (r: SearchStage)
        ensures
            r == from_venue(*query),
    {
        if name_to_resolve(&query.venue).is_some() {
            SearchStage::Venue
        } else {
            Self::publisher_stage(query)
        }
    }

    /// Starts a search.
    pub fn start(query: PaperSearchQuery) -> (r: SearchRun)
        ensures
            r.query() == query,
            r.ids().author is None,
            r.ids().source is None,
            r.ids().publisher is None,
            r.at() == from_author(query),
    {
        let stage = if name_to_resolve(&query.author).is_some() {
            SearchStage::Author
        } else {
            Self::venue_stage(&query)
        };
        SearchRun { query, ids: ResolvedIds::default(), stage }
    }

    /// Where the search stands.
    pub fn stage(&self) -> (r: SearchStage)
        ensures
            r == self.at(),
    {
        self.stage
    }

    /// The URL of the next request.
    pub fn request(&self, base: &WebUrl, contact_email: &str) -> (r: Result<WebUrl, FetchError>)
        ensures
            match lookup_of(self.query(), self.at()) {
                Some((path, name)) => url_made(
                    r,
                    base@,
                    entity_path_text(path),
                    lookup_pairs(contact_email@, name),
                    "openalex "@ + path + " URL construction failed: "@,
                ),
                None => url_made(
                    r,
                    base@,
                    "/works"@,
                    search_pairs(contact_email@, self.query(), self.ids()),
                    "openalex search URL construction failed: "@,
                ),
            },
    {
        proof {
            use_type_invariant(self);
        }
        match self.stage {
            SearchStage::Author => build_lookup_url(
                base,
                contact_email,
                "authors",
                self.query.author.as_ref().unwrap().as_str(),
            ),
            SearchStage::Venue => build_lookup_url(
                base,
                contact_email,
                "sources",
                self.query.venue.as_ref().unwrap().as_str(),
            ),
            SearchStage::Publisher => build_lookup_url(
                base,
                contact_email,
                "publishers",
                self.query.publisher.as_ref().unwrap().as_str(),
            ),
            SearchStage::Works => build_search_url(base, contact_email, &self.query, &self.ids),
        }
    }

    /// The id that the name of a look-up resolves to, given the response.
    pub fn resolve_reply(&self, reply: &Reply) -> (r: Result<String, FetchError>)
        ensures
            lookup_of(self.query(), self.at()) matches Some((path, name)) ==> entity_outcome(
                path,
                name,
                reply.value(),
                reply.rendered(),
                r,
            ),
            self.at() == SearchStage::Works ==> r is Err,
    {
        proof {
            use_type_invariant(self);
        }
        let (path, name) = match self.stage {
            SearchStage::Author => ("authors", self.query.author.as_ref().unwrap()),
            SearchStage::Venue => ("sources", self.query.venue.as_ref().unwrap()),
            SearchStage::Publisher => ("publishers", self.query.publisher.as_ref().unwrap()),
            SearchStage::Works => return Err(
                FetchError::SourceSchema { hint: "no name is looked up".to_string() },
            ),
        };
        entity_of_response(path, name.as_str(), &reply.value, reply.rendered.as_str())
    }

    /// Reads the response to a look-up: the id that its name resolves to.
    pub fn resolve(&self, body: &[u8]) -> (r: Result<String, FetchError>)
        ensures
            lookup_of(self.query(), self.at()) matches Some((path, name)) ==> body_resolves(
                path,
                name,
                body@,
                r,
            ),
            self.at() == SearchStage::Works ==> r is Err,
    {
        match Reply::read(body) {
            Err(e) => Err(e),
            Ok(reply) => self.resolve_reply(&reply),
        }
    }

    /// The papers of a search, given the response: no more than the limit of
    /// the query.
    pub fn results_reply(&self, reply: &Reply) -> (r: Result<PaperSearchResults, FetchError>)
        ensures
            search_outcome(reply.value(), reply.rendered(), self.query().limit, r),
    {
        results_of_response(&reply.value, reply.rendered.as_str(), self.query.limit)
    }

    /// Reads the response to a search: no more papers than the limit of the
    /// query.
    pub fn results(&self, body: &[u8]) -> (r: Result<PaperSearchResults, FetchError>)
        ensures
            body_lists(body@, self.query().limit, r),
            r is Ok ==> 0 <= r->Ok_0.results@.len() <= page_size(self.query().limit),
    {
        match Reply::read(body) {
            Err(e) => Err(e),
            Ok(reply) => self.results_reply(&reply),
        }
    }

    /// Takes the id that a name was resolved to, and goes on.
    pub fn resolved(self, id: String) -> (r: SearchRun)
        ensures
            r.query() == self.query(),
            r.at() == stage_after(self.query(), self.at()),
            r.ids() == (match self.at() {
                SearchStage::Author => ResolvedIds { author: Some(id), ..self.ids() },
                SearchStage::Venue => ResolvedIds { source: Some(id), ..self.ids() },
                SearchStage::Publisher => ResolvedIds { publisher: Some(id), ..self.ids() },
                SearchStage::Works => self.ids(),
            }),
    {
        let SearchRun { query, ids, stage } = self;
        let mut ids = ids;
        match stage {
            SearchStage::Author => {
                ids.author = Some(id);
                let next = Self::venue_stage(&query);
                SearchRun { query, ids, stage: next }
            },
            SearchStage::Venue => {
                ids.source = Some(id);
                let next = Self::publisher_stage(&query);
                SearchRun { query, ids, stage: next }
            },
            SearchStage::Publisher => {
                ids.publisher = Some(id);
                SearchRun { query, ids, stage: SearchStage::Works }
            },
            SearchStage::Works => SearchRun { query, ids, stage },
        }
    }
}

// ---------------------------------------------------------------------------
// Laws
// ---------------------------------------------------------------------------

/// A name means one entity at most.
pub proof fn law_at_most_one_entity_is_chosen(
    cands: Seq<CandidateModel>,
    name: Seq<char>,
    i: int,
    j: int,
)
    requires
        chosen(cands, name, i),
        chosen(cands, name, j),
    ensures
        i == j,
        0 <= i < cands.len(),
{
}

/// The order of the candidates does not depend on the order in which the
/// response lists them, equal scores aside: they are all there, and none is
/// followed by a more relevant one.
pub proof fn law_candidates_are_ranked(hits: Seq<Json>)
    ensures
        ranked_candidates(hits).to_multiset() == candidates_of(hits).to_multiset(),
        forall|i: int, j: int|
            0 <= i < j < ranked_candidates(hits).len() ==> score::score_value(
                (#[trigger] ranked_candidates(hits)[j]).relevance,
            ) <= score::score_value((#[trigger] ranked_candidates(hits)[i]).relevance),
{
    let rel = |a: CandidateModel, b: CandidateModel| more_relevant(a, b);
    let rank = |a: CandidateModel| -score::score_value(a.relevance);
    assert(order::ranked(rel, rank));
    order::lemma_stable_sort(candidates_of(hits), rel, rank);
    let s = ranked_candidates(hits);
    assert forall|i: int, j: int| 0 <= i < j < s.len() implies score::score_value(
        (#[trigger] s[j]).relevance,
    ) <= score::score_value((#[trigger] s[i]).relevance) by {
        assert(!rel(s[j], s[i]));
    }
}

/// A restored abstract holds every placed word, in the order of the positions.
pub proof fn law_abstract_words_are_in_order(members: Seq<(String, Json)>)
    ensures
        ordered_words(members).to_multiset() == indexed_words(members).to_multiset(),
        forall|i: int, j: int|
            0 <= i < j < ordered_words(members).len() ==> (#[trigger] ordered_words(members)[i]).0
                <= (#[trigger] ordered_words(members)[j]).0,
{
    let rel = |a: (u64, Seq<char>), b: (u64, Seq<char>)| stands_before(a, b);
    let rank = |a: (u64, Seq<char>)| a.0 as int;
    assert(order::ranked(rel, rank));
    order::lemma_stable_sort(indexed_words(members), rel, rank);
    let s = ordered_words(members);
    assert forall|i: int, j: int| 0 <= i < j < s.len() implies (#[trigger] s[i]).0 <= (
    #[trigger] s[j]).0 by {
        assert(!rel(s[j], s[i]));
    }
}

/// Whatever a location names as its arXiv id is one that [`ArxivId::parse`]
/// accepts.
pub proof fn law_named_ids_parse(loc: Json)
    ensures
        arxiv_of_location(loc) matches Some(id) ==> reads_as_arxiv(id),
{
}

/// The address of an abstract names its arXiv id, of either style, whole and
/// with its version, whatever query or fragment stands behind it.
pub proof fn law_abstract_pages_name_their_id(id: Seq<char>, tail: Seq<char>)
    requires
        refs::arxiv_defect(id) is None,
        tail.len() == 0 || ends_id(tail[0]),
    ensures
        arxiv_in_url("https://arxiv.org/abs/"@ + id + tail) == Some(id),
{
    let url = "https://arxiv.org/abs/"@ + id + tail;
    let needle = "arxiv.org/abs/"@;
    reveal_strlit("https://arxiv.org/abs/");
    reveal_strlit("arxiv.org/abs/");
    assert(text::text_at(url, needle, 8)) by {
        assert(url.subrange(8, 22) =~= needle);
    }
    text::lemma_first_text(url, needle, 8);
    let rest = url.skip(22);
    assert(rest =~= id + tail);
    refs::lemma_arxiv_chars(id);
    assert forall|i: int| 0 <= i < id.len() implies !ends_id(#[trigger] rest[i]) by {
        assert(rest[i] == id[i]);
    }
    text::lemma_text_until(rest, |c: char| ends_id(c), id.len() as int);
    assert(rest.take(id.len() as int) =~= id);
    refs::lemma_arxiv_has_no_scheme(id);
}

/// No search gives more papers than its query allows, nor more than a page
/// holds.
pub proof fn law_limits_are_kept(
    value: Json,
    rendered: Seq<char>,
    limit: usize,
    r: Result<PaperSearchResults, FetchError>,
)
    requires
        search_outcome(value, rendered, limit, r),
        r is Ok,
    ensures
        limit >= 1 ==> r->Ok_0.results@.len() <= limit,
        limit == 0 ==> r->Ok_0.results@.len() <= 1,
        r->Ok_0.results@.len() <= MAX_PER_PAGE,
{
}

/// All papers have the same members as JSON, in the same order, whatever they
/// lack; and what a paper lacks is `null`.
pub proof fn law_papers_have_one_shape(a: PaperHit, b: PaperHit)
    ensures
        hit_json(a)->Object_0.len() == hit_json(b)->Object_0.len(),
        forall|i: int|
            0 <= i < hit_json(a)->Object_0.len() ==> (#[trigger] hit_json(a)->Object_0[i]).0
                == hit_json(b)->Object_0[i].0,
        a.doi is None ==> hit_json(a)->Object_0.contains(("doi"@, JsonModel::Null)),
        a.arxiv is None ==> hit_json(a)->Object_0.contains(("arxiv"@, JsonModel::Null)),
        a.year is None ==> hit_json(a)->Object_0.contains(("year"@, JsonModel::Null)),
        a.venue is None ==> hit_json(a)->Object_0.contains(("venue"@, JsonModel::Null)),
        a.abstract_ is None ==> hit_json(a)->Object_0.contains(("abstract"@, JsonModel::Null)),
        a.oa_status is None ==> hit_json(a)->Object_0.contains(("oa_status"@, JsonModel::Null)),
{
    let m = hit_json(a)->Object_0;
    assert(m[0].0 == "doi"@ && m[2].0 == "arxiv"@ && m[5].0 == "year"@ && m[6].0 == "venue"@);
    assert(m[7].0 == "abstract"@ && m[9].0 == "oa_status"@);
}

proof fn lemma_word_positions(word: Seq<char>, a: Seq<Json>, b: Seq<Json>)
    ensures
        word_positions(word, a + b) == word_positions(word, a) + word_positions(word, b),
    decreases b.len(),
{
    if b.len() == 0 {
        assert(a + b =~= a);
        assert(word_positions(word, a) + word_positions(word, b) =~= word_positions(word, a));
    } else {
        lemma_word_positions(word, a, b.drop_last());
        assert((a + b).drop_last() =~= a + b.drop_last());
        assert((a + b).last() == b.last());
        assert(word_positions(word, a + b) =~= word_positions(word, a) + word_positions(word, b));
    }
}

proof fn lemma_indexed_words(a: Seq<(String, Json)>, b: Seq<(String, Json)>)
    ensures
        indexed_words(a + b) == indexed_words(a) + indexed_words(b),
    decreases b.len(),
{
    if b.len() == 0 {
        assert(a + b =~= a);
        assert(indexed_words(a) + indexed_words(b) =~= indexed_words(a));
    } else {
        lemma_indexed_words(a, b.drop_last());
        assert((a + b).drop_last() =~= a + b.drop_last());
        assert((a + b).last() == b.last());
        assert(indexed_words(a + b) =~= indexed_words(a) + indexed_words(b));
    }
}

proof fn lemma_candidates_of(a: Seq<Json>, b: Seq<Json>)
    ensures
        candidates_of(a + b) == candidates_of(a) + candidates_of(b),
    decreases b.len(),
{
    if b.len() == 0 {
        assert(a + b =~= a);
        assert(candidates_of(a) + candidates_of(b) =~= candidates_of(a));
    } else {
        lemma_candidates_of(a, b.drop_last());
        assert((a + b).drop_last() =~= a + b.drop_last());
        assert((a + b).last() == b.last());
        assert(candidates_of(a + b) =~= candidates_of(a) + candidates_of(b));
    }
}

proof fn lemma_author_names(a: Seq<Json>, b: Seq<Json>)
    ensures
        author_names(a + b) == author_names(a) + author_names(b),
    decreases b.len(),
{
    if b.len() == 0 {
        assert(a + b =~= a);
        assert(author_names(a) + author_names(b) =~= author_names(a));
    } else {
        lemma_author_names(a, b.drop_last());
        assert((a + b).drop_last() =~= a + b.drop_last());
        assert((a + b).last() == b.last());
        assert(author_names(a + b) =~= author_names(a) + author_names(b));
    }
}

/// Every position of a word is placed: the placed words of two lists of positions
/// one behind the other are those of the first and those of the second, and a
/// position that is a number gives the word at it.
pub proof fn law_every_position_is_placed(
    word: Seq<char>,
    a: Seq<Json>,
    b: Seq<Json>,
    position: Json,
)
    ensures
        word_positions(word, a + b) == word_positions(word, a) + word_positions(word, b),
        position matches Json::Number(JsonNumber::Unsigned(p)) ==> word_positions(
            word,
            seq![position],
        ) == seq![(p, word)],
        !(position matches Json::Number(JsonNumber::Unsigned(_))) ==> word_positions(
            word,
            seq![position],
        ).len() == 0,
        (forall|i: int|
            0 <= i < a.len() ==> (#[trigger] a[i] matches Json::Number(JsonNumber::Unsigned(_))))
            ==> word_positions(word, a).len() == a.len() && forall|i: int|
            0 <= i < a.len() ==> #[trigger] a[i] == Json::Number(
                JsonNumber::Unsigned(word_positions(word, a)[i].0),
            ) && word_positions(word, a)[i].1 == word,
    decreases a.len(),
{
    lemma_word_positions(word, a, b);
    let one = seq![position];
    assert(one.drop_last() =~= Seq::<Json>::empty());
    assert(one.last() == position);
    assert(word_positions(word, Seq::<Json>::empty()) =~= Seq::<(u64, Seq<char>)>::empty());
    match position {
        Json::Number(JsonNumber::Unsigned(p)) => {
            assert(word_positions(word, one) =~= seq![(p, word)]);
        },
        _ => {},
    }
    if a.len() > 0 {
        let d = a.drop_last();
        law_every_position_is_placed(word, d, b, position);
        if forall|i: int|
            0 <= i < a.len() ==> (#[trigger] a[i] matches Json::Number(JsonNumber::Unsigned(_))) {
            assert forall|i: int| 0 <= i < d.len() implies (#[trigger] d[i] matches Json::Number(
                JsonNumber::Unsigned(_),
            )) by {
                assert(a[i] matches Json::Number(JsonNumber::Unsigned(_)));
            }
            assert(a[a.len() - 1] matches Json::Number(JsonNumber::Unsigned(_)));
            let all = word_positions(word, a);
            assert forall|i: int| 0 <= i < a.len() implies #[trigger] a[i] == Json::Number(
                JsonNumber::Unsigned(all[i].0),
            ) && all[i].1 == word by {
                if i < d.len() {
                    assert(all[i] == word_positions(word, d)[i]);
                    assert(d[i] == a[i]);
                }
            }
        }
    }
}

/// Every word of an index is placed at each of its positions, and no word
/// elsewhere: the placed words of two indices one behind the other are those of
/// the first and those of the second, and one word gives its positions.
pub proof fn law_every_word_is_placed(
    a: Seq<(String, Json)>,
    b: Seq<(String, Json)>,
    word: String,
    positions: Json,
)
    ensures
        indexed_words(a + b) == indexed_words(a) + indexed_words(b),
        positions matches Json::Array(items) ==> indexed_words(seq![(word, positions)])
            == word_positions(word@, items@),
        !(positions is Array) ==> indexed_words(seq![(word, positions)]).len() == 0,
{
    lemma_indexed_words(a, b);
    let one = seq![(word, positions)];
    assert(one.drop_last() =~= Seq::<(String, Json)>::empty());
    assert(one.last() == (word, positions));
    assert(indexed_words(Seq::<(String, Json)>::empty()) =~= Seq::<(u64, Seq<char>)>::empty());
    assert(indexed_words(one) =~= match positions {
        Json::Array(items) => word_positions(word@, items@),
        _ => Seq::<(u64, Seq<char>)>::empty(),
    });
}

proof fn lemma_pair_placed(members: Seq<(String, Json)>, i: int, items: Seq<Json>, j: int, p: u64)
    requires
        0 <= i < members.len(),
        members[i].1 matches Json::Array(v) && v@ == items,
        0 <= j < items.len(),
        items[j] == Json::Number(JsonNumber::Unsigned(p)),
    ensures
        indexed_words(members).contains((p, members[i].0@)),
{
    let word = members[i].0@;
    let before = members.take(i);
    let after = members.skip(i + 1);
    let one = seq![members[i]];
    assert(members =~= before + one + after);
    lemma_indexed_words(before + one, after);
    lemma_indexed_words(before, one);
    law_every_word_is_placed(before, one, members[i].0, members[i].1);
    let f = items.take(j);
    let g = items.skip(j + 1);
    let x = seq![items[j]];
    assert(items =~= f + x + g);
    law_every_position_is_placed(word, f + x, g, items[j]);
    law_every_position_is_placed(word, f, x, items[j]);
    let k = word_positions(word, f).len() as int;
    let placed = word_positions(word, items);
    assert(placed[k] == (p, word));
    let at = indexed_words(before).len() as int + k;
    assert(indexed_words(members)[at] == (p, word));
}

/// An abstract holds every word of its index at every position: the pair of a
/// position and its word is among the words that the text is made of, which are
/// in the order of their positions with a space between two of them.
pub proof fn law_abstracts_hold_every_word(index: Json, i: int, j: int)
    requires
        index is Object,
        0 <= i < index->Object_0@.len(),
        index->Object_0@[i].1 is Array,
        0 <= j < index->Object_0@[i].1->Array_0@.len(),
        index->Object_0@[i].1->Array_0@[j] matches Json::Number(JsonNumber::Unsigned(_)),
    ensures
        ({
            let m = index->Object_0@;
            let p = index->Object_0@[i].1->Array_0@[j]->Number_0->Unsigned_0;
            &&& ordered_words(m).contains((p, m[i].0@))
            &&& abstract_text(index) == Some(
                text::join(ordered_words(m).map_values(|x: (u64, Seq<char>)| x.1), " "@),
            )
            &&& ordered_words(m).len() == indexed_words(m).len()
            &&& forall|a: int, b: int|
                0 <= a < b < ordered_words(m).len() ==> (#[trigger] ordered_words(m)[a]).0 <= (
                #[trigger] ordered_words(m)[b]).0
        }),
{
    broadcast use vstd::seq_lib::group_to_multiset_ensures;

    let m = index->Object_0@;
    let items = m[i].1->Array_0@;
    let p = items[j]->Number_0->Unsigned_0;
    lemma_pair_placed(m, i, items, j, p);
    law_abstract_words_are_in_order(m);
    let s = indexed_words(m);
    let o = ordered_words(m);
    assert(s.to_multiset().count((p, m[i].0@)) > 0);
    assert(o.to_multiset().count((p, m[i].0@)) > 0);
    assert(o.contains((p, m[i].0@)));
    assert(o.to_multiset().len() == s.to_multiset().len());
    assert(Seq::new(o.len(), |k: int| o[k].1) =~= o.map_values(|x: (u64, Seq<char>)| x.1));
}

/// Words that claim one position stand in the order of the index.
pub proof fn law_words_at_one_position_keep_their_order(members: Seq<(String, Json)>, p: u64)
    ensures
        ordered_words(members).filter(|x: (u64, Seq<char>)| x.0 as int == p) == indexed_words(
            members,
        ).filter(|x: (u64, Seq<char>)| x.0 as int == p),
{
    let rel = |a: (u64, Seq<char>), b: (u64, Seq<char>)| stands_before(a, b);
    let rank = |a: (u64, Seq<char>)| a.0 as int;
    assert(order::ranked(rel, rank));
    order::law_stable_sorts_keep_equals_in_order(indexed_words(members), rel, rank, p as int);
    let f = |x: (u64, Seq<char>)| x.0 as int == p;
    let g = |x: (u64, Seq<char>)| rank(x) == p as int;
    assert(f =~= g);
}

/// An index without a placed word, or what is no index, gives no abstract.
pub proof fn law_nothing_placed_is_no_abstract(index: Json)
    ensures
        !(index is Object) ==> abstract_text(index) is None,
        index matches Json::Object(m) ==> (abstract_text(index) is None <==> indexed_words(
            m@,
        ).len() == 0),
{
}

/// Every hit with an id is a candidate, in the order of the hits and with what
/// the hit says; the ranked ones are the same, and hits of one relevance keep
/// their order.
pub proof fn law_every_hit_is_a_candidate(a: Seq<Json>, b: Seq<Json>, hit: Json)
    ensures
        candidates_of(a + b) == candidates_of(a) + candidates_of(b),
        hit.member("id"@) matches Some(Json::Text(id)) ==> candidates_of(seq![hit]).len() == 1 && {
            let c = candidates_of(seq![hit])[0];
            &&& c.id == text::after_last(id@, '/')
            &&& hit.member("display_name"@) matches Some(Json::Text(n)) ==> c.display_name == n@
            &&& !(hit.member("display_name"@) matches Some(Json::Text(_)))
                ==> c.display_name.len() == 0
            &&& hit.member("works_count"@) matches Some(Json::Number(JsonNumber::Unsigned(n)))
                ==> c.works_count == n
            &&& hit.member("works_count"@) is None ==> c.works_count == 0
            &&& hit.member("relevance_score"@) matches Some(Json::Number(JsonNumber::Double(d)))
                ==> c.relevance == d
            &&& hit.member("relevance_score"@) is None ==> c.relevance == 0
        },
        !(hit.member("id"@) matches Some(Json::Text(_))) ==> candidates_of(seq![hit]).len() == 0,
        ranked_candidates(a).len() == candidates_of(a).len(),
{
    lemma_candidates_of(a, b);
    let one = seq![hit];
    assert(one.drop_last() =~= Seq::<Json>::empty());
    assert(one.last() == hit);
    assert(candidates_of(Seq::<Json>::empty()) =~= Seq::<CandidateModel>::empty());
    broadcast use vstd::seq_lib::group_to_multiset_ensures;

    law_candidates_are_ranked(a);
    assert(ranked_candidates(a).to_multiset().len() == candidates_of(a).to_multiset().len());
}

/// Hits of one relevance are ranked in the order of the response.
pub proof fn law_equal_hits_keep_their_order(hits: Seq<Json>, value: int)
    ensures
        ranked_candidates(hits).filter(
            |c: CandidateModel| -score::score_value(c.relevance) == value,
        ) == candidates_of(hits).filter(
            |c: CandidateModel| -score::score_value(c.relevance) == value,
        ),
{
    let rel = |a: CandidateModel, b: CandidateModel| more_relevant(a, b);
    let rank = |a: CandidateModel| -score::score_value(a.relevance);
    assert(order::ranked(rel, rank));
    order::law_stable_sorts_keep_equals_in_order(candidates_of(hits), rel, rank, value);
    let f = |c: CandidateModel| -score::score_value(c.relevance) == value;
    let g = |x: CandidateModel| rank(x) == value;
    assert(f =~= g);
}

/// Whether two names are one, white space around them and the case of their
/// letters aside.
pub open spec fn one_name(a: Seq<char>, b: Seq<char>) -> bool {
    text::lower(text::trim(a)) == text::lower(text::trim(b))
}

/// The entity that is meant: the only candidate; else the only one of the name;
/// else, where none has the name, the most relevant if it is at least twice as
/// relevant as the next and that counts at all. Where several have the name none
/// is meant.
pub proof fn law_the_entity_that_is_meant(cands: Seq<CandidateModel>, name: Seq<char>, i: int, j: int)
    ensures
        cands.len() == 1 ==> (chosen(cands, name, i) <==> i == 0),
        cands.len() == 0 ==> !chosen(cands, name, i),
        cands.len() >= 2 && 0 <= i < cands.len() && one_name(cands[i].display_name, name) && (
        forall|k: int|
            0 <= k < cands.len() && k != i ==> !one_name((#[trigger] cands[k]).display_name, name))
            ==> (chosen(cands, name, j) <==> j == i),
        cands.len() >= 2 && (forall|k: int|
            0 <= k < cands.len() ==> !one_name((#[trigger] cands[k]).display_name, name)) ==> (
        chosen(cands, name, j) <==> j == 0 && score::score_value(cands[0].relevance) > 0
            && score::score_value(cands[1].relevance) > 0 && score::score_value(cands[0].relevance)
            >= 2 * score::score_value(cands[1].relevance)),
        0 <= i < j < cands.len() && one_name(cands[i].display_name, name) && one_name(
            cands[j].display_name,
            name,
        ) ==> forall|k: int| !#[trigger] chosen(cands, name, k),
{
    if cands.len() >= 2 && 0 <= i < cands.len() && one_name(cands[i].display_name, name) {
        assert(named(cands[i], name));
        if forall|k: int|
            0 <= k < cands.len() && k != i ==> !one_name((#[trigger] cands[k]).display_name, name) {
            assert forall|k: int| 0 <= k < cands.len() && k != i implies !named(
                #[trigger] cands[k],
                name,
            ) by {
                assert(!one_name(cands[k].display_name, name));
            }
            assert(only_named(cands, name, i));
        }
    }
    if cands.len() >= 2 && (forall|k: int|
        0 <= k < cands.len() ==> !one_name((#[trigger] cands[k]).display_name, name)) {
        assert forall|k: int| 0 <= k < cands.len() implies !named(#[trigger] cands[k], name) by {
            assert(!one_name(cands[k].display_name, name));
        }
    }
    if 0 <= i < j < cands.len() && one_name(cands[i].display_name, name) && one_name(
        cands[j].display_name,
        name,
    ) {
        assert(named(cands[i], name) && named(cands[j], name));
    }
}

/// The error that a name is ambiguous counts the candidates and shows no more
/// than five, each with its name, id and works, in their order.
pub proof fn law_ambiguities_list_five(
    label: Seq<char>,
    name: Seq<char>,
    cands: Seq<CandidateModel>,
    n: int,
)
    requires
        1 <= n <= cands.len(),
    ensures
        candidate_lines(cands, 0) == Seq::<char>::empty(),
        candidate_lines(cands, n) == candidate_lines(cands, n - 1) + ("\n  "@ + cands[n
            - 1].display_name + " ("@ + cands[n - 1].id + ", "@ + text::decimal(
            cands[n - 1].works_count as nat,
        ) + " works)"@),
        ambiguous_text(label, name, cands) == "ambiguous "@ + label + " '"@ + name + "' — "@
            + text::decimal(cands.len())
            + " candidates; narrow the name (add a first name / fuller title) and retry:"@
            + candidate_lines(
            cands,
            if cands.len() <= 5 {
                cands.len() as int
            } else {
                5int
            },
        ),
{
}

/// Every authorship with a name gives it, in their order.
pub proof fn law_every_author_is_named(a: Seq<Json>, b: Seq<Json>, item: Json)
    ensures
        author_names(a + b) == author_names(a) + author_names(b),
        json::opt_member(item.member("author"@), "display_name"@) matches Some(Json::Text(n))
            ==> author_names(seq![item]) == seq![n@],
        !(json::opt_member(item.member("author"@), "display_name"@) matches Some(Json::Text(_)))
            ==> author_names(seq![item]).len() == 0,
        (forall|i: int| 0 <= i < a.len() ==> author_name(#[trigger] a[i]) is Some) ==> author_names(
            a,
        ).len() == a.len() && forall|i: int|
            0 <= i < a.len() ==> Some(#[trigger] author_names(a)[i]) == author_name(a[i]),
    decreases a.len(),
{
    lemma_author_names(a, b);
    let one = seq![item];
    assert(one.drop_last() =~= Seq::<Json>::empty());
    assert(one.last() == item);
    assert(author_names(Seq::<Json>::empty()) =~= Seq::<Seq<char>>::empty());
    match author_name(item) {
        Some(n) => {
            assert(author_names(one) =~= seq![n]);
        },
        None => {},
    }
    if a.len() > 0 {
        let d = a.drop_last();
        law_every_author_is_named(d, b, item);
        if forall|i: int| 0 <= i < a.len() ==> author_name(#[trigger] a[i]) is Some {
            assert forall|i: int| 0 <= i < d.len() implies author_name(#[trigger] d[i]) is Some by {
                assert(author_name(a[i]) is Some);
            }
            assert(author_name(a[a.len() - 1]) is Some);
            assert forall|i: int| 0 <= i < a.len() implies Some(#[trigger] author_names(a)[i])
                == author_name(a[i]) by {
                if i < d.len() {
                    assert(author_names(a)[i] == author_names(d)[i]);
                    assert(d[i] == a[i]);
                }
            }
        }
    }
}

/// A paper says what its record says: title, authors, year, venue, citations,
/// open-access status and abstract each from their own member, and nothing where
/// the record is silent.
pub proof fn law_papers_say_what_their_records_say(work: Json, h: PaperHit)
    requires
        hit_of(work, h),
    ensures
        work.member("id"@) matches Some(Json::Text(t)) ==> h.openalex_id@ == text::after_last(
            t@,
            '/',
        ),
        !(work.member("id"@) matches Some(Json::Text(_))) ==> h.openalex_id@.len() == 0,
        work.member("title"@) matches Some(Json::Text(t)) ==> h.title@ == t@,
        !(work.member("title"@) matches Some(Json::Text(_))) ==> (match work.member(
            "display_name"@,
        ) {
            Some(Json::Text(t)) => h.title@ == t@,
            _ => h.title@.len() == 0,
        }),
        work.member("authorships"@) matches Some(Json::Array(v)) ==> text::views(h.authors@)
            == author_names(v@),
        !(work.member("authorships"@) is Some) ==> h.authors@.len() == 0,
        work.member("publication_year"@) matches Some(Json::Number(JsonNumber::Unsigned(y)))
            ==> h.year == if y <= 0x7FFF_FFFF {
            Some(y as i32)
        } else {
            None
        },
        work.member("publication_year"@) is None ==> h.year is None,
        work.member("cited_by_count"@) matches Some(Json::Number(JsonNumber::Unsigned(n)))
            ==> h.cited_by_count == n,
        work.member("cited_by_count"@) is None ==> h.cited_by_count == 0,
        json::opt_member(work.member("open_access"@), "oa_status"@) matches Some(Json::Text(t))
            ==> h.oa_status matches Some(o) && o@ == t@,
        json::opt_member(work.member("open_access"@), "oa_status"@) is None
            ==> h.oa_status is None,
        json::opt_member(
            json::opt_member(work.member("primary_location"@), "source"@),
            "display_name"@,
        ) matches Some(Json::Text(t)) ==> h.venue matches Some(o) && o@ == t@,
        json::opt_member(work.member("primary_location"@), "source"@) is None ==> h.venue is None,
        work.member("abstract_inverted_index"@) matches Some(index) ==> text::opt_view(h.abstract_)
            == abstract_text(index),
        work.member("abstract_inverted_index"@) is None ==> h.abstract_ is None,
        work.member("doi"@) matches Some(Json::Text(t)) ==> h.doi matches Some(o) && o@ == bare_doi(
            t@,
        ),
        work.member("doi"@) is None ==> h.doi is None,
        work.member("locations"@) matches Some(Json::Array(v)) ==> text::opt_view(h.arxiv)
            == arxiv_of_locations(v@),
        work.member("locations"@) is None ==> h.arxiv is None,
        h.source@ == "openalex"@,
{
    if work.member("authorships"@) is None {
        assert(text::views(h.authors@).len() == 0);
    }
}

/// A DOI loses `https://doi.org/` or `http://doi.org/` in front of it, in any
/// case, and is in lower case.
pub proof fn law_dois_lose_their_resolver(doi: Seq<char>, head: Seq<char>)
    ensures
        text::lower(head) == "https://doi.org/"@ ==> bare_doi(head + doi) == text::lower(doi),
        text::lower(head) == "http://doi.org/"@ ==> bare_doi(head + doi) == text::lower(doi),
        doi.len() > 0 && doi[0] == '1' ==> bare_doi(doi) == text::lower(doi),
{
    reveal_strlit("https://doi.org/");
    reveal_strlit("http://doi.org/");
    let low = text::lower(head + doi);
    assert(low =~= text::lower(head) + text::lower(doi));
    if text::lower(head) == "https://doi.org/"@ {
        assert(low.subrange(0, 16) =~= "https://doi.org/"@);
        assert(low.skip(16) =~= text::lower(doi));
    }
    if text::lower(head) == "http://doi.org/"@ {
        assert(low.subrange(0, 15) =~= "http://doi.org/"@);
        assert(low.skip(15) =~= text::lower(doi));
        if "https://doi.org/"@.is_prefix_of(low) {
            assert(low.subrange(0, 16)[4] == 's');
            assert(low.subrange(0, 15)[4] == ':');
        }
    }
    if doi.len() > 0 && doi[0] == '1' {
        let l = text::lower(doi);
        assert(l[0] == '1');
        if "https://doi.org/"@.is_prefix_of(l) {
            assert(l.subrange(0, 16)[0] == 'h');
        }
        if "http://doi.org/"@.is_prefix_of(l) {
            assert(l.subrange(0, 15)[0] == 'h');
        }
    }
}

/// The arXiv id is that of the first location that names one; a location names
/// it in its landing page, and only else in its PDF link.
pub proof fn law_the_first_location_names_the_id(locs: Seq<Json>, k: int)
    requires
        0 <= k <= locs.len(),
        forall|i: int| 0 <= i < k ==> arxiv_of_location(#[trigger] locs[i]) is None,
        k < locs.len() ==> arxiv_of_location(locs[k]) is Some,
    ensures
        arxiv_of_locations(locs) == if k < locs.len() {
            arxiv_of_location(locs[k])
        } else {
            None
        },
        k < locs.len() ==> (locs[k].member("landing_page_url"@) matches Some(Json::Text(u)) ==> (
        arxiv_in_url(u@) is Some ==> arxiv_of_location(locs[k]) == arxiv_in_url(u@))),
        k < locs.len() ==> (locs[k].member("landing_page_url"@) is None ==> (locs[k].member(
            "pdf_url"@,
        ) matches Some(Json::Text(u)) && arxiv_of_location(locs[k]) == arxiv_in_url(u@))),
    decreases locs.len(),
{
    if locs.len() > 0 && k > 0 {
        let d = locs.drop_first();
        assert(arxiv_of_location(locs[0]) is None);
        assert forall|i: int| 0 <= i < k - 1 implies arxiv_of_location(#[trigger] d[i]) is None by {
            assert(d[i] == locs[i + 1]);
        }
        law_the_first_location_names_the_id(d, k - 1);
    }
}

/// A search gives as many papers as the response has records, in their order, as
/// far as the limit, which is kept within one and two hundred, allows.
pub proof fn law_searches_give_every_record(
    value: Json,
    rendered: Seq<char>,
    limit: usize,
    r: Result<PaperSearchResults, FetchError>,
    i: int,
)
    requires
        search_outcome(value, rendered, limit, r),
        value.member("results"@) is Some && value.member("results"@)->Some_0 is Array,
    ensures
        ({
            let works = value.member("results"@)->Some_0->Array_0@;
            let bound = if limit == 0 {
                1
            } else if limit <= 200 {
                limit as int
            } else {
                200
            };
            &&& r is Ok
            &&& r->Ok_0.results@.len() == if works.len() <= bound {
                works.len() as int
            } else {
                bound
            }
            &&& 0 <= i < r->Ok_0.results@.len() ==> hit_of(works[i], r->Ok_0.results@[i])
            &&& json::opt_member(value.member("meta"@), "count"@) matches Some(Json::Number(
                JsonNumber::Unsigned(n),
            )) ==> r->Ok_0.total_results == Some(n)
            &&& value.member("meta"@) is None ==> r->Ok_0.total_results is None
        }),
{
}

/// A response without a list of results is an error that shows no more than two
/// hundred characters of it.
pub proof fn law_error_payloads_are_told(
    value: Json,
    rendered: Seq<char>,
    limit: usize,
    r: Result<PaperSearchResults, FetchError>,
    e: Result<String, FetchError>,
    path: Seq<char>,
    name: Seq<char>,
)
    requires
        search_outcome(value, rendered, limit, r),
        entity_outcome(path, name, value, rendered, e),
        !(value.member("results"@) matches Some(Json::Array(_))),
    ensures
        r is Err && e is Err,
        r->Err_0 is SourceSchema && e->Err_0 is SourceSchema,
        rendered.len() <= 200 ==> hint_text(rendered) == rendered,
        rendered.len() > 200 ==> hint_text(rendered) == rendered.take(200) + "…"@,
        r->Err_0 matches FetchError::SourceSchema { hint } && hint@
            == "openalex search response missing `results` array — likely an error payload (got: "@
            + hint_text(rendered) + ")"@,
        e->Err_0 matches FetchError::SourceSchema { hint } && hint@ == "openalex /"@ + path
            + " response missing `results` array — likely an error payload (got: "@ + hint_text(
            rendered,
        ) + ")"@,
{
}

/// A search asks for its query, its page, its order and its fields, with a
/// filter where the query has any and the address of the user where there is
/// one.
pub proof fn law_searches_ask_what_the_query_says(
    email: Seq<char>,
    q: PaperSearchQuery,
    ids: ResolvedIds,
)
    ensures
        ({
            let pairs = search_pairs(email, q, ids);
            let clauses = filter_clauses(q, ids);
            let page = if q.limit == 0 {
                1nat
            } else if q.limit <= 200 {
                q.limit as nat
            } else {
                200nat
            };
            &&& pairs[0] == ("search"@, q.query@)
            &&& pairs[1] == ("per-page"@, text::decimal(page))
            &&& pairs[2] == (
                "sort"@,
                match q.sort {
                    SearchSort::Relevance => "relevance_score:desc"@,
                    SearchSort::Cited => "cited_by_count:desc"@,
                    SearchSort::Recent => "publication_date:desc"@,
                },
            )
            &&& pairs[3].0 == "select"@
            &&& clauses.len() > 0 ==> pairs[4] == ("filter"@, text::join(clauses, ","@))
            &&& email.len() > 0 ==> pairs.last() == ("mailto"@, email)
            &&& pairs.len() == 4 + (if clauses.len() > 0 {
                1int
            } else {
                0
            }) + (if email.len() > 0 {
                1int
            } else {
                0
            })
        }),
{
}

/// The filter has a clause for each bound of the query and each resolved name,
/// in one order, and no other: years from the first day of the first to the
/// last of the last, open access, citations, author, venue and publisher.
pub proof fn law_filters_say_what_the_query_says(q: PaperSearchQuery, ids: ResolvedIds)
    ensures
        ({
            let c = filter_clauses(q, ids);
            let n1 = if q.from_year is Some {
                1int
            } else {
                0
            };
            let n2 = n1 + if q.to_year is Some {
                1int
            } else {
                0
            };
            let n3 = n2 + if q.oa_only {
                1int
            } else {
                0
            };
            let n4 = n3 + if q.min_citations is Some {
                1int
            } else {
                0
            };
            let n5 = n4 + if ids.author is Some {
                1int
            } else {
                0
            };
            let n6 = n5 + if ids.source is Some {
                1int
            } else {
                0
            };
            &&& q.from_year matches Some(y) ==> c[0] == "from_publication_date:"@
                + text::decimal_int(y as int) + "-01-01"@
            &&& q.to_year matches Some(y) ==> c[n1] == "to_publication_date:"@ + text::decimal_int(
                y as int,
            ) + "-12-31"@
            &&& q.oa_only ==> c[n2] == "is_oa:true"@
            &&& q.min_citations matches Some(n) ==> c[n3] == "cited_by_count:>"@ + text::decimal(
                n as nat,
            )
            &&& ids.author matches Some(id) ==> c[n4] == "authorships.author.id:"@ + id@
            &&& ids.source matches Some(id) ==> c[n5] == "primary_location.source.id:"@ + id@
            &&& ids.publisher matches Some(id) ==> c[n6]
                == "primary_location.source.publisher_lineage:"@ + id@
            &&& c.len() == n6 + if ids.publisher is Some {
                1int
            } else {
                0
            }
        }),
{
    lemma_seven_parts(
        when_some(
            match q.from_year {
                Some(y) => Some(
                    "from_publication_date:"@ + text::decimal_int(y as int) + "-01-01"@,
                ),
                None => None,
            },
        ),
        when_some(
            match q.to_year {
                Some(y) => Some("to_publication_date:"@ + text::decimal_int(y as int) + "-12-31"@),
                None => None,
            },
        ),
        when_some(
            if q.oa_only {
                Some("is_oa:true"@)
            } else {
                None
            },
        ),
        when_some(
            match q.min_citations {
                Some(n) => Some("cited_by_count:>"@ + text::decimal(n as nat)),
                None => None,
            },
        ),
        when_some(
            match ids.author {
                Some(id) => Some("authorships.author.id:"@ + id@),
                None => None,
            },
        ),
        when_some(
            match ids.source {
                Some(id) => Some("primary_location.source.id:"@ + id@),
                None => None,
            },
        ),
        when_some(
            match ids.publisher {
                Some(id) => Some("primary_location.source.publisher_lineage:"@ + id@),
                None => None,
            },
        ),
    );
}

proof fn lemma_seven_parts(
    a: Seq<Seq<char>>,
    b: Seq<Seq<char>>,
    c: Seq<Seq<char>>,
    d: Seq<Seq<char>>,
    e: Seq<Seq<char>>,
    f: Seq<Seq<char>>,
    g: Seq<Seq<char>>,
)
    ensures
        ({
            let all = a + b + c + d + e + f + g;
            let n2 = a.len() + b.len();
            let n3 = n2 + c.len();
            let n4 = n3 + d.len();
            let n5 = n4 + e.len();
            let n6 = n5 + f.len();
            &&& all.len() == n6 + g.len()
            &&& a.len() > 0 ==> all[0] == a[0]
            &&& b.len() > 0 ==> all[a.len() as int] == b[0]
            &&& c.len() > 0 ==> all[n2 as int] == c[0]
            &&& d.len() > 0 ==> all[n3 as int] == d[0]
            &&& e.len() > 0 ==> all[n4 as int] == e[0]
            &&& f.len() > 0 ==> all[n5 as int] == f[0]
            &&& g.len() > 0 ==> all[n6 as int] == g[0]
        }),
{
}

/// A look-up asks for the name among five, below the path of its kind.
pub proof fn law_lookups_ask_for_the_name(email: Seq<char>, name: Seq<char>, path: Seq<char>)
    ensures
        lookup_pairs(email, name)[0] == ("search"@, name),
        lookup_pairs(email, name)[1] == ("per-page"@, "5"@),
        email.len() > 0 ==> lookup_pairs(email, name).len() == 3 && lookup_pairs(email, name)[2]
            == ("mailto"@, email),
        email.len() == 0 ==> lookup_pairs(email, name).len() == 2,
        entity_path_text(path) == "/"@ + path,
        label_of("authors"@) == "author"@,
        label_of("sources"@) == "venue"@,
        label_of("publishers"@) == "publisher"@,
{
    reveal_strlit("authors");
    reveal_strlit("sources");
    reveal_strlit("publishers");
    assert("authors"@.len() == 7 && "sources"@.len() == 7 && "publishers"@.len() == 10);
    assert("authors"@[0] != "sources"@[0]);
}

/// Every name that a query gives is looked up before the papers are asked for:
/// the author first, the venue next, the publisher last, each among its own
/// kind; a blank one is not.
pub proof fn law_names_are_looked_up_first(q: PaperSearchQuery)
    ensures
        ({
            let author = q.author is Some && text::trim(q.author->Some_0@).len() > 0;
            let venue = q.venue is Some && text::trim(q.venue->Some_0@).len() > 0;
            let publisher = q.publisher is Some && text::trim(q.publisher->Some_0@).len() > 0;
            &&& from_author(q) == SearchStage::Author <==> author
            &&& from_author(q) == SearchStage::Venue <==> !author && venue
            &&& from_author(q) == SearchStage::Publisher <==> !author && !venue && publisher
            &&& stage_after(q, SearchStage::Author) == SearchStage::Venue <==> venue
            &&& stage_after(q, SearchStage::Author) == SearchStage::Publisher <==> !venue
                && publisher
            &&& stage_after(q, SearchStage::Author) != SearchStage::Author
            &&& stage_after(q, SearchStage::Venue) == if publisher {
                SearchStage::Publisher
            } else {
                SearchStage::Works
            }
            &&& stage_after(q, SearchStage::Publisher) == SearchStage::Works
            &&& author ==> lookup_of(q, SearchStage::Author) == Some(
                ("authors"@, q.author->Some_0@),
            )
            &&& venue ==> lookup_of(q, SearchStage::Venue) == Some(("sources"@, q.venue->Some_0@))
            &&& publisher ==> lookup_of(q, SearchStage::Publisher) == Some(
                ("publishers"@, q.publisher->Some_0@),
            )
            &&& lookup_of(q, SearchStage::Works) is None
        }),
{
}

/// Every kind of number tells how relevant a hit is; a hit without one is not
/// relevant.
pub proof fn law_every_number_tells_relevance(v: Json)
    ensures
        v.member("relevance_score"@) matches Some(Json::Number(n)) ==> {
            &&& n matches JsonNumber::Double(b) ==> relevance_of(v) == b
            &&& n matches JsonNumber::Unsigned(u) ==> (integer_double_bits(u as i128) matches Some(
                b,
            ) ==> relevance_of(v) == b)
            &&& n matches JsonNumber::Negative(i) ==> (integer_double_bits(i as i128) matches Some(
                b,
            ) ==> relevance_of(v) == b)
        },
        !(v.member("relevance_score"@) matches Some(Json::Number(_))) ==> relevance_of(v) == 0,
{
}

/// What a search gave is shown in full, in order, with the number of all that
/// match where it is known.
pub proof fn law_results_are_shown_in_full(r: PaperSearchResults)
    ensures
        results_json(r) matches JsonModel::Object(m) && {
            &&& m.len() == 2
            &&& m[0].0 == "results"@ && (m[0].1 matches JsonModel::Array(v) && v.len()
                == r.results@.len() && forall|i: int|
                0 <= i < v.len() ==> #[trigger] v[i] == hit_json(r.results@[i]))
            &&& m[1].0 == "total_results"@
            &&& r.total_results is None ==> m[1].1 is Null
            &&& r.total_results matches Some(n) ==> m[1].1 == JsonModel::Number(
                JsonNumber::Unsigned(n),
            )
        },
{
}

/// The identifier in an address is what stands behind `arxiv.org/abs/` up to a
/// question mark, a hash or a space, without what follows a slash that is not its
/// own.
pub proof fn law_addresses_name_their_id(
    before: Seq<char>,
    id: Seq<char>,
    more: Seq<char>,
    rest: Seq<char>,
)
    requires
        refs::arxiv_defect(refs::strip_scheme(id, "arxiv:"@)) is None,
        forall|i: int|
            0 <= i < id.len() ==> #[trigger] id[i] != '?' && id[i] != '#' && id[i] != ' ',
        forall|i: int|
            0 <= i < more.len() ==> #[trigger] more[i] != '?' && more[i] != '#' && more[i] != ' ',
        rest.len() > 0 ==> rest[0] == '?' || rest[0] == '#' || rest[0] == ' ',
        forall|j: int|
            0 <= j < before.len() ==> !#[trigger] text::text_at(
                before + "arxiv.org/abs/"@ + (id + more + rest),
                "arxiv.org/abs/"@,
                j,
            ),
    ensures
        more.len() == 0 ==> arxiv_in_url(before + "arxiv.org/abs/"@ + (id + more + rest)) == Some(
            id,
        ),
        more.len() > 0 && more[0] == '/' && !id.contains('/') && refs::arxiv_defect(
            refs::strip_scheme(id + more, "arxiv:"@),
        ) is Some ==> arxiv_in_url(before + "arxiv.org/abs/"@ + (id + more + rest)) == Some(id),
        (more.len() > 0 && more[0] == '/' && exists|k: int|
            #[trigger] lone_slash(id, k) && refs::arxiv_defect(
                refs::strip_scheme(id.take(k), "arxiv:"@),
            ) is Some) && refs::arxiv_defect(refs::strip_scheme(id + more, "arxiv:"@)) is Some
            ==> arxiv_in_url(before + "arxiv.org/abs/"@ + (id + more + rest)) == Some(id),
{
    reveal_strlit("arxiv.org/abs/");
    let p = "arxiv.org/abs/"@;
    let tail = id + more + rest;
    let url = before + p + tail;
    assert(url.subrange(before.len() as int, (before.len() + 14) as int) =~= p);
    assert(text::text_at(url, p, before.len() as int));
    text::law_the_first_place_is_the_least(url, p, before.len() as int);
    assert(url.skip((before.len() + 14) as int) =~= tail);
    let stops = |c: char| ends_id(c);
    let s = id + more;
    assert forall|i: int| 0 <= i < s.len() implies !stops(#[trigger] tail[i]) by {
        if i < id.len() {
            assert(tail[i] == id[i]);
        } else {
            assert(tail[i] == more[i - id.len()]);
        }
    }
    if rest.len() > 0 {
        assert(tail[s.len() as int] == rest[0]);
    }
    text::lemma_text_until(tail, stops, s.len() as int);
    assert(tail.take(s.len() as int) =~= s);
    assert(arxiv_in_url(url) == leading_arxiv(s));
    if more.len() == 0 {
        assert(s =~= id);
    } else if more[0] == '/' {
        assert(s[id.len() as int] == '/');
        assert(s.take(id.len() as int) =~= id);
        if !id.contains('/') {
            assert forall|i: int| 0 <= i < id.len() implies #[trigger] s[i] != '/' by {
                assert(s[i] == id[i]);
            }
            text::lemma_first_at(s, '/', id.len() as int);
        }
        if exists|k: int|
            #[trigger] lone_slash(id, k) && refs::arxiv_defect(
                refs::strip_scheme(id.take(k), "arxiv:"@),
            ) is Some {
            let k = choose|k: int|
                #[trigger] lone_slash(id, k) && refs::arxiv_defect(
                    refs::strip_scheme(id.take(k), "arxiv:"@),
                ) is Some;
            assert(s[k] == id[k]);
            assert forall|i: int| 0 <= i < k implies #[trigger] s[i] != '/' by {
                assert(s[i] == id[i]);
            }
            text::lemma_first_at(s, '/', k);
            assert(s.take(k) =~= id.take(k));
            let after = s.skip(k + 1);
            assert forall|i: int| 0 <= i < id.len() - k - 1 implies #[trigger] after[i] != '/' by {
                assert(after[i] == id[i + k + 1]);
            }
            assert(after[id.len() - k - 1] == '/');
            text::lemma_first_at(after, '/', id.len() - k - 1);
            assert(second_slash(s) == id.len());
        }
    }
}

/// The one slash of a text.
pub open spec fn lone_slash(s: Seq<char>, k: int) -> bool {
    0 <= k < s.len() && s[k] == '/' && forall|i: int|
        0 <= i < s.len() && i != k ==> #[trigger] s[i] != '/'
}

/// A location names its identifier by its page, and by its document where its
/// page names none.
pub proof fn law_locations_name_their_id(loc: Json, page: String, document: String)
    requires
        loc.member("landing_page_url"@) == Some(Json::Text(page)),
        loc.member("pdf_url"@) == Some(Json::Text(document)),
    ensures
        arxiv_in_url(page@) is Some ==> arxiv_of_location(loc) == arxiv_in_url(page@),
        arxiv_in_url(page@) is None ==> arxiv_of_location(loc) == arxiv_in_url(document@),
{
}

} // verus!

//! The metadata of a paper: resolved, completed for a citation, and stored.

use crate::clock::Timestamp;
use crate::json;
use crate::json::Json;
use crate::json::JsonModel;
use crate::orchestrator::extract;
use crate::orchestrator::extract::FieldsModel;
use crate::orchestrator::extract::NameStyle;
use crate::refs::ArxivId;
use crate::refs::Doi;
use crate::refs::Ref;
use crate::refs::RefModel;
use crate::source::FetchError;
use crate::text;
use crate::SCHEMA_VERSION;
use vstd::prelude::*;

verus! {

/// What a resolver found, and where an open copy may be. The copy is never
/// fetched by the resolver.
#[derive(Debug, PartialEq, Eq)]
#[non_exhaustive]
pub struct MetadataOnlyOutcome {
    /// The source that answered.
    pub source: String,
    /// The resolver under which the record is accounted for.
    pub resolver_profile: String,
    /// License of the open copy, where it is known.
    pub license: Option<String>,
    /// Where an open copy may be.
    pub oa_url: Option<String>,
    /// Open-access status, where it is known.
    pub oa_status: Option<String>,
    /// The record as the source gave it.
    pub metadata: Json,
}

/// An outcome as JSON. The record stands in it as the source gave it.
pub open spec fn outcome_json(o: MetadataOnlyOutcome) -> JsonModel {
    JsonModel::Object(
        seq![
            ("source"@, JsonModel::Text(o.source@)),
            ("resolver_profile"@, JsonModel::Text(o.resolver_profile@)),
            ("license"@, json::text_or_null(text::opt_view(o.license))),
            ("oa_url"@, json::text_or_null(text::opt_view(o.oa_url))),
            ("oa_status"@, json::text_or_null(text::opt_view(o.oa_status))),
            ("metadata"@, o.metadata@),
        ],
    )
}

/// What [`MetadataOnlyOutcome::from_value`] makes of a value: an outcome where
/// the source, the resolver and the record are there and no field is of a wrong
/// kind. License, address and status may be missing; other members do not
/// matter.
pub open spec fn outcome_read(v: Json, r: Option<MetadataOnlyOutcome>) -> bool {
    let source = json::opt_text(v.member("source"@));
    let profile = json::opt_text(v.member("resolver_profile"@));
    let license = json::optional_field(v.member("license"@));
    let oa_url = json::optional_field(v.member("oa_url"@));
    let oa_status = json::optional_field(v.member("oa_status"@));
    let record = v.member("metadata"@);
    if source is Some && profile is Some && license is Ok && oa_url is Ok && oa_status is Ok
        && record is Some {
        r matches Some(o) && {
            &&& o.source@ == source->Some_0
            &&& o.resolver_profile@ == profile->Some_0
            &&& text::opt_view(o.license) == license->Ok_0
            &&& text::opt_view(o.oa_url) == oa_url->Ok_0
            &&& text::opt_view(o.oa_status) == oa_status->Ok_0
            &&& o.metadata == record->Some_0
        }
    } else {
        r is None
    }
}

impl MetadataOnlyOutcome {
    /// Reads an outcome from JSON.
    pub fn from_value(value: Json) -> (r: Option<MetadataOnlyOutcome>)
        ensures
            outcome_read(value, r),
    {
        let source = json::owned_text(value.text_at("source"));
        let profile = json::owned_text(value.text_at("resolver_profile"));
        let license = json::read_optional_field(value.get("license"));
        let oa_url = json::read_optional_field(value.get("oa_url"));
        let oa_status = json::read_optional_field(value.get("oa_status"));
        let metadata = value.into_member("metadata");
        match (source, profile, license, oa_url, oa_status, metadata) {
            (
                Some(source),
                Some(resolver_profile),
                Ok(license),
                Ok(oa_url),
                Ok(oa_status),
                Some(metadata),
            ) => Some(
                MetadataOnlyOutcome {
                    source,
                    resolver_profile,
                    license,
                    oa_url,
                    oa_status,
                    metadata,
                },
            ),
            _ => None,
        }
    }

    /// The outcome as JSON.
    pub fn into_value(self) -> (r: Json)
        ensures
            r@ == outcome_json(self),
    {
        let mut m: Vec<(String, Json)> = Vec::new();
        json::put(&mut m, "source", json::text_value(self.source.as_str()));
        json::put(&mut m, "resolver_profile", json::text_value(self.resolver_profile.as_str()));
        json::put(&mut m, "license", json::text_or_null_value(&self.license));
        json::put(&mut m, "oa_url", json::text_or_null_value(&self.oa_url));
        json::put(&mut m, "oa_status", json::text_or_null_value(&self.oa_status));
        json::put(&mut m, "metadata", self.metadata);
        assert(json::members_model(m@) =~= outcome_json(self)->Object_0);
        json::object(m)
    }

    /// Makes an outcome of a source that accounts for itself.
    pub fn new(
        source: &str,
        license: Option<String>,
        oa_url: Option<String>,
        oa_status: Option<String>,
        metadata: Json,
    ) -> (r: MetadataOnlyOutcome)
        ensures
            r.source@ == source@,
            r.resolver_profile@ == source@,
            r.license == license,
            r.oa_url == oa_url,
            r.oa_status == oa_status,
            r.metadata == metadata,
    {
        MetadataOnlyOutcome {
            source: source.to_string(),
            resolver_profile: source.to_string(),
            license,
            oa_url,
            oa_status,
            metadata,
        }
    }
}

/// The record of a source that answered, `null` where it gave none.
pub open spec fn record_or_null(record: Option<Json>) -> Json {
    match record {
        Some(v) => v,
        None => Json::Null,
    }
}

fn or_null(record: Option<Json>) -> (r: Json)
    ensures
        r == record_or_null(record),
{
    match record {
        Some(v) => v,
        None => Json::Null,
    }
}

/// The outcome of an arXiv resolution: preprints are open by definition.
pub fn arxiv_outcome(metadata: Json) -> (r: MetadataOnlyOutcome)
    ensures
        r.source@ == "arxiv"@,
        r.resolver_profile@ == "arxiv"@,
        text::opt_view(r.license) == Some("arxiv-default"@),
        r.oa_url is None,
        text::opt_view(r.oa_status) == Some("green"@),
        r.metadata == metadata,
{
    MetadataOnlyOutcome::new(
        "arxiv",
        Some("arxiv-default".to_string()),
        None,
        Some("green".to_string()),
        metadata,
    )
}

/// The outcome is that of a Crossref record.
pub open spec fn from_crossref(r: MetadataOnlyOutcome, record: Option<Json>) -> bool {
    &&& r.source@ == "crossref"@
    &&& r.resolver_profile@ == "crossref"@
    &&& r.license is None
    &&& text::opt_view(r.oa_url) == extract::crossref_oa_url(record_or_null(record))
    &&& r.oa_status is None
    &&& r.metadata == record_or_null(record)
}

/// The outcome is that of an Unpaywall record; a license that is not known is
/// none.
pub open spec fn from_unpaywall(
    r: MetadataOnlyOutcome,
    record: Option<Json>,
    license: Seq<char>,
) -> bool {
    &&& r.source@ == "unpaywall"@
    &&& r.resolver_profile@ == "unpaywall"@
    &&& text::opt_view(r.license) == if license == "unknown"@ {
        None
    } else {
        Some(license)
    }
    &&& text::opt_view(r.oa_url) == extract::unpaywall_oa_url(record_or_null(record))
    &&& text::opt_view(r.oa_status) == extract::unpaywall_oa_status(record_or_null(record))
    &&& r.metadata == record_or_null(record)
}

/// What Crossref's reply gives for a DOI. An error means that Unpaywall is to
/// be asked.
pub fn after_crossref(reply: Result<Option<Json>, FetchError>) -> (r: Result<
    MetadataOnlyOutcome,
    FetchError,
>)
    ensures
        match reply {
            Ok(record) => r is Ok && from_crossref(r->Ok_0, record),
            Err(e) => r == Err::<MetadataOnlyOutcome, FetchError>(e),
        },
{
    match reply {
        Ok(record) => {
            let metadata = or_null(record);
            let oa_url = extract::extract_crossref_oa_url(&metadata);
            Ok(MetadataOnlyOutcome::new("crossref", None, oa_url, None, metadata))
        },
        Err(e) => Err(e),
    }
}

/// What the replies give for a DOI once Crossref failed: Unpaywall's record,
/// or Crossref's error where Unpaywall failed too.
pub fn after_unpaywall(
    crossref_error: FetchError,
    reply: Result<(Option<Json>, String), FetchError>,
) -> (r: Result<MetadataOnlyOutcome, FetchError>)
    ensures
        match reply {
            Ok((record, license)) => r is Ok && from_unpaywall(r->Ok_0, record, license@),
            Err(_) => r == Err::<MetadataOnlyOutcome, FetchError>(crossref_error),
        },
{
    match reply {
        Ok((record, license)) => {
            let metadata = or_null(record);
            let oa_url = extract::extract_unpaywall_oa_url(&metadata);
            let oa_status = extract::extract_unpaywall_oa_status(&metadata);
            let known = if text::same(license.as_str(), "unknown") {
                None
            } else {
                Some(license)
            };
            Ok(MetadataOnlyOutcome::new("unpaywall", known, oa_url, oa_status, metadata))
        },
        Err(_) => Err(crossref_error),
    }
}

/// Whether a resolver is pointed at another base; then its records are not to
/// be shared through the cache.
pub fn resolver_base_overridden(crossref: bool, unpaywall: bool, arxiv: bool) -> (r: bool)
    ensures
        r == (crossref || unpaywall || arxiv),
{
    crossref || unpaywall || arxiv
}

/// The cache to use: none where a resolver is pointed at another base.
pub fn usable_cache_root(overridden: bool, root: Option<String>) -> (r: Option<String>)
    ensures
        r == if overridden {
            None
        } else {
            root
        },
{
    if overridden {
        None
    } else {
        root
    }
}

// ---------------------------------------------------------------------------
// Stored metadata
// ---------------------------------------------------------------------------

/// How a stored entry came to be.
#[derive(Debug, Clone, PartialEq, Eq)]
pub struct DoigetExtension {
    /// When it was fetched.
    pub fetched_at: Timestamp,
    /// The source of what is stored.
    pub source: String,
    /// License.
    pub license: String,
    /// Open-access status.
    pub oa_status: Option<String>,
    /// Size of the document, 0 where there is none.
    pub size_bytes: u64,
    /// The call that asked for it.
    pub mcp_call_id: Option<String>,
    /// Tags.
    pub tags: Vec<String>,
    /// Collections.
    pub collections: Vec<String>,
    /// Annotation.
    pub annotation: Option<String>,
}

/// The metadata of a stored entry.
#[derive(Debug, PartialEq, Eq)]
pub struct Metadata {
    /// Version of the layout.
    pub schema_version: String,
    /// Title.
    pub title: String,
    /// Authors.
    pub authors: Vec<String>,
    /// Year of publication.
    pub year: Option<i32>,
    /// DOI.
    pub doi: Option<Doi>,
    /// arXiv id.
    pub arxiv_id: Option<ArxivId>,
    /// arXiv categories, the primary one first.
    pub arxiv_categories: Vec<String>,
    /// Abstract.
    pub abstract_: Option<String>,
    /// Where it was published.
    pub venue: Option<String>,
    /// Volume.
    pub volume: Option<String>,
    /// Issue.
    pub issue: Option<String>,
    /// Pages.
    pub pages: Option<String>,
    /// Publisher.
    pub publisher: Option<String>,
    /// ISSN.
    pub issn: Option<String>,
    /// ISBN.
    pub isbn: Option<String>,
    /// Kind of work.
    pub type_: Option<String>,
    /// Keywords.
    pub keywords: Vec<String>,
    /// Where it is found.
    pub url: Option<String>,
    /// Path of the document below the store.
    pub pdf_path: Option<String>,
    /// How the entry came to be.
    pub doiget: Option<DoigetExtension>,
}

/// What an extension holds.
pub struct ExtensionModel {
    pub fetched_at: Timestamp,
    pub source: Seq<char>,
    pub license: Seq<char>,
    pub oa_status: Option<Seq<char>>,
    pub size_bytes: u64,
    pub mcp_call_id: Option<Seq<char>>,
    pub tags: Seq<Seq<char>>,
    pub collections: Seq<Seq<char>>,
    pub annotation: Option<Seq<char>>,
}

/// What metadata holds.
pub struct MetadataModel {
    pub schema_version: Seq<char>,
    pub title: Seq<char>,
    pub authors: Seq<Seq<char>>,
    pub year: Option<i32>,
    pub doi: Option<Seq<char>>,
    pub arxiv_id: Option<Seq<char>>,
    pub arxiv_categories: Seq<Seq<char>>,
    pub abstract_: Option<Seq<char>>,
    pub venue: Option<Seq<char>>,
    pub volume: Option<Seq<char>>,
    pub issue: Option<Seq<char>>,
    pub pages: Option<Seq<char>>,
    pub publisher: Option<Seq<char>>,
    pub issn: Option<Seq<char>>,
    pub isbn: Option<Seq<char>>,
    pub type_: Option<Seq<char>>,
    pub keywords: Seq<Seq<char>>,
    pub url: Option<Seq<char>>,
    pub pdf_path: Option<Seq<char>>,
    pub doiget: Option<ExtensionModel>,
}

impl View for DoigetExtension {
    type V = ExtensionModel;

    open spec fn view(&self) -> ExtensionModel {
        ExtensionModel {
            fetched_at: self.fetched_at,
            source: self.source@,
            license: self.license@,
            oa_status: text::opt_view(self.oa_status),
            size_bytes: self.size_bytes,
            mcp_call_id: text::opt_view(self.mcp_call_id),
            tags: text::views(self.tags@),
            collections: text::views(self.collections@),
            annotation: text::opt_view(self.annotation),
        }
    }
}

impl View for Metadata {
    type V = MetadataModel;

    open spec fn view(&self) -> MetadataModel {
        MetadataModel {
            schema_version: self.schema_version@,
            title: self.title@,
            authors: text::views(self.authors@),
            year: self.year,
            doi: match self.doi {
                Some(d) => Some(d@),
                None => None,
            },
            arxiv_id: match self.arxiv_id {
                Some(a) => Some(a@),
                None => None,
            },
            arxiv_categories: text::views(self.arxiv_categories@),
            abstract_: text::opt_view(self.abstract_),
            venue: text::opt_view(self.venue),
            volume: text::opt_view(self.volume),
            issue: text::opt_view(self.issue),
            pages: text::opt_view(self.pages),
            publisher: text::opt_view(self.publisher),
            issn: text::opt_view(self.issn),
            isbn: text::opt_view(self.isbn),
            type_: text::opt_view(self.type_),
            keywords: text::views(self.keywords@),
            url: text::opt_view(self.url),
            pdf_path: text::opt_view(self.pdf_path),
            doiget: match self.doiget {
                Some(x) => Some(x@),
                None => None,
            },
        }
    }
}

/// The extension of an entry that no user touched yet.
pub open spec fn fresh_extension(
    fetched_at: Timestamp,
    source: Seq<char>,
    license: Seq<char>,
    oa_status: Option<Seq<char>>,
    size_bytes: u64,
) -> ExtensionModel {
    ExtensionModel {
        fetched_at,
        source,
        license,
        oa_status,
        size_bytes,
        mcp_call_id: None,
        tags: Seq::empty(),
        collections: Seq::empty(),
        annotation: None,
    }
}

/// The extension of an entry that no user touched yet.
pub(crate) fn new_extension(
    fetched_at: Timestamp,
    source: &str,
    license: &str,
    oa_status: Option<String>,
    size_bytes: u64,
) -> (r: DoigetExtension)
    ensures
        r@ == fresh_extension(
            fetched_at,
            source@,
            license@,
            text::opt_view(oa_status),
            size_bytes,
        ),
{
    let r = DoigetExtension {
        fetched_at,
        source: source.to_string(),
        license: license.to_string(),
        oa_status,
        size_bytes,
        mcp_call_id: None,
        tags: Vec::new(),
        collections: Vec::new(),
        annotation: None,
    };
    assert(r@.tags =~= Seq::<Seq<char>>::empty());
    assert(r@.collections =~= Seq::<Seq<char>>::empty());
    r
}

/// A copy of an optional string.
pub(crate) fn copy_opt(s: &Option<String>) -> (r: Option<String>)
    ensures
        text::opt_view(r) == text::opt_view(*s),
{
    match s {
        Some(x) => Some(x.clone()),
        None => None,
    }
}

/// Metadata of which nothing is known but the title and the authors.
pub open spec fn bare_metadata(title: Seq<char>, authors: Seq<Seq<char>>) -> MetadataModel {
    MetadataModel {
        schema_version: "1.0"@,
        title,
        authors,
        year: None,
        doi: None,
        arxiv_id: None,
        arxiv_categories: Seq::empty(),
        abstract_: None,
        venue: None,
        volume: None,
        issue: None,
        pages: None,
        publisher: None,
        issn: None,
        isbn: None,
        type_: None,
        keywords: Seq::empty(),
        url: None,
        pdf_path: None,
        doiget: None,
    }
}

/// Metadata of which nothing is known but the title and the authors.
pub(crate) fn new_metadata(title: String, authors: Vec<String>) -> (r: Metadata)
    ensures
        r@ == bare_metadata(title@, text::views(authors@)),
{
    let r = Metadata {
        schema_version: SCHEMA_VERSION.to_string(),
        title,
        authors,
        year: None,
        doi: None,
        arxiv_id: None,
        arxiv_categories: Vec::new(),
        abstract_: None,
        venue: None,
        volume: None,
        issue: None,
        pages: None,
        publisher: None,
        issn: None,
        isbn: None,
        type_: None,
        keywords: Vec::new(),
        url: None,
        pdf_path: None,
        doiget: None,
    };
    assert(r@.arxiv_categories =~= Seq::<Seq<char>>::empty());
    assert(r@.keywords =~= Seq::<Seq<char>>::empty());
    r
}

/// The metadata that is stored for a resolved record: its title, or the
/// reference where it has none; its authors; and where an open copy may be.
pub open spec fn resolved_metadata(m: RefModel, o: MetadataOnlyOutcome, now: Timestamp) -> MetadataModel {
    MetadataModel {
        doi: match m {
            RefModel::Doi(d) => Some(d),
            RefModel::Arxiv(_) => None,
        },
        arxiv_id: match m {
            RefModel::Doi(_) => None,
            RefModel::Arxiv(a) => Some(a),
        },
        url: text::opt_view(o.oa_url),
        doiget: Some(
            fresh_extension(
                now,
                o.source@,
                match o.license {
                    Some(l) => l@,
                    None => "unknown"@,
                },
                text::opt_view(o.oa_status),
                0,
            ),
        ),
        ..bare_metadata(
            match extract::title_in(o.metadata) {
                Some(t) => t,
                None => m.id(),
            },
            extract::authors_in(o.metadata),
        )
    }
}

/// The metadata that is stored for a resolved record.
pub fn build_metadata_only_metadata(ref_: &Ref, outcome: &MetadataOnlyOutcome, now: Timestamp) -> (r:
    Metadata)
    ensures
        r@ == resolved_metadata(ref_@, *outcome, now),
{
    let title = match extract::extract_metadata_title(&outcome.metadata) {
        Some(t) => t,
        None => ref_.as_input_str().to_string(),
    };
    let mut m = new_metadata(title, extract::extract_metadata_authors(&outcome.metadata));
    match ref_ {
        Ref::Doi(d) => {
            m.doi = Some(d.clone());
        },
        Ref::Arxiv(a) => {
            m.arxiv_id = Some(a.clone());
        },
    }
    m.url = copy_opt(&outcome.oa_url);
    let license = match &outcome.license {
        Some(l) => l.as_str(),
        None => "unknown",
    };
    m.doiget = Some(
        new_extension(now, outcome.source.as_str(), license, copy_opt(&outcome.oa_status), 0),
    );
    m
}

/// Metadata completed from the fields of a Crossref record.
pub open spec fn with_crossref(m: MetadataModel, msg: Json) -> MetadataModel {
    let f: FieldsModel = extract::crossref_fields(msg);
    MetadataModel {
        title: match f.title {
            Some(t) => t,
            None => m.title,
        },
        authors: if f.authors.len() > 0 {
            f.authors
        } else {
            m.authors
        },
        year: f.year,
        venue: f.venue,
        volume: f.volume,
        issue: f.issue,
        pages: f.pages,
        type_: f.type_,
        publisher: extract::text_of(msg, "publisher"@),
        issn: extract::first_text_of(msg, "ISSN"@),
        ..m
    }
}

/// Metadata completed from an arXiv record.
pub open spec fn with_arxiv(m: MetadataModel, atom: Json) -> MetadataModel {
    MetadataModel {
        year: extract::published_year(atom),
        arxiv_categories: extract::names_at(NameStyle::Plain, atom, "categories"@),
        ..m
    }
}

/// The metadata of a citation: what is stored, completed from the record where
/// the source is one whose fields are known.
pub open spec fn cited_metadata(m: RefModel, o: MetadataOnlyOutcome, now: Timestamp) -> MetadataModel {
    let base = resolved_metadata(m, o, now);
    if o.source@ == "crossref"@ {
        with_crossref(base, o.metadata)
    } else if o.source@ == "arxiv"@ {
        with_arxiv(base, o.metadata)
    } else {
        base
    }
}

/// The metadata of a citation, resolved at the given time.
pub fn cite_metadata_at(ref_: &Ref, outcome: &MetadataOnlyOutcome, now: Timestamp) -> (r: Metadata)
    ensures
        r@ == cited_metadata(ref_@, *outcome, now),
{
    proof {
        reveal_strlit("crossref");
        reveal_strlit("arxiv");
    }
    let mut m = build_metadata_only_metadata(ref_, outcome, now);
    let ghost base = m@;
    if text::same(outcome.source.as_str(), "crossref") {
        let f = extract::extract_crossref_fields(&outcome.metadata);
        match f.title {
            Some(t) => {
                m.title = t;
            },
            None => {},
        }
        if f.authors.len() > 0 {
            m.authors = f.authors;
        }
        m.year = f.year;
        m.venue = f.venue;
        m.volume = f.volume;
        m.issue = f.issue;
        m.pages = f.pages;
        m.type_ = f.type_;
        m.publisher = extract::text_copy(&outcome.metadata, "publisher");
        m.issn = extract::first_text(&outcome.metadata, "ISSN");
    } else if text::same(outcome.source.as_str(), "arxiv") {
        m.year = extract::extract_published_year(&outcome.metadata);
        m.arxiv_categories = extract::extract_arxiv_categories(&outcome.metadata);
    }
    m
}

/// The metadata of a citation, resolved now.
#[must_use]
pub fn cite_metadata(ref_: &Ref, outcome: &MetadataOnlyOutcome) -> (r: Metadata)
    ensures
        exists|now: Timestamp| #[trigger] cited_metadata(ref_@, *outcome, now) == r@,
{
    let now = Timestamp::now();
    cite_metadata_at(ref_, outcome, now)
}

// ---------------------------------------------------------------------------
// Laws
// ---------------------------------------------------------------------------

/// An outcome that was written is read back: the same texts, and a record that
/// holds the same.
pub proof fn law_outcomes_are_read_back(
    o: MetadataOnlyOutcome,
    v: Json,
    r: Option<MetadataOnlyOutcome>,
)
    requires
        v@ == outcome_json(o),
        outcome_read(v, r),
    ensures
        r is Some,
        r->Some_0.source@ == o.source@,
        r->Some_0.resolver_profile@ == o.resolver_profile@,
        text::opt_view(r->Some_0.license) == text::opt_view(o.license),
        text::opt_view(r->Some_0.oa_url) == text::opt_view(o.oa_url),
        text::opt_view(r->Some_0.oa_status) == text::opt_view(o.oa_status),
        r->Some_0.metadata@ == o.metadata@,
{
    reveal_strlit("source");
    reveal_strlit("resolver_profile");
    reveal_strlit("license");
    reveal_strlit("oa_url");
    reveal_strlit("oa_status");
    reveal_strlit("metadata");
    let m = v->Object_0@;
    let w = outcome_json(o)->Object_0;
    assert(json::json_model(v)->Object_0.len() == m.len());
    assert forall|i: int| 0 <= i < 6 implies (#[trigger] m[i]).0@ == w[i].0 && m[i].1@
        == w[i].1 by {
        assert(json::json_model(v)->Object_0[i] == w[i]);
    }
    let d1 = m.drop_first();
    let d2 = d1.drop_first();
    let d3 = d2.drop_first();
    let d4 = d3.drop_first();
    let d5 = d4.drop_first();
    assert(d1[0] == m[1] && d2[0] == m[2] && d3[0] == m[3] && d4[0] == m[4] && d5[0] == m[5]);
    reveal_with_fuel(json::find_member, 7);
    assert("source"@.len() == 6 && "resolver_profile"@.len() == 16 && "license"@.len() == 7);
    assert("oa_url"@.len() == 6 && "oa_status"@.len() == 9 && "metadata"@.len() == 8);
    assert("source"@[0] != "oa_url"@[0]);
    assert(v.member("source"@) == Some(m[0].1));
    assert(v.member("resolver_profile"@) == Some(m[1].1));
    assert(v.member("license"@) == Some(m[2].1));
    assert(v.member("oa_url"@) == Some(m[3].1));
    assert(v.member("oa_status"@) == Some(m[4].1));
    assert(v.member("metadata"@) == Some(m[5].1));
}

/// What is stored names the reference that was asked for, and its title is
/// never empty.
pub proof fn law_stored_entries_are_valid(m: RefModel, o: MetadataOnlyOutcome, now: Timestamp)
    requires
        m.valid(),
    ensures
        resolved_metadata(m, o, now).title.len() > 0,
        m matches RefModel::Doi(d) ==> resolved_metadata(m, o, now).doi == Some(d)
            && resolved_metadata(m, o, now).arxiv_id is None,
        m matches RefModel::Arxiv(a) ==> resolved_metadata(m, o, now).arxiv_id == Some(a)
            && resolved_metadata(m, o, now).doi is None,
{
    extract::law_titles_are_not_blank(o.metadata);
    assert(m.id().len() > 0) by {
        match m {
            RefModel::Doi(d) => {
                crate::refs::lemma_doi_chars(d);
            },
            RefModel::Arxiv(a) => {
                crate::refs::lemma_arxiv_chars(a);
            },
        }
    }
}

/// A source whose fields have no known place adds nothing to a citation.
pub proof fn law_unknown_sources_add_nothing(m: RefModel, o: MetadataOnlyOutcome, now: Timestamp)
    requires
        o.source@ != "crossref"@,
        o.source@ != "arxiv"@,
    ensures
        cited_metadata(m, o, now) == resolved_metadata(m, o, now),
{
}

/// What is resolved tells the reference, the title, or the reference where there
/// is none, the authors, the open link, and where the record comes from; nothing
/// is counted as stored.
pub proof fn law_resolved_records_tell_their_source(
    m: RefModel,
    o: MetadataOnlyOutcome,
    now: Timestamp,
)
    ensures
        ({
            let r = resolved_metadata(m, o, now);
            &&& r.schema_version == "1.0"@
            &&& extract::title_in(o.metadata) matches Some(t) ==> r.title == t
            &&& extract::title_in(o.metadata) is None ==> (m matches RefModel::Doi(d) ==> r.title
                == d) && (m matches RefModel::Arxiv(a) ==> r.title == a)
            &&& r.authors == extract::authors_in(o.metadata)
            &&& o.oa_url matches Some(u) ==> r.url == Some(u@)
            &&& o.oa_url is None ==> r.url is None
            &&& r.pdf_path is None
            &&& r.year is None && r.venue is None && r.volume is None && r.issue is None
            &&& r.pages is None && r.publisher is None && r.issn is None && r.type_ is None
            &&& r.doiget matches Some(x) && {
                &&& x.fetched_at == now
                &&& x.source == o.source@
                &&& x.size_bytes == 0
                &&& o.license matches Some(l) ==> x.license == l@
                &&& o.license is None ==> x.license == "unknown"@
                &&& o.oa_status matches Some(s) ==> x.oa_status == Some(s@)
                &&& o.oa_status is None ==> x.oa_status is None
            }
        }),
{
}

/// A citation from Crossref has what the record says: each field from its own
/// member, with the title and the authors of the resolution where the record has
/// none; all else is left as it was resolved.
pub proof fn law_crossref_citations_say_what_the_record_says(
    m: RefModel,
    o: MetadataOnlyOutcome,
    now: Timestamp,
    s: Seq<char>,
    issns: Vec<Json>,
)
    requires
        o.source@ == "crossref"@,
    ensures
        ({
            let f = extract::crossref_fields(o.metadata);
            let base = resolved_metadata(m, o, now);
            let r = cited_metadata(m, o, now);
            &&& f.title matches Some(t) ==> r.title == t
            &&& f.title is None ==> r.title == base.title
            &&& f.authors.len() > 0 ==> r.authors == f.authors
            &&& f.authors.len() == 0 ==> r.authors == base.authors
            &&& r.year == f.year && r.venue == f.venue && r.volume == f.volume
            &&& r.issue == f.issue && r.pages == f.pages && r.type_ == f.type_
            &&& extract::says(o.metadata, "publisher"@, s) ==> r.publisher == Some(s)
            &&& extract::silent_on(o.metadata, "publisher"@) ==> r.publisher is None
            &&& o.metadata.member("ISSN"@) == Some(Json::Array(issns)) && issns@.len() > 0
                && issns@[0] is Text ==> r.issn == Some(issns@[0]->Text_0@)
            &&& r.doi == base.doi && r.arxiv_id == base.arxiv_id && r.url == base.url
            &&& r.doiget == base.doiget && r.pdf_path == base.pdf_path
            &&& r.schema_version == base.schema_version && r.abstract_ == base.abstract_
        }),
{
}

/// A citation from arXiv has the year of the publication and the categories; all
/// else is left as it was resolved.
pub proof fn law_arxiv_citations_say_what_the_record_says(
    m: RefModel,
    o: MetadataOnlyOutcome,
    now: Timestamp,
    s: Seq<char>,
    categories: Vec<Json>,
)
    requires
        o.source@ == "arxiv"@,
    ensures
        ({
            let base = resolved_metadata(m, o, now);
            let r = cited_metadata(m, o, now);
            &&& extract::says(o.metadata, "published"@, s) ==> r.year == extract::rfc3339_year(s)
            &&& extract::silent_on(o.metadata, "published"@) ==> r.year is None
            &&& o.metadata.member("categories"@) == Some(Json::Array(categories))
                ==> r.arxiv_categories == extract::names_in(NameStyle::Plain, categories@)
            &&& o.metadata.member("categories"@) is None ==> r.arxiv_categories.len() == 0
            &&& r.title == base.title && r.authors == base.authors && r.url == base.url
            &&& r.doi == base.doi && r.arxiv_id == base.arxiv_id && r.doiget == base.doiget
        }),
{
    reveal_strlit("arxiv");
    reveal_strlit("crossref");
    assert("arxiv"@.len() != "crossref"@.len());
}

/// A resolution tells which source answered and what it said: Crossref with the
/// first open link of its record, Unpaywall with the best location, its status
/// and its license, where that is known.
pub proof fn law_resolutions_tell_who_answered(
    r: MetadataOnlyOutcome,
    record: Json,
    license: Seq<char>,
)
    ensures
        from_crossref(r, Some(record)) ==> r.source@ == "crossref"@ && r.resolver_profile@
            == "crossref"@ && r.metadata == record && r.license is None && r.oa_status is None
            && text::opt_view(r.oa_url) == extract::crossref_oa_url(record),
        from_unpaywall(r, Some(record), license) ==> r.source@ == "unpaywall"@
            && r.resolver_profile@ == "unpaywall"@ && r.metadata == record && text::opt_view(
            r.oa_url,
        ) == extract::unpaywall_oa_url(record) && text::opt_view(r.oa_status)
            == extract::unpaywall_oa_status(record) && (license == "unknown"@ ==> r.license is None)
            && (license != "unknown"@ ==> text::opt_view(r.license) == Some(license)),
        from_crossref(r, None) ==> r.metadata == Json::Null,
        from_unpaywall(r, None, license) ==> r.metadata == Json::Null,
{
}

} // verus!

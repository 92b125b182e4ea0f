//! The fetch of one paper: what is stored for it, and what is told of it.

use crate::canonical::SourceType;
use crate::clock::Timestamp;
use crate::dry_run;
use crate::dry_run::FetchPlan;
use crate::json::Json;
use crate::orchestrator::attempts;
use crate::orchestrator::attempts::AttemptModel;
use crate::orchestrator::attempts::SourceAttempt;
use crate::orchestrator::audit;
use crate::orchestrator::chain::SourceFailure;
use crate::orchestrator::extract;
use crate::orchestrator::extract::CrossrefFields;
use crate::orchestrator::extract::FieldsModel;
use crate::orchestrator::extract::NameStyle;
use crate::orchestrator::legs;
use crate::orchestrator::legs::LegModel;
use crate::orchestrator::legs::PdfLegStatus;
use crate::orchestrator::metadata;
use crate::orchestrator::metadata::Metadata;
use crate::orchestrator::metadata::MetadataModel;
use crate::refs::ArxivId;
use crate::refs::Doi;
use crate::refs::Ref;
use crate::refs::RefModel;
use crate::safekey;
use crate::source::FetchError;
use crate::text;
use crate::MAX_BATCH_REFS;
use crate::SCHEMA_VERSION;
use vstd::prelude::*;

verus! {

/// What a fetch stored, and how.
#[derive(Debug, PartialEq, Eq)]
#[non_exhaustive]
pub struct FetchPaperOutcome {
    /// The source of what was stored.
    pub source: String,
    /// The resolver under which it is accounted for.
    pub resolver_profile: String,
    /// License.
    pub license: String,
    /// Open-access status, where it is known.
    pub oa_status: Option<String>,
    /// Where it was stored.
    pub path: String,
    /// Size of the document, 0 where there is none.
    pub size_bytes: u64,
    /// Version of the layout.
    pub schema_version: String,
    /// What became of the document.
    pub pdf_leg: PdfLegStatus,
    /// Key of the stored entry.
    pub safekey: String,
    /// Digest of the audit identity, in hexadecimal.
    pub canonical_digest: String,
    /// Title.
    pub title: String,
    /// Authors.
    pub authors: Vec<String>,
    /// Year of publication, where it is known.
    pub year: Option<i32>,
    /// The sources that were asked, and those that were not.
    pub attempts: Vec<SourceAttempt>,
}

/// What an outcome holds.
pub struct PaperModel {
    pub source: Seq<char>,
    pub resolver_profile: Seq<char>,
    pub license: Seq<char>,
    pub oa_status: Option<Seq<char>>,
    pub path: Seq<char>,
    pub size_bytes: u64,
    pub schema_version: Seq<char>,
    pub pdf_leg: LegModel,
    pub safekey: Seq<char>,
    pub canonical_digest: Seq<char>,
    pub title: Seq<char>,
    pub authors: Seq<Seq<char>>,
    pub year: Option<i32>,
    pub attempts: Seq<AttemptModel>,
}

impl View for FetchPaperOutcome {
    type V = PaperModel;

    open spec fn view(&self) -> PaperModel {
        PaperModel {
            source: self.source@,
            resolver_profile: self.resolver_profile@,
            license: self.license@,
            oa_status: text::opt_view(self.oa_status),
            path: self.path@,
            size_bytes: self.size_bytes,
            schema_version: self.schema_version@,
            pdf_leg: self.pdf_leg@,
            safekey: self.safekey@,
            canonical_digest: self.canonical_digest@,
            title: self.title@,
            authors: text::views(self.authors@),
            year: self.year,
            attempts: attempts::trace(self.attempts@),
        }
    }
}

/// `n` zeros.
pub open spec fn zeros(n: nat) -> Seq<char> {
    Seq::new(n, |i: int| '0')
}

fn zeros_of(n: usize) -> (r: String)
    ensures
        r@ == zeros(n as nat),
{
    let mut v: Vec<char> = Vec::new();
    while v.len() < n
        invariant
            v@.len() <= n,
            forall|i: int| 0 <= i < v@.len() ==> v@[i] == '0',
        decreases n - v.len(),
    {
        v.push('0');
    }
    assert(v@ =~= zeros(n as nat));
    text::string_of(v.as_slice())
}

impl FetchPaperOutcome {
    /// A made-up outcome, for those who show outcomes to try their own code.
    pub fn for_test_synthetic(safekey: &str, source: &str, pdf_leg: PdfLegStatus) -> (r:
        FetchPaperOutcome)
        ensures
            r@ == (PaperModel {
                source: source@,
                resolver_profile: source@,
                license: "unknown"@,
                oa_status: None,
                path: "/tmp/"@ + safekey@ + ".pdf"@,
                size_bytes: 0,
                schema_version: "1.0"@,
                pdf_leg: pdf_leg@,
                safekey: safekey@,
                canonical_digest: zeros(64),
                title: Seq::empty(),
                authors: Seq::empty(),
                year: None,
                attempts: Seq::empty(),
            }),
    {
        let none: Vec<SourceAttempt> = Vec::new();
        assert(attempts::trace(none@) =~= Seq::<AttemptModel>::empty());
        Self::for_test_synthetic_with_attempts(safekey, source, pdf_leg, none)
    }

    /// A made-up outcome with a trace.
    pub fn for_test_synthetic_with_attempts(
        safekey: &str,
        source: &str,
        pdf_leg: PdfLegStatus,
        attempts: Vec<SourceAttempt>,
    ) -> (r: FetchPaperOutcome)
        ensures
            r@ == (PaperModel {
                source: source@,
                resolver_profile: source@,
                license: "unknown"@,
                oa_status: None,
                path: "/tmp/"@ + safekey@ + ".pdf"@,
                size_bytes: 0,
                schema_version: "1.0"@,
                pdf_leg: pdf_leg@,
                safekey: safekey@,
                canonical_digest: zeros(64),
                title: Seq::empty(),
                authors: Seq::empty(),
                year: None,
                attempts: attempts::trace(attempts@),
            }),
    {
        let r = FetchPaperOutcome {
            source: source.to_string(),
            resolver_profile: source.to_string(),
            license: "unknown".to_string(),
            oa_status: None,
            path: "/tmp/".to_string().concat(safekey).concat(".pdf"),
            size_bytes: 0,
            schema_version: SCHEMA_VERSION.to_string(),
            pdf_leg,
            safekey: safekey.to_string(),
            canonical_digest: zeros_of(64),
            title: String::new(),
            authors: Vec::new(),
            year: None,
            attempts,
        };
        assert(r@.title =~= Seq::<char>::empty());
        assert(r@.authors =~= Seq::<Seq<char>>::empty());
        r
    }
}

/// What a fetch comes to: the metadata and the document that are to be stored,
/// and what is told once they are.
pub struct Conclusion {
    /// The metadata.
    pub metadata: Metadata,
    /// The document.
    pub body: Option<Vec<u8>>,
    /// What is told.
    pub outcome: FetchPaperOutcome,
}

/// Where a fetch stores: the document, or the metadata where there is none.
pub open spec fn stored_path(root: Seq<char>, key: Seq<char>, with_pdf: bool) -> Seq<char> {
    if with_pdf {
        dry_run::pdf_path(root, key)
    } else {
        dry_run::metadata_path(root, key)
    }
}

/// What is told of an entry: its metadata say the rest.
pub open spec fn told(
    m: MetadataModel,
    class: SourceType,
    id: Seq<char>,
    key: Seq<char>,
    root: Seq<char>,
    with_pdf: bool,
    leg: LegModel,
    rows: Seq<AttemptModel>,
) -> PaperModel {
    let x = m.doiget->Some_0;
    PaperModel {
        source: x.source,
        resolver_profile: x.source,
        license: x.license,
        oa_status: x.oa_status,
        path: stored_path(root, key, with_pdf),
        size_bytes: x.size_bytes,
        schema_version: "1.0"@,
        pdf_leg: leg,
        safekey: key,
        canonical_digest: audit::identity_digest(class, id, x.source),
        title: m.title,
        authors: m.authors,
        year: m.year,
        attempts: rows,
    }
}

fn tell(
    m: &Metadata,
    class: SourceType,
    id: &str,
    key: &str,
    root: &str,
    with_pdf: bool,
    pdf_leg: PdfLegStatus,
    attempts: Vec<SourceAttempt>,
) -> (r: FetchPaperOutcome)
    requires
        m.doiget is Some,
    ensures
        r@ == told(
            m@,
            class,
            id@,
            key@,
            root@,
            with_pdf,
            pdf_leg@,
            attempts::trace(attempts@),
        ),
{
    let path = if with_pdf {
        dry_run::pdf_path_of(root, key)
    } else {
        dry_run::metadata_path_of(root, key)
    };
    let x = m.doiget.as_ref().unwrap();
    FetchPaperOutcome {
        source: x.source.clone(),
        resolver_profile: x.source.clone(),
        license: x.license.clone(),
        oa_status: metadata::copy_opt(&x.oa_status),
        path,
        size_bytes: x.size_bytes,
        schema_version: SCHEMA_VERSION.to_string(),
        pdf_leg,
        safekey: key.to_string(),
        canonical_digest: audit::identity_digest_of(class, id, x.source.as_str()),
        title: m.title.clone(),
        authors: text::copy_strings(&m.authors),
        year: m.year,
        attempts,
    }
}

// ---------------------------------------------------------------------------
// arXiv
// ---------------------------------------------------------------------------

/// What arXiv gave for an id.
pub struct ArxivReply {
    /// License.
    pub license: String,
    /// The document.
    pub pdf: Option<Vec<u8>>,
    /// Where it came from.
    pub final_url: Option<String>,
    /// The record of the feed.
    pub record: Option<Json>,
}

/// Checks that arXiv is granted before it is asked.
pub fn check_arxiv_granted(can_serve: bool) -> (r: Result<(), FetchError>)
    ensures
        can_serve ==> r == Ok::<(), FetchError>(()),
        !can_serve ==> (r matches Err(FetchError::NotEligible { source_key }) && source_key@
            == "arxiv"@),
{
    if can_serve {
        Ok(())
    } else {
        Err(FetchError::NotEligible { source_key: "arxiv".to_string() })
    }
}

/// Whether a staged document goes into the store with its metadata, given
/// whether the path that it was staged at is text. Where the path is not, the
/// metadata of a DOI is stored alone, and nothing of an arXiv submission.
pub fn stores_document(ref_: &Ref, path_is_text: bool) -> (r: Result<bool, FetchError>)
    ensures
        path_is_text || ref_@ is Doi ==> r == Ok::<bool, FetchError>(path_is_text),
        !path_is_text && ref_@ is Arxiv ==> (r matches Err(FetchError::SourceSchema { hint })
            && hint@ == "staging tempfile path is not UTF-8"@),
{
    match ref_ {
        Ref::Doi(_) => Ok(path_is_text),
        Ref::Arxiv(_) => if path_is_text {
            Ok(true)
        } else {
            Err(
                FetchError::SourceSchema {
                    hint: "staging tempfile path is not UTF-8".to_string(),
                },
            )
        },
    }
}

/// The key of a reference.
pub open spec fn key_of(m: RefModel) -> Seq<char> {
    safekey::key_of_text(safekey::raw_key(m))
}

/// The metadata of an arXiv paper: what its record gives, or the id where
/// there is no title.
pub open spec fn arxiv_metadata(
    id: Seq<char>,
    record: Option<Json>,
    final_url: Option<Seq<char>>,
    license: Seq<char>,
    size: u64,
    now: Timestamp,
) -> MetadataModel {
    let placeholder = "arxiv:"@ + id;
    MetadataModel {
        year: match record {
            Some(atom) => extract::published_year(atom),
            None => None,
        },
        arxiv_id: Some(id),
        arxiv_categories: match record {
            Some(atom) => extract::names_at(NameStyle::Plain, atom, "categories"@),
            None => Seq::empty(),
        },
        url: final_url,
        pdf_path: Some(key_of(RefModel::Arxiv(id)) + ".pdf"@),
        doiget: Some(
            metadata::fresh_extension(now, "arxiv"@, license, Some("green"@), size),
        ),
        ..metadata::bare_metadata(
            match record {
                Some(atom) => match extract::title_in(atom) {
                    Some(t) => t,
                    None => placeholder,
                },
                None => placeholder,
            },
            match record {
                Some(atom) => extract::authors_in(atom),
                None => Seq::empty(),
            },
        )
    }
}

/// What the fetch of an arXiv paper comes to. A reply without a document is an
/// error; there is no fallback to the metadata alone.
pub fn conclude_arxiv(id: &ArxivId, reply: ArxivReply, store_root: &str, now: Timestamp) -> (r: Result<
    Conclusion,
    FetchError,
>)
    ensures
        match reply.pdf {
            None => r matches Err(FetchError::SourceSchema { hint }) && hint@
                == "arxiv source returned no PDF bytes"@,
            Some(pdf) => r matches Ok(c) && {
                let m = arxiv_metadata(
                    id@,
                    reply.record,
                    text::opt_view(reply.final_url),
                    reply.license@,
                    pdf@.len() as u64,
                    now,
                );
                &&& c.metadata@ == m
                &&& legs::body_view(c.body) == Some(pdf@)
                &&& c.outcome@ == told(
                    m,
                    SourceType::Arxiv,
                    id@,
                    key_of(RefModel::Arxiv(id@)),
                    store_root@,
                    true,
                    LegModel::Fetched,
                    Seq::empty(),
                )
            },
        },
{
    let ArxivReply { license, pdf, final_url, record } = reply;
    let pdf = match pdf {
        Some(b) => b,
        None => return Err(
            FetchError::SourceSchema { hint: "arxiv source returned no PDF bytes".to_string() },
        ),
    };
    let size = pdf.len() as u64;
    let key = Ref::Arxiv(id.clone()).safekey();
    let placeholder = "arxiv:".to_string().concat(id.as_str());
    let (title, authors, year, categories) = match &record {
        Some(atom) => (
            match extract::extract_metadata_title(atom) {
                Some(t) => t,
                None => placeholder,
            },
            extract::extract_metadata_authors(atom),
            extract::extract_published_year(atom),
            extract::extract_arxiv_categories(atom),
        ),
        None => (placeholder, Vec::new(), None, Vec::new()),
    };
    let ghost m0 = arxiv_metadata(
        id@,
        record,
        text::opt_view(final_url),
        license@,
        size,
        now,
    );
    assert(text::views(authors@) =~= m0.authors);
    assert(text::views(categories@) =~= m0.arxiv_categories);
    let mut m = metadata::new_metadata(title, authors);
    m.year = year;
    m.arxiv_id = Some(id.clone());
    m.arxiv_categories = categories;
    m.url = final_url;
    m.pdf_path = Some(key.as_str().to_string().concat(".pdf"));
    m.doiget = Some(
        metadata::new_extension(now, "arxiv", license.as_str(), Some("green".to_string()), size),
    );
    assert(m@ == m0);
    let none: Vec<SourceAttempt> = Vec::new();
    assert(attempts::trace(none@) =~= Seq::<AttemptModel>::empty());
    let outcome = tell(
        &m,
        SourceType::Arxiv,
        id.as_str(),
        key.as_str(),
        store_root,
        true,
        PdfLegStatus::Fetched,
        none,
    );
    Ok(Conclusion { metadata: m, body: Some(pdf), outcome })
}

// ---------------------------------------------------------------------------
// DOI
// ---------------------------------------------------------------------------

/// All that the legs of a DOI fetch left behind.
pub struct DoiFindings {
    /// The DOI.
    pub doi: Doi,
    /// Where Crossref's record came from.
    pub crossref_url: Option<String>,
    /// Crossref's failure.
    pub crossref_error: Option<SourceFailure>,
    /// The bibliographic fields.
    pub fields: CrossrefFields,
    /// The trace of the other sources.
    pub rows: Vec<SourceAttempt>,
    /// License of the work or of the preprint.
    pub license: String,
    /// The source of the metadata.
    pub label: &'static str,
    /// Open-access status.
    pub oa_status: Option<String>,
    /// What became of the document.
    pub leg: PdfLegStatus,
    /// The document.
    pub body: Option<Vec<u8>>,
    /// The preprint that was stored.
    pub arxiv_id: Option<ArxivId>,
}

/// What the findings hold.
pub struct FindingsModel {
    pub doi: Seq<char>,
    pub crossref_url: Option<Seq<char>>,
    pub crossref_error: Option<SourceFailure>,
    pub fields: FieldsModel,
    pub rows: Seq<AttemptModel>,
    pub license: Seq<char>,
    pub label: Seq<char>,
    pub oa_status: Option<Seq<char>>,
    pub leg: LegModel,
    pub body: Option<Seq<u8>>,
    pub arxiv_id: Option<Seq<char>>,
}

/// What an optional arXiv id holds.
pub open spec fn arxiv_view(a: Option<ArxivId>) -> Option<Seq<char>> {
    match a {
        Some(x) => Some(x@),
        None => None,
    }
}

impl View for DoiFindings {
    type V = FindingsModel;

    open spec fn view(&self) -> FindingsModel {
        FindingsModel {
            doi: self.doi@,
            crossref_url: text::opt_view(self.crossref_url),
            crossref_error: self.crossref_error,
            fields: self.fields@,
            rows: attempts::trace(self.rows@),
            license: self.license@,
            label: self.label@,
            oa_status: text::opt_view(self.oa_status),
            leg: self.leg@,
            body: legs::body_view(self.body),
            arxiv_id: arxiv_view(self.arxiv_id),
        }
    }
}

/// The error of a DOI that was not found: Crossref's, with the trace of the
/// other sources where there is one, and whether any of them was asked.
pub open spec fn not_found_hint(shown: Seq<char>, rows: Seq<AttemptModel>) -> Seq<char> {
    shown + "\n  = note: "@ + (if attempts::untouched(rows) {
        "no optional source was consulted for this DOI"@
    } else {
        "the optional sources were consulted and did not resolve it"@
    }) + ":\n"@ + attempts::trace_text(rows)
}

/// The source of what is stored: that of the document, or that of the metadata
/// where there is no document.
pub open spec fn final_label(f: FindingsModel) -> Seq<char> {
    if f.body is Some {
        match f.leg {
            LegModel::PreprintFallback { .. } => "arxiv"@,
            LegModel::TdmFetched { source, .. } => source,
            _ => "oa-publisher"@,
        }
    } else {
        f.label
    }
}

/// The license of what is stored: that of the publisher's own copy is not
/// known.
pub open spec fn final_license(f: FindingsModel) -> Seq<char> {
    if f.leg is TdmFetched {
        "unknown"@
    } else {
        f.license
    }
}

/// The size of the document.
pub open spec fn body_size(body: Option<Seq<u8>>) -> u64 {
    match body {
        Some(b) => b.len() as u64,
        None => 0,
    }
}

/// The metadata of a DOI.
pub open spec fn doi_metadata(f: FindingsModel, now: Timestamp) -> MetadataModel {
    MetadataModel {
        year: f.fields.year,
        doi: Some(f.doi),
        arxiv_id: f.arxiv_id,
        venue: f.fields.venue,
        volume: f.fields.volume,
        issue: f.fields.issue,
        pages: f.fields.pages,
        type_: f.fields.type_,
        url: f.crossref_url,
        pdf_path: if f.body is Some {
            Some(key_of(RefModel::Doi(f.doi)) + ".pdf"@)
        } else {
            None
        },
        doiget: Some(
            metadata::fresh_extension(
                now,
                final_label(f),
                final_license(f),
                f.oa_status,
                body_size(f.body),
            ),
        ),
        ..metadata::bare_metadata(
            match f.fields.title {
                Some(t) => t,
                None => f.doi,
            },
            f.fields.authors,
        )
    }
}

/// What the fetch of a DOI comes to. Where Crossref failed and there is no
/// document, nothing is stored: the error says what was tried.
pub fn conclude_doi(findings: DoiFindings, store_root: &str, now: Timestamp) -> (r: Result<
    Conclusion,
    FetchError,
>)
    ensures
        ({
            let f = findings@;
            match f.crossref_error {
                Some(e) if f.body is None => if f.rows.len() > 0 {
                    r matches Err(FetchError::NotFound { hint }) && hint@ == not_found_hint(
                        e.shown@,
                        f.rows,
                    )
                } else {
                    r == Err::<Conclusion, FetchError>(e.error)
                },
                _ => r matches Ok(c) && c.metadata@ == doi_metadata(f, now) && legs::body_view(
                    c.body,
                ) == f.body && c.outcome@ == told(
                    doi_metadata(f, now),
                    SourceType::Doi,
                    f.doi,
                    key_of(RefModel::Doi(f.doi)),
                    store_root@,
                    f.body is Some,
                    f.leg,
                    f.rows,
                ),
            }
        }),
{
    let ghost f = findings@;
    let DoiFindings {
        doi,
        crossref_url,
        crossref_error,
        fields,
        rows,
        license,
        label,
        oa_status,
        leg,
        body,
        arxiv_id,
    } = findings;
    if body.is_none() {
        match crossref_error {
            Some(e) => {
                if rows.len() > 0 {
                    let lead = if attempts::nothing_was_consulted(rows.as_slice()) {
                        "no optional source was consulted for this DOI"
                    } else {
                        "the optional sources were consulted and did not resolve it"
                    };
                    let hint = e.shown.concat("\n  = note: ").concat(lead).concat(":\n").concat(
                        attempts::render_attempts(rows.as_slice()).as_str(),
                    );
                    return Err(FetchError::NotFound { hint });
                }
                return Err(e.error);
            },
            None => {},
        }
    }
    let source: String = match &body {
        Some(_) => match &leg {
            PdfLegStatus::PreprintFallback { .. } => "arxiv".to_string(),
            PdfLegStatus::TdmFetched { source, .. } => source.clone(),
            _ => "oa-publisher".to_string(),
        },
        None => label.to_string(),
    };
    let license = match &leg {
        PdfLegStatus::TdmFetched { .. } => "unknown".to_string(),
        _ => license,
    };
    let size = match &body {
        Some(b) => b.len() as u64,
        None => 0,
    };
    let key = Ref::Doi(doi.clone()).safekey();
    let CrossrefFields { title, authors, year, venue, volume, issue, pages, type_ } = fields;
    let title = match title {
        Some(t) => t,
        None => doi.as_str().to_string(),
    };
    let mut m = metadata::new_metadata(title, authors);
    m.year = year;
    m.doi = Some(doi.clone());
    m.arxiv_id = arxiv_id;
    m.venue = venue;
    m.volume = volume;
    m.issue = issue;
    m.pages = pages;
    m.type_ = type_;
    m.url = crossref_url;
    if body.is_some() {
        m.pdf_path = Some(key.as_str().to_string().concat(".pdf"));
    }
    m.doiget = Some(
        metadata::new_extension(now, source.as_str(), license.as_str(), oa_status, size),
    );
    assert(m@ == doi_metadata(f, now));
    let outcome = tell(
        &m,
        SourceType::Doi,
        doi.as_str(),
        key.as_str(),
        store_root,
        body.is_some(),
        leg,
        rows,
    );
    Ok(Conclusion { metadata: m, body, outcome })
}

// ---------------------------------------------------------------------------
// Plans and batches
// ---------------------------------------------------------------------------

/// Plans the fetch of a paper.
pub fn fetch_paper_plan(ref_: &Ref, store_root: &str) -> (r: FetchPlan)
    ensures
        r@ == dry_run::plan_model(ref_@, store_root@),
{
    dry_run::build_fetch_plan(ref_, store_root)
}

/// Plans the fetch of a paper; never fails.
pub fn try_fetch_paper_plan(ref_: &Ref, store_root: &str) -> (r: Result<FetchPlan, FetchError>)
    ensures
        r is Ok,
        r->Ok_0@ == dry_run::plan_model(ref_@, store_root@),
{
    dry_run::try_build_fetch_plan(ref_, store_root)
}

/// Checks the size of a batch before anything is fetched.
pub fn check_batch_size(got: usize) -> (r: Result<(), FetchError>)
    ensures
        got <= MAX_BATCH_REFS ==> r == Ok::<(), FetchError>(()),
        got > MAX_BATCH_REFS ==> r == Err::<(), FetchError>(
            FetchError::TooManyRefs { got, max: MAX_BATCH_REFS },
        ),
{
    if got > MAX_BATCH_REFS {
        Err(FetchError::TooManyRefs { got, max: MAX_BATCH_REFS })
    } else {
        Ok(())
    }
}

/// Plans the fetches of a batch, in the order of its references.
pub fn batch_fetch_plans(refs: &[Ref], store_root: &str) -> (r: Result<
    Vec<(Ref, FetchPlan)>,
    FetchError,
>)
    ensures
        refs@.len() > MAX_BATCH_REFS ==> (r matches Err(FetchError::TooManyRefs { got, max }) && got
            == refs@.len() && max == MAX_BATCH_REFS),
        refs@.len() <= MAX_BATCH_REFS ==> (r matches Ok(plans) && plans@.len() == refs@.len()
            && forall|i: int|
            0 <= i < refs@.len() ==> (#[trigger] plans@[i]).0 == refs@[i] && plans@[i].1@
                == dry_run::plan_model(refs@[i]@, store_root@)),
{
    match check_batch_size(refs.len()) {
        Ok(()) => {},
        Err(e) => return Err(e),
    }
    let mut out: Vec<(Ref, FetchPlan)> = Vec::new();
    let mut i: usize = 0;
    while i < refs.len()
        invariant
            i <= refs.len(),
            out@.len() == i,
            refs@.len() <= MAX_BATCH_REFS,
            forall|j: int|
                0 <= j < i ==> (#[trigger] out@[j]).0 == refs@[j] && out@[j].1@
                    == dry_run::plan_model(refs@[j]@, store_root@),
        decreases refs.len() - i,
    {
        match dry_run::try_build_fetch_plan(&refs[i], store_root) {
            Ok(p) => {
                out.push((refs[i].clone(), p));
            },
            Err(e) => return Err(e),
        }
        i += 1;
    }
    Ok(out)
}

/// The result of one reference of a batch.
#[derive(Debug, PartialEq, Eq)]
pub struct BatchResultEntry {
    /// The reference.
    pub ref_: Ref,
    /// What came of it.
    pub outcome: Result<FetchPaperOutcome, FetchError>,
}

/// The results of a batch.
#[derive(Debug, PartialEq, Eq)]
#[non_exhaustive]
pub struct BatchOutcome {
    /// One entry for each reference, in their order.
    pub results: Vec<BatchResultEntry>,
}

/// A batch under way: a failure of one reference does not stop the others.
pub struct BatchRun {
    refs: Vec<Ref>,
    results: Vec<BatchResultEntry>,
}

impl BatchRun {
    /// The references of the batch.
    pub closed spec fn refs(&self) -> Seq<Ref> {
        self.refs@
    }

    /// The results so far.
    pub closed spec fn results(&self) -> Seq<BatchResultEntry> {
        self.results@
    }

    /// One result for each reference so far, in their order.
    pub open spec fn in_step(&self) -> bool {
        &&& self.results().len() <= self.refs().len() <= MAX_BATCH_REFS
        &&& forall|i: int|
            0 <= i < self.results().len() ==> (#[trigger] self.results()[i]).ref_ == self.refs()[i]
    }

    #[verifier::type_invariant]
    closed spec fn wf(&self) -> bool {
        self.in_step()
    }

    /// Starts a batch; one that is too large is refused before any fetch.
    pub fn start(refs: &[Ref]) -> (r: Result<BatchRun, FetchError>)
        ensures
            refs@.len() > MAX_BATCH_REFS ==> (r matches Err(FetchError::TooManyRefs { got, max })
                && got == refs@.len() && max == MAX_BATCH_REFS),
            refs@.len() <= MAX_BATCH_REFS ==> (r matches Ok(b) && b.refs() == refs@ && b.results()
                == Seq::<BatchResultEntry>::empty()),
    {
        match check_batch_size(refs.len()) {
            Ok(()) => {},
            Err(e) => return Err(e),
        }
        let mut own: Vec<Ref> = Vec::new();
        let mut i: usize = 0;
        while i < refs.len()
            invariant
                i <= refs.len(),
                own@.len() == i,
                forall|j: int| 0 <= j < i ==> #[trigger] own@[j] == refs@[j],
            decreases refs.len() - i,
        {
            own.push(refs[i].clone());
            i += 1;
        }
        assert(own@ =~= refs@);
        Ok(BatchRun { refs: own, results: Vec::new() })
    }

    /// The reference that is to be fetched next.
    pub fn next_ref(&self) -> (r: Option<&Ref>)
        ensures
            match r {
                Some(x) => self.results().len() < self.refs().len() && *x
                    == self.refs()[self.results().len() as int],
                None => self.results().len() == self.refs().len(),
            },
    {
        proof {
            use_type_invariant(self);
        }
        if self.results.len() < self.refs.len() {
            Some(&self.refs[self.results.len()])
        } else {
            None
        }
    }

    /// Takes what came of the reference that was fetched.
    pub fn reply(self, outcome: Result<FetchPaperOutcome, FetchError>) -> (r: BatchRun)
        ensures
            r.refs() == self.refs(),
            r.results() == if self.results().len() < self.refs().len() {
                self.results().push(
                    BatchResultEntry {
                        ref_: self.refs()[self.results().len() as int],
                        outcome,
                    },
                )
            } else {
                self.results()
            },
    {
        proof {
            use_type_invariant(&self);
        }
        let BatchRun { refs, results } = self;
        let mut results = results;
        if results.len() < refs.len() {
            let ref_ = refs[results.len()].clone();
            results.push(BatchResultEntry { ref_, outcome });
        }
        BatchRun { refs, results }
    }

    /// The results.
    pub fn finish(self) -> (r: BatchOutcome)
        ensures
            r.results@ == self.results(),
            r.results@.len() <= self.refs().len(),
            forall|i: int|
                0 <= i < r.results@.len() ==> (#[trigger] r.results@[i]).ref_ == self.refs()[i],
    {
        proof {
            use_type_invariant(&self);
        }
        let BatchRun { refs: _, results } = self;
        BatchOutcome { results }
    }
}

// ---------------------------------------------------------------------------
// Laws
// ---------------------------------------------------------------------------

/// A document is told of exactly where one was stored: the path, the size and
/// the leg agree.
pub proof fn law_outcomes_are_honest(f: FindingsModel, root: Seq<char>, now: Timestamp)
    requires
        legs::honest(f.leg, f.body is Some),
    ensures
        ({
            let m = doi_metadata(f, now);
            let t = told(
                m,
                SourceType::Doi,
                f.doi,
                key_of(RefModel::Doi(f.doi)),
                root,
                f.body is Some,
                f.leg,
                f.rows,
            );
            &&& f.leg is Blocked || f.leg is NoOaUrl ==> t.size_bytes == 0 && m.pdf_path is None
                && t.path == dry_run::metadata_path(root, t.safekey) && t.source == f.label
            &&& f.leg is Fetched ==> t.source == "oa-publisher"@ && m.pdf_path == Some(
                t.safekey + ".pdf"@,
            )
            &&& f.leg is PreprintFallback ==> t.source == "arxiv"@ && m.pdf_path == Some(
                t.safekey + ".pdf"@,
            )
            &&& f.leg matches LegModel::TdmFetched { source, .. } ==> t.source == source
                && t.license == "unknown"@ && m.pdf_path == Some(t.safekey + ".pdf"@)
        }),
{
}

/// Every stored entry is accounted for under the source that is told of it.
pub proof fn law_outcomes_and_rows_agree(f: FindingsModel, root: Seq<char>, now: Timestamp)
    ensures
        ({
            let m = doi_metadata(f, now);
            let key = key_of(RefModel::Doi(f.doi));
            let t = told(m, SourceType::Doi, f.doi, key, root, f.body is Some, f.leg, f.rows);
            let row = audit::store_row(m, key, f.body is Some, true);
            &&& row.canonical_digest == Some(t.canonical_digest)
            &&& row.source == Some(t.source)
            &&& row.license == Some(t.license)
            &&& row.size_bytes == Some(t.size_bytes)
            &&& row.reference == Some(f.doi)
        }),
{
}

/// A plan names the very paths that the fetch writes to.
pub proof fn law_plans_name_where_papers_go(m: RefModel, root: Seq<char>)
    ensures
        dry_run::plan_model(m, root).target_pdf_path == stored_path(root, key_of(m), true),
        dry_run::plan_model(m, root).target_metadata_path == stored_path(root, key_of(m), false),
{
}

/// What is stored for a DOI says what was found: the fields of the record, the
/// DOI where there is no title, the preprint, and the document by its size and
/// the source that served it.
pub proof fn law_stored_papers_say_what_was_found(f: FindingsModel, root: Seq<char>, now: Timestamp)
    ensures
        ({
            let m = doi_metadata(f, now);
            let x = m.doiget->Some_0;
            &&& m.doi == Some(f.doi) && m.arxiv_id == f.arxiv_id && m.url == f.crossref_url
            &&& f.fields.title matches Some(t) ==> m.title == t
            &&& f.fields.title is None ==> m.title == f.doi
            &&& m.authors == f.fields.authors && m.year == f.fields.year
            &&& m.venue == f.fields.venue && m.volume == f.fields.volume
            &&& m.issue == f.fields.issue && m.pages == f.fields.pages
            &&& m.type_ == f.fields.type_ && m.schema_version == "1.0"@
            &&& m.doiget is Some
            &&& x.fetched_at == now && x.oa_status == f.oa_status
            &&& f.body matches Some(b) ==> x.size_bytes == b.len() as u64 && m.pdf_path == Some(
                key_of(RefModel::Doi(f.doi)) + ".pdf"@,
            )
            &&& f.body is None ==> x.size_bytes == 0 && m.pdf_path is None && x.source == f.label
            &&& f.body is Some && f.leg is Fetched ==> x.source == "oa-publisher"@ && x.license
                == f.license
            &&& f.body is Some && f.leg is PreprintFallback ==> x.source == "arxiv"@ && x.license
                == f.license
            &&& f.body is Some ==> (f.leg matches LegModel::TdmFetched { source, .. } ==> x.source
                == source && x.license == "unknown"@)
        }),
{
}

/// What is told of a paper is what was stored of it: source, license, status,
/// size, title, authors and year, with the trace, and the path where it lies.
pub proof fn law_papers_are_told_as_they_are_stored(
    m: MetadataModel,
    class: SourceType,
    id: Seq<char>,
    key: Seq<char>,
    root: Seq<char>,
    leg: LegModel,
    rows: Seq<AttemptModel>,
)
    requires
        m.doiget is Some,
        root.len() > 0,
        root.last() != '/',
    ensures
        ({
            let x = m.doiget->Some_0;
            let with = told(m, class, id, key, root, true, leg, rows);
            let bare = told(m, class, id, key, root, false, leg, rows);
            &&& with.path == root + "/"@ + key + ".pdf"@
            &&& bare.path == root + "/.metadata/"@ + key + ".toml"@
            &&& with.source == x.source && with.resolver_profile == x.source
            &&& with.license == x.license && with.oa_status == x.oa_status
            &&& with.size_bytes == x.size_bytes && with.schema_version == "1.0"@
            &&& with.pdf_leg == leg && with.safekey == key && with.attempts == rows
            &&& with.title == m.title && with.authors == m.authors && with.year == m.year
            &&& bare == (PaperModel { path: bare.path, ..with })
        }),
{
    reveal_strlit("/");
    reveal_strlit(".metadata");
    reveal_strlit("/.metadata/");
    let with = told(m, class, id, key, root, true, leg, rows);
    let bare = told(m, class, id, key, root, false, leg, rows);
    assert(with.path =~= root + "/"@ + key + ".pdf"@);
    let dir = root + "/"@ + ".metadata"@;
    assert(dir.last() == 'a');
    assert(bare.path =~= root + "/.metadata/"@ + key + ".toml"@);
}

/// What is stored for an arXiv submission says what its record says, with the
/// document by its size.
pub proof fn law_stored_submissions_say_what_was_found(
    id: Seq<char>,
    record: Json,
    url: Option<Seq<char>>,
    license: Seq<char>,
    size: u64,
    now: Timestamp,
    s: Seq<char>,
)
    ensures
        ({
            let m = arxiv_metadata(id, Some(record), url, license, size, now);
            let x = m.doiget->Some_0;
            &&& m.arxiv_id == Some(id) && m.doi is None && m.url == url
            &&& extract::title_in(record) matches Some(t) ==> m.title == t
            &&& extract::title_in(record) is None ==> m.title == "arxiv:"@ + id
            &&& m.authors == extract::authors_in(record)
            &&& extract::says(record, "published"@, s) ==> m.year == extract::rfc3339_year(s)
            &&& m.pdf_path == Some(key_of(RefModel::Arxiv(id)) + ".pdf"@)
            &&& m.doiget is Some
            &&& x.source == "arxiv"@ && x.license == license && x.size_bytes == size
            &&& x.oa_status == Some("green"@) && x.fetched_at == now
        }),
        arxiv_metadata(id, None, url, license, size, now).title == "arxiv:"@ + id,
        arxiv_metadata(id, None, url, license, size, now).authors.len() == 0,
{
}

/// The error of a DOI that nobody knows shows what Crossref said and the whole
/// trace, and says whether any source was asked.
pub proof fn law_unknown_dois_show_the_trace(shown: Seq<char>, rows: Seq<AttemptModel>)
    ensures
        shown.is_prefix_of(not_found_hint(shown, rows)),
        attempts::trace_text(rows).is_suffix_of(not_found_hint(shown, rows)),
        rows.len() > 0 && (forall|i: int|
            0 <= i < rows.len() ==> {
                let o = (#[trigger] rows[i]).outcome;
                o is Disabled || o is NotApplicable || o is WrongPublisher || o is NotNeeded
            }) ==> not_found_hint(shown, rows) == shown
            + "\n  = note: no optional source was consulted for this DOI:\n"@
            + attempts::trace_text(rows),
{
    let h = not_found_hint(shown, rows);
    let t = attempts::trace_text(rows);
    assert(h.subrange(0, shown.len() as int) =~= shown);
    assert(h.subrange(h.len() - t.len(), h.len() as int) =~= t);
    reveal_strlit("\n  = note: ");
    reveal_strlit("no optional source was consulted for this DOI");
    reveal_strlit(":\n");
    reveal_strlit("\n  = note: no optional source was consulted for this DOI:\n");
    if rows.len() > 0 && (forall|i: int|
        0 <= i < rows.len() ==> {
            let o = (#[trigger] rows[i]).outcome;
            o is Disabled || o is NotApplicable || o is WrongPublisher || o is NotNeeded
        }) {
        assert(attempts::untouched(rows));
        assert(h =~= shown + "\n  = note: no optional source was consulted for this DOI:\n"@ + t);
    }
}

} // verus!

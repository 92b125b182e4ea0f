//! The legs of a document fetch: the open copies, the preprint, a copy that
//! another source knows, and the publisher's own.

use crate::errors::DenialContext;
use crate::errors::DenialModel;
use crate::errors::ErrorCode;
use crate::http::allowlist::SourceAllowlist;
use crate::http::error;
use crate::http::error::HttpError;
use crate::http::error::HttpErrorModel;
use crate::http::fetch;
use crate::orchestrator::attempts;
use crate::orchestrator::attempts::AttemptModel;
use crate::orchestrator::attempts::AttemptOutcome;
use crate::orchestrator::attempts::OutcomeModel;
use crate::orchestrator::attempts::SourceAttempt;
use crate::orchestrator::chain;
use crate::orchestrator::chain::ChainEntry;
use crate::orchestrator::chain::EntryModel;
use crate::orchestrator::chain::SourceFailure;
use crate::orchestrator::extract;
use crate::refs;
use crate::refs::ArxivId;
use crate::refs::Doi;
use crate::refs::Ref;
use crate::refs::RefModel;
use crate::text;
use crate::urls;
use crate::urls::UrlModel;
use crate::urls::WebUrl;
use vstd::prelude::*;

verus! {

/// What became of the document. That there was none to fetch is not the same
/// as that it was blocked.
#[derive(Debug, Clone, PartialEq, Eq)]
#[non_exhaustive]
pub enum PdfLegStatus {
    /// The document was fetched.
    Fetched,
    /// No open copy is known.
    NoOaUrl,
    /// An open copy is known, but it could not be fetched.
    Blocked {
        /// Code of the error.
        code: ErrorCode,
        /// The error as it is shown.
        message: String,
        /// The denial, where it was one.
        denial: Option<DenialContext>,
        /// The arXiv id of a preprint that is known.
        suggested_arxiv_id: Option<String>,
    },
    /// The open copy was blocked, and the preprint was fetched in its place.
    PreprintFallback {
        /// Its arXiv id.
        arxiv_id: String,
        /// Why the open copy was blocked.
        original_block: String,
    },
    /// The open copy was blocked, and the publisher served its own under the
    /// user's agreement.
    TdmFetched {
        /// The source that served it.
        source: String,
        /// Why the open copy was blocked.
        original_block: String,
    },
}

/// What a leg holds.
pub enum LegModel {
    Fetched,
    NoOaUrl,
    Blocked {
        code: ErrorCode,
        message: Seq<char>,
        denial: Option<DenialModel>,
        suggested_arxiv_id: Option<Seq<char>>,
    },
    PreprintFallback { arxiv_id: Seq<char>, original_block: Seq<char> },
    TdmFetched { source: Seq<char>, original_block: Seq<char> },
}

/// What an optional denial holds.
pub open spec fn denial_view(d: Option<DenialContext>) -> Option<DenialModel> {
    match d {
        Some(x) => Some(x@),
        None => None,
    }
}

/// What an optional body holds.
pub open spec fn body_view(b: Option<Vec<u8>>) -> Option<Seq<u8>> {
    match b {
        Some(v) => Some(v@),
        None => None,
    }
}

impl View for PdfLegStatus {
    type V = LegModel;

    open spec fn view(&self) -> LegModel {
        match *self {
            PdfLegStatus::Fetched => LegModel::Fetched,
            PdfLegStatus::NoOaUrl => LegModel::NoOaUrl,
            PdfLegStatus::Blocked { code, message, denial, suggested_arxiv_id } =>
                LegModel::Blocked {
                code,
                message: message@,
                denial: denial_view(denial),
                suggested_arxiv_id: text::opt_view(suggested_arxiv_id),
            },
            PdfLegStatus::PreprintFallback { arxiv_id, original_block } =>
                LegModel::PreprintFallback {
                arxiv_id: arxiv_id@,
                original_block: original_block@,
            },
            PdfLegStatus::TdmFetched { source, original_block } => LegModel::TdmFetched {
                source: source@,
                original_block: original_block@,
            },
        }
    }
}

// ---------------------------------------------------------------------------
// Open copies
// ---------------------------------------------------------------------------

/// Checks the host of an open copy before it is asked: a source without a list
/// lets every host pass.
pub fn check_oa_host(allow: Option<&SourceAllowlist>, url: &WebUrl) -> (r: Result<(), HttpError>)
    ensures
        match allow {
            Some(a) => {
                &&& r is Ok <==> fetch::host_passes(a@, url@.host_text)
                &&& r matches Err(e) ==> e@ == fetch::host_refusal(a@, url@.host_text)
            },
            None => r is Ok,
        },
{
    match allow {
        Some(a) => {
            let host = url.host_str();
            assert(fetch::host_view(host) == url@.host_text);
            fetch::check_host(a, host)
        },
        None => Ok(()),
    }
}

/// Why an open copy could not be fetched.
#[derive(Debug, PartialEq, Eq)]
pub struct OaFailure {
    /// The error.
    pub error: HttpError,
    /// The error as it is shown.
    pub shown: String,
}

/// A walk along the open copies: those that were tried, the last failure, and
/// the document once there is one.
pub struct OaModel {
    pub urls: Seq<UrlModel>,
    pub next: nat,
    pub failed: Option<(HttpErrorModel, Seq<char>)>,
    pub body: Option<Seq<u8>>,
}

/// A walk along the open copies.
pub struct OaWalk {
    urls: Vec<WebUrl>,
    next: usize,
    failed: Option<OaFailure>,
    body: Option<Vec<u8>>,
}

/// The walk after a reply.
pub open spec fn oa_replied(w: OaModel, reply: Result<Seq<u8>, (HttpErrorModel, Seq<char>)>) -> OaModel {
    if w.body is Some || w.next >= w.urls.len() {
        w
    } else {
        match reply {
            Ok(b) => OaModel { next: w.next + 1, body: Some(b), ..w },
            Err(f) => OaModel { next: w.next + 1, failed: Some(f), ..w },
        }
    }
}

/// The arXiv id of the first URL that names one.
pub open spec fn first_arxiv_id(v: Seq<UrlModel>) -> Option<Seq<char>>
    decreases v.len(),
{
    if v.len() == 0 {
        None
    } else {
        match extract::arxiv_id_of(v[0]) {
            Some(id) => Some(id),
            None => first_arxiv_id(v.drop_first()),
        }
    }
}

/// What a walk comes to: the document, or the last failure with a preprint
/// where one is among the copies. A walk that neither found nor failed is a
/// fault of its own.
pub open spec fn oa_leg(w: OaModel) -> LegModel {
    if w.urls.len() == 0 {
        LegModel::NoOaUrl
    } else if w.body is Some {
        LegModel::Fetched
    } else {
        match w.failed {
            Some((e, shown)) => LegModel::Blocked {
                code: ErrorCode::NetworkError,
                message: shown,
                denial: error::http_denial(e),
                suggested_arxiv_id: first_arxiv_id(w.urls),
            },
            None => LegModel::Blocked {
                code: ErrorCode::InternalError,
                message: "OA PDF chain walker exhausted without recording success or error (orchestrator bug — please report)"@,
                denial: None,
                suggested_arxiv_id: None,
            },
        }
    }
}

/// A failure, as a model.
pub open spec fn failure_view(f: Option<OaFailure>) -> Option<(HttpErrorModel, Seq<char>)> {
    match f {
        Some(x) => Some((x.error@, x.shown@)),
        None => None,
    }
}

impl OaWalk {
    /// The walk so far.
    pub closed spec fn model(&self) -> OaModel {
        OaModel {
            urls: extract::url_views(self.urls@),
            next: self.next as nat,
            failed: failure_view(self.failed),
            body: body_view(self.body),
        }
    }

    #[verifier::type_invariant]
    closed spec fn wf(&self) -> bool {
        self.next <= self.urls@.len() && (self.body is Some ==> self.urls@.len() > 0)
    }

    /// Starts at the first copy.
    pub fn new(urls: Vec<WebUrl>) -> (r: OaWalk)
        ensures
            r.model() == (OaModel {
                urls: extract::url_views(urls@),
                next: 0,
                failed: None,
                body: None,
            }),
    {
        OaWalk { urls, next: 0, failed: None, body: None }
    }

    /// The copy that is to be tried next.
    pub fn next_url(&self) -> (r: Option<WebUrl>)
        ensures
            match r {
                Some(u) => self.model().body is None && self.model().next < self.model().urls.len()
                    && u@ == self.model().urls[self.model().next as int],
                None => self.model().body is Some || self.model().next >= self.model().urls.len(),
            },
    {
        if self.body.is_none() && self.next < self.urls.len() {
            Some(self.urls[self.next].clone())
        } else {
            None
        }
    }

    /// Takes what came of the copy that was tried.
    pub fn reply(self, reply: Result<Vec<u8>, OaFailure>) -> (r: OaWalk)
        ensures
            r.model() == oa_replied(
                self.model(),
                match reply {
                    Ok(b) => Ok(b@),
                    Err(f) => Err((f.error@, f.shown@)),
                },
            ),
    {
        proof {
            use_type_invariant(&self);
        }
        let OaWalk { urls, next, failed, body } = self;
        let count = urls.len();
        if body.is_some() || next >= count {
            return OaWalk { urls, next, failed, body };
        }
        match reply {
            Ok(b) => OaWalk { urls, next: next + 1, failed, body: Some(b) },
            Err(f) => OaWalk { urls, next: next + 1, failed: Some(f), body },
        }
    }

    /// What the walk came to.
    pub fn finish(self) -> (r: (PdfLegStatus, Option<Vec<u8>>))
        ensures
            r.0@ == oa_leg(self.model()),
            body_view(r.1) == self.model().body,
    {
        proof {
            use_type_invariant(&self);
        }
        let OaWalk { urls, next: _, failed, body } = self;
        if urls.len() == 0 {
            return (PdfLegStatus::NoOaUrl, body);
        }
        if body.is_some() {
            return (PdfLegStatus::Fetched, body);
        }
        let leg = match failed {
            Some(f) => {
                let denial = f.error.denial_context();
                PdfLegStatus::Blocked {
                    code: ErrorCode::NetworkError,
                    message: f.shown,
                    denial,
                    suggested_arxiv_id: arxiv_id_among(&urls),
                }
            },
            None => PdfLegStatus::Blocked {
                code: ErrorCode::InternalError,
                message: "OA PDF chain walker exhausted without recording success or error (orchestrator bug — please report)".to_string(),
                denial: None,
                suggested_arxiv_id: None,
            },
        };
        (leg, body)
    }
}

fn arxiv_id_among(v: &Vec<WebUrl>) -> (r: Option<String>)
    ensures
        text::opt_view(r) == first_arxiv_id(extract::url_views(v@)),
{
    let ghost all = extract::url_views(v@);
    assert(all.skip(0) =~= all);
    let mut i: usize = 0;
    while i < v.len()
        invariant
            i <= v.len(),
            all == extract::url_views(v@),
            first_arxiv_id(all) == first_arxiv_id(all.skip(i as int)),
        decreases v.len() - i,
    {
        assert(all.skip(i as int)[0] == v@[i as int]@);
        assert(all.skip(i as int).drop_first() =~= all.skip(i + 1));
        match extract::extract_arxiv_id_from_url(&v[i]) {
            Some(id) => return Some(id),
            None => {},
        }
        i += 1;
    }
    None
}

// ---------------------------------------------------------------------------
// The preprint
// ---------------------------------------------------------------------------

/// The preprint to try: that of a blocked copy, where its id is valid.
pub open spec fn preprint(leg: LegModel) -> Option<Seq<char>> {
    match leg {
        LegModel::Blocked { suggested_arxiv_id: Some(s), .. } => {
            let id = refs::strip_scheme(s, "arxiv:"@);
            if refs::arxiv_defect(id) is None {
                Some(id)
            } else {
                None
            }
        },
        _ => None,
    }
}

/// The preprint to try.
pub fn preprint_to_try(leg: &PdfLegStatus) -> (r: Option<ArxivId>)
    ensures
        match preprint(leg@) {
            Some(id) => r is Some && r->Some_0@ == id,
            None => r is None,
        },
{
    match leg {
        PdfLegStatus::Blocked { suggested_arxiv_id, .. } => match suggested_arxiv_id {
            Some(s) => match ArxivId::parse(s.as_str()) {
                Ok(id) => Some(id),
                Err(_) => None,
            },
            None => None,
        },
        _ => None,
    }
}

/// Why a copy was blocked.
pub open spec fn block_text(leg: LegModel) -> Seq<char> {
    match leg {
        LegModel::Blocked { message, .. } => message,
        _ => Seq::empty(),
    }
}

/// What became of a document after the preprint was tried.
pub struct PreprintResult {
    /// The leg.
    pub leg: PdfLegStatus,
    /// The document.
    pub body: Option<Vec<u8>>,
    /// The id of the preprint, where it was stored.
    pub arxiv_id: Option<ArxivId>,
    /// Its license.
    pub license: Option<String>,
}

/// Takes what came of the preprint: its document and license, or nothing, in
/// which case all stays as it was.
pub fn after_preprint(
    leg: PdfLegStatus,
    body: Option<Vec<u8>>,
    id: ArxivId,
    reply: Option<(Vec<u8>, String)>,
) -> (r: PreprintResult)
    ensures
        match reply {
            Some((b, license)) => if leg@ is Blocked {
                &&& r.leg@ == (LegModel::PreprintFallback {
                    arxiv_id: id@,
                    original_block: block_text(leg@),
                })
                &&& body_view(r.body) == Some(b@)
                &&& r.arxiv_id == Some(id)
                &&& text::opt_view(r.license) == Some(license@)
            } else {
                r.leg == leg && r.body == body && r.arxiv_id is None && r.license is None
            },
            None => r.leg == leg && r.body == body && r.arxiv_id is None && r.license is None,
        },
{
    match reply {
        Some((b, license)) => match leg {
            PdfLegStatus::Blocked { code: _, message, denial: _, suggested_arxiv_id: _ } => {
                let arxiv_id = id.as_str().to_string();
                PreprintResult {
                    leg: PdfLegStatus::PreprintFallback { arxiv_id, original_block: message },
                    body: Some(b),
                    arxiv_id: Some(id),
                    license: Some(license),
                }
            },
            _ => PreprintResult { leg, body, arxiv_id: None, license: None },
        },
        None => PreprintResult { leg, body, arxiv_id: None, license: None },
    }
}

// ---------------------------------------------------------------------------
// A copy that another source knows
// ---------------------------------------------------------------------------

/// Whether another copy is looked for: the document is blocked and there is
/// none.
pub fn wants_another_copy(leg: &PdfLegStatus, body: &Option<Vec<u8>>) -> (r: bool)
    ensures
        r == (leg@ is Blocked && *body is None),
{
    match leg {
        PdfLegStatus::Blocked { .. } => body.is_none(),
        _ => false,
    }
}

/// The sources whose records name a document rather than a page.
pub open spec fn names_documents(source: Seq<char>) -> bool {
    source == "core"@ || source == "hal"@ || source == "europe-pmc"@
}

/// The URL of a copy, where the source names documents and the address that it
/// gives is a URL.
pub fn copy_url(source: &str, raw: Option<&str>) -> (r: Option<WebUrl>)
    ensures
        match (
            if names_documents(source@) && raw is Some {
                urls::url_of(raw->Some_0@)
            } else {
                Err(Seq::empty())
            }) {
            Ok(u) => r is Some && r->Some_0@ == u,
            Err(_) => r is None,
        },
{
    if !(text::same(source, "core") || text::same(source, "hal") || text::same(
        source,
        "europe-pmc",
    )) {
        return None;
    }
    match raw {
        Some(s) => match WebUrl::parse(s) {
            Ok(u) => Some(u),
            Err(_) => None,
        },
        None => None,
    }
}

// ---------------------------------------------------------------------------
// The publisher's own copy
// ---------------------------------------------------------------------------

/// A walk along the publishers: how many are behind it, the trace, the leg and
/// the document.
pub struct ContentModel {
    pub next: nat,
    pub rows: Seq<AttemptModel>,
    pub leg: LegModel,
    pub body: Option<Seq<u8>>,
}

/// Whether a publisher is still to be asked.
pub open spec fn content_open(c: ContentModel, es: Seq<EntryModel>) -> bool {
    c.leg is Blocked && c.body is None && c.next < es.len()
}

/// The walk after the publishers that are not asked. Their rows take the place
/// of earlier ones.
pub open spec fn content_advanced(c: ContentModel, doi: Seq<char>, es: Seq<EntryModel>) -> ContentModel
    decreases es.len() - c.next,
{
    if !content_open(c, es) {
        c
    } else {
        let e = es[c.next as int];
        match chain::skipped(false, RefModel::Doi(doi), e) {
            Some(o) => content_advanced(
                ContentModel {
                    next: c.next + 1,
                    rows: chain::recorded(c.rows, e.name, o),
                    ..c
                },
                doi,
                es,
            ),
            None => c,
        }
    }
}

/// The walk after the reply of the publisher that was asked: one without
/// documents leaves its row; one that failed leaves the block.
pub open spec fn content_replied(
    c: ContentModel,
    es: Seq<EntryModel>,
    reply: Result<Option<Seq<u8>>, OutcomeModel>,
) -> ContentModel {
    let e = es[c.next as int];
    match reply {
        Ok(None) => ContentModel { next: c.next + 1, ..c },
        Ok(Some(b)) => ContentModel {
            next: c.next + 1,
            rows: chain::recorded(c.rows, e.name, OutcomeModel::Resolved),
            leg: LegModel::TdmFetched { source: e.name, original_block: block_text(c.leg) },
            body: Some(b),
        },
        Err(o) => ContentModel {
            next: c.next + 1,
            rows: chain::recorded(c.rows, e.name, o),
            ..c
        },
    }
}

/// A reply, as a model.
pub open spec fn content_reply_view(reply: Result<Option<Vec<u8>>, SourceFailure>) -> Result<
    Option<Seq<u8>>,
    OutcomeModel,
> {
    match reply {
        Ok(b) => Ok(body_view(b)),
        Err(f) => Err(attempts::classified(f.error, f.shown@)),
    }
}

/// A walk along the publishers.
pub struct ContentChain {
    doi: Ref,
    sources: Vec<ChainEntry>,
    next: usize,
    asked: bool,
    rows: Vec<SourceAttempt>,
    leg: PdfLegStatus,
    body: Option<Vec<u8>>,
}

impl ContentChain {
    /// The walk so far.
    pub closed spec fn model(&self) -> ContentModel {
        ContentModel {
            next: self.next as nat,
            rows: attempts::trace(self.rows@),
            leg: self.leg@,
            body: body_view(self.body),
        }
    }

    /// The sources of the publishers.
    pub closed spec fn sources(&self) -> Seq<EntryModel> {
        chain::entries(self.sources@)
    }

    /// The DOI.
    pub closed spec fn doi(&self) -> Seq<char> {
        self.doi@.id()
    }

    /// Whether a reply is awaited.
    pub closed spec fn asked(&self) -> bool {
        self.asked
    }

    #[verifier::type_invariant]
    closed spec fn wf(&self) -> bool {
        &&& self.doi@ is Doi
        &&& self.next <= self.sources@.len()
        &&& self.asked ==> content_open(self.model(), self.sources())
    }

    /// Starts at the first publisher, with what the legs before came to.
    pub fn new(
        doi: &Doi,
        leg: PdfLegStatus,
        body: Option<Vec<u8>>,
        rows: Vec<SourceAttempt>,
        sources: Vec<ChainEntry>,
    ) -> (r: ContentChain)
        ensures
            r.model() == (ContentModel {
                next: 0,
                rows: attempts::trace(rows@),
                leg: leg@,
                body: body_view(body),
            }),
            r.sources() == chain::entries(sources@),
            r.doi() == doi@,
            !r.asked(),
    {
        ContentChain {
            doi: Ref::Doi(doi.clone()),
            sources,
            next: 0,
            asked: false,
            rows,
            leg,
            body,
        }
    }

    /// Goes on to the next publisher that is to be asked; there is none where
    /// the document is not blocked, or at the end.
    pub fn next_source(self) -> (r: (ContentChain, Option<&'static str>))
        ensures
            r.0.sources() == self.sources(),
            r.0.doi() == self.doi(),
            r.0.model() == if self.asked() {
                self.model()
            } else {
                content_advanced(self.model(), self.doi(), self.sources())
            },
            r.0.asked() == content_open(r.0.model(), self.sources()),
            match r.1 {
                Some(name) => r.0.asked() && name@ == self.sources()[r.0.model().next as int].name,
                None => !r.0.asked(),
            },
    {
        proof {
            use_type_invariant(&self);
        }
        let ghost done = content_advanced(self.model(), self.doi(), self.sources());
        let ghost begin = self;
        let ContentChain { doi, sources, next, asked, rows, leg, body } = self;
        if asked {
            let name = sources[next].name;
            return (
                ContentChain { doi, sources, next, asked: true, rows, leg, body },
                Some(name),
            );
        }
        if !wants_another_copy(&leg, &body) {
            return (ContentChain { doi, sources, next, asked: false, rows, leg, body }, None);
        }
        let mut next: usize = next;
        let mut rows = rows;
        let ghost es = chain::entries(sources@);
        while next < sources.len()
            invariant
                next <= sources.len(),
                es == chain::entries(sources@),
                es == begin.sources(),
                doi@ is Doi,
                doi@.id() == begin.doi(),
                leg@ is Blocked,
                body is None,
                !begin.asked(),
                begin == self,
                done == content_advanced(begin.model(), begin.doi(), begin.sources()),
                content_advanced(
                    ContentModel {
                        next: next as nat,
                        rows: attempts::trace(rows@),
                        leg: leg@,
                        body: body_view(body),
                    },
                    doi@.id(),
                    es,
                ) == done,
            decreases sources.len() - next,
        {
            match chain::skip_reason(false, &doi, &sources[next]) {
                Some(o) => {
                    rows = chain::record(rows, sources[next].name, o);
                    next += 1;
                },
                None => {
                    let name = sources[next].name;
                    return (
                        ContentChain { doi, sources, next, asked: true, rows, leg, body },
                        Some(name),
                    );
                },
            }
        }
        (ContentChain { doi, sources, next, asked: false, rows, leg, body }, None)
    }

    /// Takes the reply of the publisher that was asked: its document, nothing
    /// where it has no documents, or its failure.
    pub fn reply(self, reply: Result<Option<Vec<u8>>, SourceFailure>) -> (r: ContentChain)
        ensures
            r.sources() == self.sources(),
            r.doi() == self.doi(),
            !r.asked(),
            r.model() == if self.asked() {
                content_replied(self.model(), self.sources(), content_reply_view(reply))
            } else {
                self.model()
            },
    {
        proof {
            use_type_invariant(&self);
        }
        let ContentChain { doi, sources, next, asked, rows, leg, body } = self;
        if !asked {
            return ContentChain { doi, sources, next, asked: false, rows, leg, body };
        }
        let count = sources.len();
        assert(next < count);
        let name = sources[next].name;
        match reply {
            Ok(None) => ContentChain {
                doi,
                sources,
                next: next + 1,
                asked: false,
                rows,
                leg,
                body,
            },
            Ok(Some(b)) => {
                let rows = chain::record(rows, name, AttemptOutcome::Resolved);
                let original_block = match leg {
                    PdfLegStatus::Blocked { code: _, message, denial: _, suggested_arxiv_id: _ } =>
                        message,
                    _ => String::new(),
                };
                let leg = PdfLegStatus::TdmFetched { source: name.to_string(), original_block };
                ContentChain {
                    doi,
                    sources,
                    next: next + 1,
                    asked: false,
                    rows,
                    leg,
                    body: Some(b),
                }
            },
            Err(f) => {
                let o = attempts::classify_attempt(&f.error, f.shown.as_str());
                let rows = chain::record(rows, name, o);
                ContentChain { doi, sources, next: next + 1, asked: false, rows, leg, body }
            },
        }
    }

    /// What the walk came to.
    pub fn finish(self) -> (r: (PdfLegStatus, Option<Vec<u8>>, Vec<SourceAttempt>))
        ensures
            r.0@ == self.model().leg,
            body_view(r.1) == self.model().body,
            attempts::trace(r.2@) == self.model().rows,
    {
        let ContentChain { doi: _, sources: _, next: _, asked: _, rows, leg, body } = self;
        (leg, body, rows)
    }
}

// ---------------------------------------------------------------------------
// Laws
// ---------------------------------------------------------------------------

/// A leg that says there is a document goes with one, and one that says there
/// is none goes without.
pub open spec fn honest(leg: LegModel, has_body: bool) -> bool {
    match leg {
        LegModel::Fetched => has_body,
        LegModel::PreprintFallback { .. } => has_body,
        LegModel::TdmFetched { .. } => has_body,
        LegModel::NoOaUrl => !has_body,
        LegModel::Blocked { .. } => !has_body,
    }
}

/// A walk along the open copies tells the truth: a blocked document is never
/// passed off as fetched, nor as one that there was none of.
pub proof fn law_oa_walks_are_honest(w: OaModel)
    requires
        w.body is Some ==> w.urls.len() > 0,
    ensures
        honest(oa_leg(w), w.body is Some),
        oa_leg(w) is NoOaUrl <==> w.urls.len() == 0,
{
}

/// The first copy that can be fetched ends the walk; every copy in front of it
/// was tried, and none is tried twice.
pub proof fn law_copies_are_tried_in_order(
    w: OaModel,
    reply: Result<Seq<u8>, (HttpErrorModel, Seq<char>)>,
)
    ensures
        oa_replied(w, reply).urls == w.urls,
        w.body is None && w.next < w.urls.len() ==> oa_replied(w, reply).next == w.next + 1,
        w.body is Some ==> oa_replied(w, reply) == w,
        w.body is None && w.next < w.urls.len() ==> (oa_replied(w, reply).body is Some
            <==> reply is Ok),
{
}

/// Asking the publishers changes nothing unless a copy is blocked, and keeps
/// the block unless a publisher serves its own.
pub proof fn law_publishers_only_add(
    c: ContentModel,
    doi: Seq<char>,
    es: Seq<EntryModel>,
    reply: Result<Option<Seq<u8>>, OutcomeModel>,
)
    requires
        honest(c.leg, c.body is Some),
    ensures
        content_advanced(c, doi, es).leg == c.leg,
        content_advanced(c, doi, es).body == c.body,
        !(c.leg is Blocked) ==> content_advanced(c, doi, es) == c,
        content_open(c, es) ==> honest(
            content_replied(c, es, reply).leg,
            content_replied(c, es, reply).body is Some,
        ),
        content_open(c, es) && !(reply matches Ok(Some(_))) ==> content_replied(c, es, reply).leg
            == c.leg,
    decreases es.len() - c.next,
{
    if content_open(c, es) {
        let e = es[c.next as int];
        match chain::skipped(false, RefModel::Doi(doi), e) {
            Some(o) => {
                law_publishers_only_add(
                    ContentModel {
                        next: c.next + 1,
                        rows: chain::recorded(c.rows, e.name, o),
                        ..c
                    },
                    doi,
                    es,
                    reply,
                );
            },
            None => {},
        }
    }
}

/// A copy that was fetched is kept byte for byte; a copy that failed is
/// remembered by its error, and the last such error is the one that counts.
pub proof fn law_copies_are_kept_as_they_came(
    w: OaModel,
    reply: Result<Seq<u8>, (HttpErrorModel, Seq<char>)>,
)
    requires
        w.body is None,
        w.next < w.urls.len(),
    ensures
        reply matches Ok(b) ==> oa_replied(w, reply).body == Some(b) && oa_leg(
            oa_replied(w, reply),
        ) is Fetched,
        reply matches Err((e, shown)) ==> oa_replied(w, reply).body is None && (oa_leg(
            oa_replied(w, reply),
        ) matches LegModel::Blocked { code, message, denial, suggested_arxiv_id } && code
            == ErrorCode::NetworkError && message == shown && denial == error::http_denial(e)
            && suggested_arxiv_id == first_arxiv_id(w.urls)),
{
}

/// The preprint that is suggested is that of the first copy whose address names
/// one.
pub proof fn law_the_first_preprint_is_suggested(v: Seq<UrlModel>, k: int)
    requires
        0 <= k <= v.len(),
        forall|i: int| 0 <= i < k ==> extract::arxiv_id_of(#[trigger] v[i]) is None,
        k < v.len() ==> extract::arxiv_id_of(v[k]) is Some,
    ensures
        first_arxiv_id(v) == if k < v.len() {
            extract::arxiv_id_of(v[k])
        } else {
            None
        },
    decreases v.len(),
{
    if v.len() > 0 && k > 0 {
        let d = v.drop_first();
        assert(extract::arxiv_id_of(v[0]) is None);
        assert forall|i: int| 0 <= i < k - 1 implies extract::arxiv_id_of(
            #[trigger] d[i],
        ) is None by {
            assert(d[i] == v[i + 1]);
        }
        law_the_first_preprint_is_suggested(d, k - 1);
    }
}

/// A preprint is tried exactly where the document is blocked and the id that was
/// suggested is one.
pub proof fn law_suggested_preprints_are_tried(leg: LegModel, id: Seq<char>)
    ensures
        (leg matches LegModel::Blocked { suggested_arxiv_id: Some(s), .. } && s == id)
            && refs::parse_ref(id) == Ok::<RefModel, refs::RefParseError>(RefModel::Arxiv(id))
            ==> preprint(leg) == Some(id),
        preprint(leg) == Some(id) ==> leg is Blocked && refs::parse_ref(id) == Ok::<
            RefModel,
            refs::RefParseError,
        >(RefModel::Arxiv(id)),
        !(leg is Blocked) ==> preprint(leg) is None,
        leg matches LegModel::Blocked { suggested_arxiv_id: None, .. } ==> preprint(leg) is None,
{
    if refs::arxiv_defect(id) is None {
        refs::law_bare_identifiers_parse(RefModel::Arxiv(id));
    }
    if refs::parse_ref(id) == Ok::<RefModel, refs::RefParseError>(RefModel::Arxiv(id)) {
        refs::lemma_arxiv_has_no_scheme(id);
    }
}

/// A publisher's copy is kept byte for byte under the name of its source, with
/// the block that it got around; a publisher without a copy, or one that failed,
/// leaves the block.
pub proof fn law_publishers_copies_are_kept_as_they_came(
    c: ContentModel,
    es: Seq<EntryModel>,
    reply: Result<Option<Seq<u8>>, OutcomeModel>,
)
    ensures
        content_replied(c, es, reply).next == c.next + 1,
        ({
            let n = content_replied(c, es, reply);
            let name = es[c.next as int].name;
            &&& reply matches Ok(Some(b)) ==> n.body == Some(b) && (c.leg matches LegModel::Blocked {
                message,
                ..
            } ==> n.leg == (LegModel::TdmFetched { source: name, original_block: message }))
                && n.rows == chain::recorded(c.rows, name, OutcomeModel::Resolved)
            &&& reply matches Ok(None) ==> n.body == c.body && n.leg == c.leg && n.rows == c.rows
            &&& reply matches Err(o) ==> n.body == c.body && n.leg == c.leg && n.rows
                == chain::recorded(c.rows, name, o)
        }),
{
}

/// The publishers are passed over for a reason alone: the walk stops at the first
/// that is to be asked, or at the end; and it does not go on where there is
/// nothing to get around.
pub proof fn law_publishers_are_asked_in_turn(c: ContentModel, doi: Seq<char>, es: Seq<EntryModel>)
    requires
        c.next <= es.len(),
    ensures
        ({
            let a = content_advanced(c, doi, es);
            &&& c.next <= a.next <= es.len()
            &&& a.leg == c.leg && a.body == c.body
            &&& c.leg is Blocked && c.body is None && a.next < es.len() ==> chain::skipped(
                false,
                RefModel::Doi(doi),
                es[a.next as int],
            ) is None
            &&& !(c.leg is Blocked && c.body is None) ==> a == c
            &&& forall|i: int|
                c.next <= i < a.next ==> chain::skipped(
                    false,
                    RefModel::Doi(doi),
                    #[trigger] es[i],
                ) is Some
        }),
    decreases es.len() - c.next,
{
    if content_open(c, es) {
        let e = es[c.next as int];
        match chain::skipped(false, RefModel::Doi(doi), e) {
            Some(o) => {
                law_publishers_are_asked_in_turn(
                    ContentModel {
                        next: c.next + 1,
                        rows: chain::recorded(c.rows, e.name, o),
                        ..c
                    },
                    doi,
                    es,
                );
            },
            None => {},
        }
    }
}

/// CORE, HAL and Europe PMC name documents in their records, no other source
/// does.
pub proof fn law_three_sources_name_documents(source: Seq<char>)
    ensures
        names_documents(source) <==> seq!["core"@, "hal"@, "europe-pmc"@].contains(source),
{
    let s = seq!["core"@, "hal"@, "europe-pmc"@];
    assert(s[0] == "core"@ && s[1] == "hal"@ && s[2] == "europe-pmc"@);
    if s.contains(source) {
        let i = choose|i: int| 0 <= i < s.len() && s[i] == source;
        assert(i == 0 || i == 1 || i == 2);
    }
}

} // verus!

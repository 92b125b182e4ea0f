//! The fetch of a DOI, without its requests: which request comes next, and
//! what its answer changes.
//!
//! The metadata come first: Crossref, then the publishers' sources, then the
//! optional sources, each only where nothing before it answered; Unpaywall
//! names the open copies. The document comes after: the open copies in their
//! order, the preprint, a copy that an optional source knows, and at last the
//! publisher's own.

use crate::json::Json;
use crate::orchestrator::attempts;
use crate::orchestrator::attempts::AttemptModel;
use crate::orchestrator::attempts::SourceAttempt;
use crate::orchestrator::chain;
use crate::orchestrator::chain::ChainEntry;
use crate::orchestrator::chain::ChainModel;
use crate::orchestrator::chain::EntryModel;
use crate::orchestrator::chain::SourceChain;
use crate::orchestrator::chain::SourceFailure;
use crate::orchestrator::extract;
use crate::orchestrator::legs;
use crate::orchestrator::legs::ContentChain;
use crate::orchestrator::legs::ContentModel;
use crate::orchestrator::legs::LegModel;
use crate::orchestrator::legs::OaFailure;
use crate::orchestrator::legs::OaModel;
use crate::orchestrator::legs::OaWalk;
use crate::orchestrator::legs::PdfLegStatus;
use crate::orchestrator::paper::DoiFindings;
use crate::orchestrator::paper::FindingsModel;
use crate::refs::ArxivId;
use crate::refs::Doi;
use crate::refs::Ref;
use crate::refs::RefModel;
use crate::text;
use crate::urls;
use crate::urls::UrlModel;
use crate::urls::WebUrl;
use vstd::prelude::*;

verus! {

/// What Crossref gave.
pub struct CrossrefReply {
    /// Its record.
    pub record: Option<Json>,
    /// Where it came from.
    pub final_url: Option<String>,
}

/// What Unpaywall gave.
pub struct UnpaywallReply {
    /// Its record.
    pub record: Option<Json>,
    /// License.
    pub license: String,
}

/// The request that comes next.
pub enum DoiAction {
    /// Ask a publisher's source for the metadata.
    AskTdm(&'static str),
    /// Ask an optional source for the metadata.
    AskOptional(&'static str),
    /// Ask Unpaywall.
    AskUnpaywall,
    /// Fetch an open copy.
    FetchCopy(WebUrl),
    /// Fetch the preprint.
    FetchPreprint(ArxivId),
    /// Find the address of the document in the record that a source gave.
    LocateCopy(&'static str),
    /// Fetch the publisher's own copy.
    FetchContent(&'static str),
    /// Nothing is left to do.
    Conclude,
}

/// The answer to a request.
pub enum DoiEvent {
    /// A source's record, where it gave one, or its failure.
    Record(Result<Option<Json>, SourceFailure>),
    /// Unpaywall's answer; nothing where it failed.
    Unpaywall(Option<UnpaywallReply>),
    /// An open copy, or why there is none.
    Copy(Result<Vec<u8>, OaFailure>),
    /// The preprint and its license; nothing where it failed.
    Preprint(Option<(Vec<u8>, String)>),
    /// The address of the document; nothing where the record has none.
    Address(Option<String>),
    /// The publisher's copy, nothing where it has none, or its failure.
    Content(Result<Option<Vec<u8>>, SourceFailure>),
}

/// The sources of the two chains.
pub struct Chains {
    pub tdm: Seq<EntryModel>,
    pub optional: Seq<EntryModel>,
}

/// Where a fetch stands. Each stage but the last awaits an answer.
pub enum StageModel {
    Tdm(ChainModel),
    Optional(ChainModel),
    Unpaywall,
    Oa(OaModel),
    Preprint(Seq<char>),
    Again(ChainModel),
    Locate(Seq<char>),
    Copy(UrlModel),
    Content(ContentModel),
    Done,
}

/// A fetch under way. While the publishers are asked for their copies the
/// trace, the leg and the document are with that stage.
pub struct DoiModel {
    pub f: FindingsModel,
    pub tdm_found: bool,
    pub found: Option<(Seq<char>, Json)>,
    pub stage: StageModel,
}

// ---------------------------------------------------------------------------
// The stages, from the last to the first
// ---------------------------------------------------------------------------

/// A chain that has not begun.
pub open spec fn fresh_chain() -> ChainModel {
    ChainModel { next: 0, rows: Seq::empty(), found: None }
}

/// The fetch with the publishers' walk behind it, or waiting in it.
pub open spec fn in_content(d: DoiModel, c: ContentModel, x: Chains) -> DoiModel {
    if legs::content_open(c, x.tdm) {
        DoiModel {
            f: FindingsModel {
                rows: Seq::empty(),
                leg: LegModel::NoOaUrl,
                body: None,
                ..d.f
            },
            stage: StageModel::Content(c),
            ..d
        }
    } else {
        DoiModel {
            f: FindingsModel { rows: c.rows, leg: c.leg, body: c.body, ..d.f },
            stage: StageModel::Done,
            ..d
        }
    }
}

/// The publishers are asked for their own copies, as far as a copy is blocked.
pub open spec fn enter_content(d: DoiModel, x: Chains) -> DoiModel {
    in_content(
        d,
        legs::content_advanced(
            ContentModel { next: 0, rows: d.f.rows, leg: d.f.leg, body: d.f.body },
            d.f.doi,
            x.tdm,
        ),
        x,
    )
}

/// The document is looked for in the record of a source that names documents.
pub open spec fn enter_locate(d: DoiModel, x: Chains) -> DoiModel {
    match d.found {
        Some((source, _)) => if legs::names_documents(source) {
            DoiModel { stage: StageModel::Locate(source), ..d }
        } else {
            enter_content(d, x)
        },
        None => enter_content(d, x),
    }
}

/// The fetch with the second run of the optional chain behind it, or waiting
/// in it.
pub open spec fn in_again(d: DoiModel, c: ChainModel, x: Chains) -> DoiModel {
    if c.next < x.optional.len() {
        DoiModel { stage: StageModel::Again(c), ..d }
    } else {
        enter_locate(
            DoiModel {
                f: FindingsModel { rows: chain::merged(d.f.rows, c.rows), ..d.f },
                found: c.found,
                ..d
            },
            x,
        )
    }
}

/// Another copy is looked for where the document is blocked: in the record
/// that the optional chain gave, or in that of a second run.
pub open spec fn enter_again(d: DoiModel, x: Chains) -> DoiModel {
    if d.f.leg is Blocked && d.f.body is None {
        if d.found is Some {
            enter_locate(d, x)
        } else {
            in_again(
                d,
                chain::advanced(fresh_chain(), false, RefModel::Doi(d.f.doi), x.optional),
                x,
            )
        }
    } else {
        enter_content(d, x)
    }
}

/// The preprint is tried where a copy is blocked and one is known.
pub open spec fn enter_preprint(d: DoiModel, x: Chains) -> DoiModel {
    match legs::preprint(d.f.leg) {
        Some(id) => DoiModel { stage: StageModel::Preprint(id), ..d },
        None => enter_again(d, x),
    }
}

/// The fetch with the open copies behind it, or waiting in them.
pub open spec fn in_oa(d: DoiModel, w: OaModel, x: Chains) -> DoiModel {
    if w.body is None && w.next < w.urls.len() {
        DoiModel { stage: StageModel::Oa(w), ..d }
    } else {
        enter_preprint(
            DoiModel {
                f: FindingsModel { leg: legs::oa_leg(w), body: w.body, ..d.f },
                ..d
            },
            x,
        )
    }
}

/// The source that the metadata are told to come from.
pub open spec fn metadata_label(license: Seq<char>) -> Seq<char> {
    if license != "unknown"@ {
        "unpaywall"@
    } else {
        "crossref"@
    }
}

/// The fetch after Unpaywall's answer.
pub open spec fn after_unpaywall(
    d: DoiModel,
    reply: Option<(Option<Json>, Seq<char>)>,
    x: Chains,
) -> DoiModel {
    let (license, status, urls) = match reply {
        Some((record, license)) => (
            license,
            match record {
                Some(v) => extract::unpaywall_oa_status(v),
                None => None,
            },
            extract::oa_chain(record),
        ),
        None => ("unknown"@, None, Seq::empty()),
    };
    in_oa(
        DoiModel {
            f: FindingsModel {
                license,
                label: metadata_label(license),
                oa_status: status,
                ..d.f
            },
            ..d
        },
        OaModel { urls, next: 0, failed: None, body: None },
        x,
    )
}

/// The fetch with the optional chain behind it, or waiting in it.
pub open spec fn in_optional(d: DoiModel, c: ChainModel, x: Chains) -> DoiModel {
    if c.next < x.optional.len() {
        DoiModel { stage: StageModel::Optional(c), ..d }
    } else {
        DoiModel {
            f: FindingsModel {
                rows: d.f.rows + c.rows,
                fields: match c.found {
                    Some((source, record)) => extract::optional_fields(source, record),
                    None => d.f.fields,
                },
                ..d.f
            },
            found: c.found,
            stage: StageModel::Unpaywall,
            ..d
        }
    }
}

/// The optional sources are asked where neither Crossref nor a publisher
/// answered.
pub open spec fn enter_optional(d: DoiModel, x: Chains) -> DoiModel {
    in_optional(
        d,
        chain::advanced(
            fresh_chain(),
            d.f.crossref_error is None || d.tdm_found,
            RefModel::Doi(d.f.doi),
            x.optional,
        ),
        x,
    )
}

/// The fetch with the publishers' chain behind it, or waiting in it.
pub open spec fn in_tdm(d: DoiModel, c: ChainModel, x: Chains) -> DoiModel {
    if c.next < x.tdm.len() {
        DoiModel { stage: StageModel::Tdm(c), ..d }
    } else {
        enter_optional(
            DoiModel {
                f: FindingsModel { rows: d.f.rows + c.rows, ..d.f },
                tdm_found: c.found is Some,
                ..d
            },
            x,
        )
    }
}

/// The findings after Crossref's answer.
pub open spec fn first_findings(
    doi: Seq<char>,
    reply: Result<(Option<Json>, Option<Seq<char>>), SourceFailure>,
) -> FindingsModel {
    FindingsModel {
        doi,
        crossref_url: match reply {
            Ok((_, url)) => url,
            Err(_) => None,
        },
        crossref_error: match reply {
            Ok(_) => None,
            Err(e) => Some(e),
        },
        fields: match reply {
            Ok((Some(record), _)) => extract::crossref_fields(record),
            _ => extract::crossref_fields(Json::Null),
        },
        rows: Seq::empty(),
        license: "unknown"@,
        label: "crossref"@,
        oa_status: None,
        leg: LegModel::NoOaUrl,
        body: None,
        arxiv_id: None,
    }
}

/// The fetch after Crossref's answer.
pub open spec fn started(
    doi: Seq<char>,
    reply: Result<(Option<Json>, Option<Seq<char>>), SourceFailure>,
    x: Chains,
) -> DoiModel {
    let f = first_findings(doi, reply);
    in_tdm(
        DoiModel { f, tdm_found: false, found: None, stage: StageModel::Done },
        chain::advanced(
            fresh_chain(),
            f.crossref_error is None,
            RefModel::Doi(doi),
            x.tdm,
        ),
        x,
    )
}

/// An answer, as a model.
pub enum EventModel {
    Record(Result<Option<Json>, SourceFailure>),
    Unpaywall(Option<(Option<Json>, Seq<char>)>),
    Copy(Result<Seq<u8>, (crate::http::error::HttpErrorModel, Seq<char>)>),
    Preprint(Option<(Seq<u8>, Seq<char>)>),
    Address(Option<Seq<char>>),
    Content(Result<Option<Seq<u8>>, attempts::OutcomeModel>),
}

impl View for DoiEvent {
    type V = EventModel;

    open spec fn view(&self) -> EventModel {
        match *self {
            DoiEvent::Record(r) => EventModel::Record(r),
            DoiEvent::Unpaywall(r) => EventModel::Unpaywall(
                match r {
                    Some(u) => Some((u.record, u.license@)),
                    None => None,
                },
            ),
            DoiEvent::Copy(r) => EventModel::Copy(
                match r {
                    Ok(b) => Ok(b@),
                    Err(f) => Err((f.error@, f.shown@)),
                },
            ),
            DoiEvent::Preprint(r) => EventModel::Preprint(
                match r {
                    Some((b, license)) => Some((b@, license@)),
                    None => None,
                },
            ),
            DoiEvent::Address(r) => EventModel::Address(text::opt_view(r)),
            DoiEvent::Content(r) => EventModel::Content(legs::content_reply_view(r)),
        }
    }
}

/// The URL of the copy at an address.
pub open spec fn address_url(raw: Option<Seq<char>>) -> Option<UrlModel> {
    match raw {
        Some(s) => match urls::url_of(s) {
            Ok(u) => Some(u),
            Err(_) => None,
        },
        None => None,
    }
}

/// The fetch after an answer. An answer to another request than the one that
/// was made changes nothing.
pub open spec fn stepped(d: DoiModel, e: EventModel, x: Chains) -> DoiModel {
    let m = RefModel::Doi(d.f.doi);
    match (d.stage, e) {
        (StageModel::Tdm(c), EventModel::Record(r)) => in_tdm(
            d,
            chain::advanced(
                chain::replied(c, x.tdm, r),
                d.f.crossref_error is None,
                m,
                x.tdm,
            ),
            x,
        ),
        (StageModel::Optional(c), EventModel::Record(r)) => in_optional(
            d,
            chain::advanced(
                chain::replied(c, x.optional, r),
                d.f.crossref_error is None || d.tdm_found,
                m,
                x.optional,
            ),
            x,
        ),
        (StageModel::Unpaywall, EventModel::Unpaywall(r)) => after_unpaywall(d, r, x),
        (StageModel::Oa(w), EventModel::Copy(r)) => in_oa(d, legs::oa_replied(w, r), x),
        (StageModel::Preprint(id), EventModel::Preprint(r)) => match r {
            Some((b, license)) => enter_again(
                DoiModel {
                    f: FindingsModel {
                        leg: LegModel::PreprintFallback {
                            arxiv_id: id,
                            original_block: legs::block_text(d.f.leg),
                        },
                        body: Some(b),
                        arxiv_id: Some(id),
                        license,
                        ..d.f
                    },
                    ..d
                },
                x,
            ),
            None => enter_again(d, x),
        },
        (StageModel::Again(c), EventModel::Record(r)) => in_again(
            d,
            chain::advanced(chain::replied(c, x.optional, r), false, m, x.optional),
            x,
        ),
        (StageModel::Locate(_), EventModel::Address(raw)) => match address_url(raw) {
            Some(u) => DoiModel { stage: StageModel::Copy(u), ..d },
            None => enter_content(d, x),
        },
        (StageModel::Copy(_), EventModel::Copy(r)) => match r {
            Ok(b) => enter_content(
                DoiModel {
                    f: FindingsModel { leg: LegModel::Fetched, body: Some(b), ..d.f },
                    ..d
                },
                x,
            ),
            Err(_) => enter_content(d, x),
        },
        (StageModel::Content(c), EventModel::Content(r)) => in_content(
            d,
            legs::content_advanced(legs::content_replied(c, x.tdm, r), d.f.doi, x.tdm),
            x,
        ),
        _ => d,
    }
}

// ---------------------------------------------------------------------------
// The fetch
// ---------------------------------------------------------------------------

enum Stage {
    Tdm(SourceChain, &'static str),
    Optional(SourceChain, &'static str),
    Unpaywall,
    Oa(OaWalk, WebUrl),
    Preprint(ArxivId),
    Again(SourceChain, &'static str),
    Locate(&'static str),
    Copy(WebUrl),
    Content(ContentChain, &'static str),
    Done,
}

struct Core {
    f: DoiFindings,
    tdm: Vec<ChainEntry>,
    optional: Vec<ChainEntry>,
    tdm_found: bool,
    found: Option<(&'static str, Json)>,
}

/// The fetch of a DOI under way.
pub struct DoiFetch {
    core: Core,
    stage: Stage,
}

impl Core {
    spec fn chains(&self) -> Chains {
        Chains { tdm: chain::entries(self.tdm@), optional: chain::entries(self.optional@) }
    }

    spec fn at(&self, stage: StageModel) -> DoiModel {
        DoiModel {
            f: self.f@,
            tdm_found: self.tdm_found,
            found: chain::found_view(self.found),
            stage,
        }
    }
}

spec fn stage_view(s: Stage) -> StageModel {
    match s {
        Stage::Tdm(c, _) => StageModel::Tdm(c.model()),
        Stage::Optional(c, _) => StageModel::Optional(c.model()),
        Stage::Unpaywall => StageModel::Unpaywall,
        Stage::Oa(w, _) => StageModel::Oa(w.model()),
        Stage::Preprint(id) => StageModel::Preprint(id@),
        Stage::Again(c, _) => StageModel::Again(c.model()),
        Stage::Locate(s) => StageModel::Locate(s@),
        Stage::Copy(u) => StageModel::Copy(u@),
        Stage::Content(c, _) => StageModel::Content(c.model()),
        Stage::Done => StageModel::Done,
    }
}

spec fn awaits(
    c: SourceChain,
    name: &'static str,
    doi: Seq<char>,
    answered: bool,
    es: Seq<EntryModel>,
) -> bool {
    &&& c.sources() == es
    &&& c.reference() == RefModel::Doi(doi)
    &&& c.answered() == answered
    &&& c.asked()
    &&& c.model().next < es.len()
    &&& name@ == es[c.model().next as int].name
}

impl DoiFetch {
    /// The fetch so far.
    pub closed spec fn model(&self) -> DoiModel {
        self.core.at(stage_view(self.stage))
    }

    /// The sources of the two chains.
    pub closed spec fn chains(&self) -> Chains {
        self.core.chains()
    }

    #[verifier::type_invariant]
    closed spec fn wf(&self) -> bool {
        let x = self.core.chains();
        let f = self.core.f@;
        match self.stage {
            Stage::Tdm(c, name) => awaits(c, name, f.doi, f.crossref_error is None, x.tdm),
            Stage::Optional(c, name) => awaits(
                c,
                name,
                f.doi,
                f.crossref_error is None || self.core.tdm_found,
                x.optional,
            ),
            Stage::Again(c, name) => awaits(c, name, f.doi, false, x.optional),
            Stage::Oa(w, u) => w.model().body is None && w.model().next < w.model().urls.len()
                && u@ == w.model().urls[w.model().next as int],
            Stage::Content(c, name) => {
                &&& c.sources() == x.tdm
                &&& c.doi() == f.doi
                &&& c.asked()
                &&& c.model().next < x.tdm.len()
                &&& name@ == x.tdm[c.model().next as int].name
            },
            Stage::Locate(s) => self.core.found is Some && self.core.found->Some_0.0@ == s@
                && legs::names_documents(s@),
            Stage::Preprint(id) => f.leg is Blocked,
            _ => true,
        }
    }

    fn in_content(core: Core, c: ContentChain) -> (r: DoiFetch)
        requires
            c.sources() == core.chains().tdm,
            c.doi() == core.f@.doi,
            !c.asked(),
        ensures
            r.chains() == core.chains(),
            r.model() == in_content(
                core.at(StageModel::Done),
                legs::content_advanced(c.model(), core.f@.doi, core.chains().tdm),
                core.chains(),
            ),
    {
        let (c, name) = c.next_source();
        let mut core = core;
        match name {
            Some(n) => {
                core.f.rows = Vec::new();
                core.f.leg = PdfLegStatus::NoOaUrl;
                core.f.body = None;
                assert(attempts::trace(core.f.rows@) =~= Seq::<AttemptModel>::empty());
                DoiFetch { core, stage: Stage::Content(c, n) }
            },
            None => {
                let (leg, body, rows) = c.finish();
                core.f.rows = rows;
                core.f.leg = leg;
                core.f.body = body;
                DoiFetch { core, stage: Stage::Done }
            },
        }
    }

    fn enter_content(core: Core) -> (r: DoiFetch)
        ensures
            r.chains() == core.chains(),
            r.model() == enter_content(core.at(StageModel::Done), core.chains()),
    {
        let ghost before = core.at(StageModel::Done);
        let ghost x = core.chains();
        let mut core = core;
        let sources = chain::copy_entries(&core.tdm);
        let mut rows: Vec<SourceAttempt> = Vec::new();
        let mut leg = PdfLegStatus::NoOaUrl;
        let mut body: Option<Vec<u8>> = None;
        std::mem::swap(&mut rows, &mut core.f.rows);
        std::mem::swap(&mut leg, &mut core.f.leg);
        std::mem::swap(&mut body, &mut core.f.body);
        let c = ContentChain::new(&core.f.doi, leg, body, rows, sources);
        Self::in_content(core, c)
    }

    fn enter_locate(core: Core) -> (r: DoiFetch)
        ensures
            r.chains() == core.chains(),
            r.model() == enter_locate(core.at(StageModel::Done), core.chains()),
    {
        let source: &'static str = match &core.found {
            Some((s, _)) => *s,
            None => return Self::enter_content(core),
        };
        if text::same(source, "core") || text::same(source, "hal") || text::same(
            source,
            "europe-pmc",
        ) {
            DoiFetch { core, stage: Stage::Locate(source) }
        } else {
            Self::enter_content(core)
        }
    }

    fn in_again(core: Core, c: SourceChain) -> (r: DoiFetch)
        requires
            c.sources() == core.chains().optional,
            c.reference() == RefModel::Doi(core.f@.doi),
            !c.answered(),
            !c.asked(),
        ensures
            r.chains() == core.chains(),
            r.model() == in_again(
                core.at(StageModel::Done),
                chain::advanced(
                    c.model(),
                    false,
                    RefModel::Doi(core.f@.doi),
                    core.chains().optional,
                ),
                core.chains(),
            ),
    {
        let (c, name) = c.next_source();
        match name {
            Some(n) => DoiFetch { core, stage: Stage::Again(c, n) },
            None => {
                let (fresh, found) = c.finish();
                let mut core = core;
                let mut rows: Vec<SourceAttempt> = Vec::new();
                std::mem::swap(&mut rows, &mut core.f.rows);
                core.f.rows = chain::merge(rows, fresh);
                core.found = found;
                Self::enter_locate(core)
            },
        }
    }

    fn enter_again(core: Core) -> (r: DoiFetch)
        ensures
            r.chains() == core.chains(),
            r.model() == enter_again(core.at(StageModel::Done), core.chains()),
    {
        if !legs::wants_another_copy(&core.f.leg, &core.f.body) {
            return Self::enter_content(core);
        }
        if core.found.is_some() {
            return Self::enter_locate(core);
        }
        let sources = chain::copy_entries(&core.optional);
        let ref_ = Ref::Doi(core.f.doi.clone());
        let c = SourceChain::new(&ref_, false, sources);
        Self::in_again(core, c)
    }

    fn enter_preprint(core: Core) -> (r: DoiFetch)
        ensures
            r.chains() == core.chains(),
            r.model() == enter_preprint(core.at(StageModel::Done), core.chains()),
    {
        match legs::preprint_to_try(&core.f.leg) {
            Some(id) => DoiFetch { core, stage: Stage::Preprint(id) },
            None => Self::enter_again(core),
        }
    }

    fn in_oa(core: Core, w: OaWalk) -> (r: DoiFetch)
        ensures
            r.chains() == core.chains(),
            r.model() == in_oa(core.at(StageModel::Done), w.model(), core.chains()),
    {
        match w.next_url() {
            Some(u) => DoiFetch { core, stage: Stage::Oa(w, u) },
            None => {
                let (leg, body) = w.finish();
                let mut core = core;
                core.f.leg = leg;
                core.f.body = body;
                Self::enter_preprint(core)
            },
        }
    }

    fn after_unpaywall(core: Core, reply: Option<UnpaywallReply>) -> (r: DoiFetch)
        ensures
            r.chains() == core.chains(),
            r.model() == after_unpaywall(
                core.at(StageModel::Done),
                match reply {
                    Some(u) => Some((u.record, u.license@)),
                    None => None,
                },
                core.chains(),
            ),
    {
        let mut core = core;
        match reply {
            Some(u) => {
                let UnpaywallReply { record, license } = u;
                let oa_status = match &record {
                    Some(v) => extract::extract_unpaywall_oa_status(v),
                    None => None,
                };
                let urls = extract::extract_oa_url_chain(record.as_ref());
                core.f.label = if text::same(license.as_str(), "unknown") {
                    "crossref"
                } else {
                    "unpaywall"
                };
                core.f.license = license;
                core.f.oa_status = oa_status;
                Self::in_oa(core, OaWalk::new(urls))
            },
            None => {
                core.f.label = "crossref";
                core.f.license = "unknown".to_string();
                core.f.oa_status = None;
                let urls: Vec<WebUrl> = Vec::new();
                assert(extract::url_views(urls@) =~= Seq::<UrlModel>::empty());
                Self::in_oa(core, OaWalk::new(urls))
            },
        }
    }

    fn in_optional(core: Core, c: SourceChain) -> (r: DoiFetch)
        requires
            c.sources() == core.chains().optional,
            c.reference() == RefModel::Doi(core.f@.doi),
            c.answered() == (core.f@.crossref_error is None || core.tdm_found),
            !c.asked(),
        ensures
            r.chains() == core.chains(),
            r.model() == in_optional(
                core.at(StageModel::Done),
                chain::advanced(
                    c.model(),
                    c.answered(),
                    RefModel::Doi(core.f@.doi),
                    core.chains().optional,
                ),
                core.chains(),
            ),
    {
        let (c, name) = c.next_source();
        match name {
            Some(n) => DoiFetch { core, stage: Stage::Optional(c, n) },
            None => {
                let (fresh, found) = c.finish();
                let mut core = core;
                match &found {
                    Some((source, record)) => {
                        core.f.fields = extract::extract_optional_fields(*source, record);
                    },
                    None => {},
                }
                append_rows(&mut core.f.rows, fresh);
                core.found = found;
                DoiFetch { core, stage: Stage::Unpaywall }
            },
        }
    }

    fn in_tdm(core: Core, c: SourceChain) -> (r: DoiFetch)
        requires
            c.sources() == core.chains().tdm,
            c.reference() == RefModel::Doi(core.f@.doi),
            c.answered() == (core.f@.crossref_error is None),
            !c.asked(),
        ensures
            r.chains() == core.chains(),
            r.model() == in_tdm(
                core.at(StageModel::Done),
                chain::advanced(
                    c.model(),
                    c.answered(),
                    RefModel::Doi(core.f@.doi),
                    core.chains().tdm,
                ),
                core.chains(),
            ),
    {
        let (c, name) = c.next_source();
        match name {
            Some(n) => DoiFetch { core, stage: Stage::Tdm(c, n) },
            None => {
                let (fresh, found) = c.finish();
                let mut core = core;
                append_rows(&mut core.f.rows, fresh);
                core.tdm_found = found.is_some();
                let answered = core.f.crossref_error.is_none() || core.tdm_found;
                let sources = chain::copy_entries(&core.optional);
                let ref_ = Ref::Doi(core.f.doi.clone());
                let c = SourceChain::new(&ref_, answered, sources);
                Self::in_optional(core, c)
            },
        }
    }

    /// Starts with Crossref's answer. A failure does not end the fetch.
    pub fn start(
        doi: &Doi,
        crossref: Result<CrossrefReply, SourceFailure>,
        tdm: Vec<ChainEntry>,
        optional: Vec<ChainEntry>,
    ) -> (r: DoiFetch)
        ensures
            r.chains() == (Chains {
                tdm: chain::entries(tdm@),
                optional: chain::entries(optional@),
            }),
            r.model() == started(
                doi@,
                match crossref {
                    Ok(c) => Ok((c.record, text::opt_view(c.final_url))),
                    Err(e) => Err(e),
                },
                r.chains(),
            ),
    {
        let (record, crossref_url, crossref_error) = match crossref {
            Ok(c) => (c.record, c.final_url, None),
            Err(e) => (None, None, Some(e)),
        };
        let fields = match &record {
            Some(v) => extract::extract_crossref_fields(v),
            None => extract::extract_crossref_fields(&Json::Null),
        };
        let answered = crossref_error.is_none();
        let ref_ = Ref::Doi(doi.clone());
        let sources = chain::copy_entries(&tdm);
        let c = SourceChain::new(&ref_, answered, sources);
        let rows: Vec<SourceAttempt> = Vec::new();
        assert(attempts::trace(rows@) =~= Seq::<AttemptModel>::empty());
        let f = DoiFindings {
            doi: doi.clone(),
            crossref_url,
            crossref_error,
            fields,
            rows,
            license: "unknown".to_string(),
            label: "crossref",
            oa_status: None,
            leg: PdfLegStatus::NoOaUrl,
            body: None,
            arxiv_id: None,
        };
        let core = Core { f, tdm, optional, tdm_found: false, found: None };
        Self::in_tdm(core, c)
    }

    /// The request that comes next.
    pub fn action(&self) -> (r: DoiAction)
        ensures
            match self.model().stage {
                StageModel::Tdm(c) => r matches DoiAction::AskTdm(name) && name@
                    == self.chains().tdm[c.next as int].name,
                StageModel::Optional(c) => r matches DoiAction::AskOptional(name) && name@
                    == self.chains().optional[c.next as int].name,
                StageModel::Unpaywall => r is AskUnpaywall,
                StageModel::Oa(w) => r matches DoiAction::FetchCopy(u) && u@ == w.urls[w.next as int],
                StageModel::Preprint(id) => r matches DoiAction::FetchPreprint(a) && a@ == id,
                StageModel::Again(c) => r matches DoiAction::AskOptional(name) && name@
                    == self.chains().optional[c.next as int].name,
                StageModel::Locate(s) => r matches DoiAction::LocateCopy(name) && name@ == s,
                StageModel::Copy(m) => r matches DoiAction::FetchCopy(u) && u@ == m,
                StageModel::Content(c) => r matches DoiAction::FetchContent(name) && name@
                    == self.chains().tdm[c.next as int].name,
                StageModel::Done => r is Conclude,
            },
    {
        proof {
            use_type_invariant(self);
        }
        match &self.stage {
            Stage::Tdm(_, name) => DoiAction::AskTdm(*name),
            Stage::Optional(_, name) => DoiAction::AskOptional(*name),
            Stage::Unpaywall => DoiAction::AskUnpaywall,
            Stage::Oa(_, u) => DoiAction::FetchCopy(u.clone()),
            Stage::Preprint(id) => DoiAction::FetchPreprint(id.clone()),
            Stage::Again(_, name) => DoiAction::AskOptional(*name),
            Stage::Locate(name) => DoiAction::LocateCopy(*name),
            Stage::Copy(u) => DoiAction::FetchCopy(u.clone()),
            Stage::Content(_, name) => DoiAction::FetchContent(*name),
            Stage::Done => DoiAction::Conclude,
        }
    }

    /// The record in which the document is to be looked for.
    pub fn located_record(&self) -> (r: Option<&Json>)
        ensures
            match self.model().found {
                Some((_, record)) => r is Some && *r->Some_0 == record,
                None => r is None,
            },
    {
        match &self.core.found {
            Some((_, record)) => Some(record),
            None => None,
        }
    }

    /// Takes the answer to the request that was made.
    pub fn step(self, event: DoiEvent) -> (r: DoiFetch)
        ensures
            r.chains() == self.chains(),
            r.model() == stepped(self.model(), event@, self.chains()),
    {
        proof {
            use_type_invariant(&self);
        }
        let DoiFetch { core, stage } = self;
        match (stage, event) {
            (Stage::Tdm(c, _), DoiEvent::Record(reply)) => Self::in_tdm(core, c.reply(reply)),
            (Stage::Optional(c, _), DoiEvent::Record(reply)) => Self::in_optional(
                core,
                c.reply(reply),
            ),
            (Stage::Unpaywall, DoiEvent::Unpaywall(reply)) => Self::after_unpaywall(core, reply),
            (Stage::Oa(w, _), DoiEvent::Copy(reply)) => Self::in_oa(core, w.reply(reply)),
            (Stage::Preprint(id), DoiEvent::Preprint(reply)) => {
                let mut core = core;
                let mut leg = PdfLegStatus::NoOaUrl;
                let mut body: Option<Vec<u8>> = None;
                std::mem::swap(&mut leg, &mut core.f.leg);
                std::mem::swap(&mut body, &mut core.f.body);
                let p = legs::after_preprint(leg, body, id, reply);
                core.f.leg = p.leg;
                core.f.body = p.body;
                match p.license {
                    Some(l) => {
                        core.f.license = l;
                        core.f.arxiv_id = p.arxiv_id;
                    },
                    None => {},
                }
                Self::enter_again(core)
            },
            (Stage::Again(c, _), DoiEvent::Record(reply)) => Self::in_again(core, c.reply(reply)),
            (Stage::Locate(source), DoiEvent::Address(raw)) => {
                let url = match &raw {
                    Some(s) => legs::copy_url(source, Some(s.as_str())),
                    None => None,
                };
                match url {
                    Some(u) => DoiFetch { core, stage: Stage::Copy(u) },
                    None => Self::enter_content(core),
                }
            },
            (Stage::Copy(_), DoiEvent::Copy(reply)) => {
                let mut core = core;
                match reply {
                    Ok(b) => {
                        core.f.leg = PdfLegStatus::Fetched;
                        core.f.body = Some(b);
                    },
                    Err(_) => {},
                }
                Self::enter_content(core)
            },
            (Stage::Content(c, _), DoiEvent::Content(reply)) => Self::in_content(
                core,
                c.reply(reply),
            ),
            (stage, _) => DoiFetch { core, stage },
        }
    }

    /// What the fetch found; the document is in it once nothing is left to do.
    pub fn findings(self) -> (r: DoiFindings)
        ensures
            r@ == self.model().f,
    {
        let DoiFetch { core, stage: _ } = self;
        core.f
    }
}

fn append_rows(rows: &mut Vec<SourceAttempt>, fresh: Vec<SourceAttempt>)
    ensures
        attempts::trace(final(rows)@) == attempts::trace(old(rows)@) + attempts::trace(fresh@),
{
    let ghost before = rows@;
    let mut rest = fresh;
    rows.append(&mut rest);
    assert(attempts::trace(rows@) =~= attempts::trace(before) + attempts::trace(fresh@));
}

// ---------------------------------------------------------------------------
// Laws
// ---------------------------------------------------------------------------

/// Whether a fetch tells the truth of the document at every stage, and asks for
/// the preprint, for another copy and for the publisher's own only while the
/// document is blocked.
pub open spec fn truthful(d: DoiModel) -> bool {
    match d.stage {
        StageModel::Content(c) => c.leg is Blocked && c.body is None,
        StageModel::Preprint(id) => d.f.leg is Blocked && d.f.body is None && legs::preprint(
            d.f.leg,
        ) == Some(id),
        StageModel::Again(_) => d.f.leg is Blocked && d.f.body is None,
        StageModel::Locate(_) => d.f.leg is Blocked && d.f.body is None,
        StageModel::Copy(_) => d.f.leg is Blocked && d.f.body is None,
        StageModel::Oa(w) => d.f.leg is NoOaUrl && d.f.body is None && w.body is None && w.next
            < w.urls.len(),
        StageModel::Done => legs::honest(d.f.leg, d.f.body is Some),
        _ => d.f.leg is NoOaUrl && d.f.body is None,
    }
}

proof fn lemma_in_content(d: DoiModel, c: ContentModel, x: Chains)
    requires
        legs::honest(c.leg, c.body is Some),
    ensures
        truthful(in_content(d, c, x)),
{
}

proof fn lemma_enter_content(d: DoiModel, x: Chains)
    requires
        legs::honest(d.f.leg, d.f.body is Some),
    ensures
        truthful(enter_content(d, x)),
{
    let c = ContentModel { next: 0, rows: d.f.rows, leg: d.f.leg, body: d.f.body };
    legs::law_publishers_only_add(c, d.f.doi, x.tdm, Ok(None));
    lemma_in_content(d, legs::content_advanced(c, d.f.doi, x.tdm), x);
}

proof fn lemma_enter_locate(d: DoiModel, x: Chains)
    requires
        d.f.leg is Blocked && d.f.body is None,
    ensures
        truthful(enter_locate(d, x)),
{
    lemma_enter_content(d, x);
}

proof fn lemma_in_again(d: DoiModel, c: ChainModel, x: Chains)
    requires
        d.f.leg is Blocked && d.f.body is None,
    ensures
        truthful(in_again(d, c, x)),
{
    lemma_enter_locate(
        DoiModel {
            f: FindingsModel { rows: chain::merged(d.f.rows, c.rows), ..d.f },
            found: c.found,
            ..d
        },
        x,
    );
}

proof fn lemma_enter_again(d: DoiModel, x: Chains)
    requires
        legs::honest(d.f.leg, d.f.body is Some),
    ensures
        truthful(enter_again(d, x)),
{
    if d.f.leg is Blocked && d.f.body is None {
        lemma_enter_locate(d, x);
        lemma_in_again(
            d,
            chain::advanced(fresh_chain(), false, RefModel::Doi(d.f.doi), x.optional),
            x,
        );
    } else {
        lemma_enter_content(d, x);
    }
}

proof fn lemma_in_oa(d: DoiModel, w: OaModel, x: Chains)
    requires
        d.f.leg is NoOaUrl && d.f.body is None,
        w.body is Some ==> w.urls.len() > 0,
    ensures
        truthful(in_oa(d, w, x)),
{
    legs::law_oa_walks_are_honest(w);
    lemma_enter_again(
        DoiModel { f: FindingsModel { leg: legs::oa_leg(w), body: w.body, ..d.f }, ..d },
        x,
    );
}

/// Whatever is answered, and in whatever order, a fetch never passes a blocked
/// document off as fetched or as one that there was none of, and goes beyond
/// the open copies only while the document is blocked.
pub proof fn law_fetches_are_truthful(d: DoiModel, e: EventModel, x: Chains)
    requires
        truthful(d),
    ensures
        truthful(stepped(d, e, x)),
{
    let m = RefModel::Doi(d.f.doi);
    match (d.stage, e) {
        (StageModel::Unpaywall, EventModel::Unpaywall(r)) => {
            let (license, status, urls) = match r {
                Some((record, license)) => (
                    license,
                    match record {
                        Some(v) => extract::unpaywall_oa_status(v),
                        None => None,
                    },
                    extract::oa_chain(record),
                ),
                None => ("unknown"@, None, Seq::empty()),
            };
            lemma_in_oa(
                DoiModel {
                    f: FindingsModel {
                        license,
                        label: metadata_label(license),
                        oa_status: status,
                        ..d.f
                    },
                    ..d
                },
                OaModel { urls, next: 0, failed: None, body: None },
                x,
            );
        },
        (StageModel::Oa(w), EventModel::Copy(r)) => {
            lemma_in_oa(d, legs::oa_replied(w, r), x);
        },
        (StageModel::Preprint(id), EventModel::Preprint(r)) => match r {
            Some((b, license)) => {
                lemma_enter_again(
                    DoiModel {
                        f: FindingsModel {
                            leg: LegModel::PreprintFallback {
                                arxiv_id: id,
                                original_block: legs::block_text(d.f.leg),
                            },
                            body: Some(b),
                            arxiv_id: Some(id),
                            license,
                            ..d.f
                        },
                        ..d
                    },
                    x,
                );
            },
            None => {
                lemma_enter_again(d, x);
            },
        },
        (StageModel::Again(c), EventModel::Record(r)) => {
            lemma_in_again(
                d,
                chain::advanced(chain::replied(c, x.optional, r), false, m, x.optional),
                x,
            );
        },
        (StageModel::Locate(_), EventModel::Address(raw)) => {
            lemma_enter_content(d, x);
        },
        (StageModel::Copy(_), EventModel::Copy(r)) => {
            lemma_enter_content(d, x);
            match r {
                Ok(b) => {
                    lemma_enter_content(
                        DoiModel {
                            f: FindingsModel { leg: LegModel::Fetched, body: Some(b), ..d.f },
                            ..d
                        },
                        x,
                    );
                },
                Err(_) => {},
            }
        },
        (StageModel::Content(c), EventModel::Content(r)) => {
            let c1 = legs::content_replied(c, x.tdm, r);
            assert(legs::honest(c1.leg, c1.body is Some));
            legs::law_publishers_only_add(c1, d.f.doi, x.tdm, Ok(None));
            lemma_in_content(d, legs::content_advanced(c1, d.f.doi, x.tdm), x);
        },
        _ => {},
    }
}

/// A fetch starts truthful, whatever Crossref answered. Where it answered,
/// nothing but Unpaywall is asked for the metadata: no source of the chains
/// costs a request.
pub proof fn law_fetches_start_truthful(
    doi: Seq<char>,
    reply: Result<(Option<Json>, Option<Seq<char>>), SourceFailure>,
    x: Chains,
)
    ensures
        truthful(started(doi, reply, x)),
        reply is Ok ==> started(doi, reply, x).stage is Unpaywall,
        reply is Ok ==> forall|i: int|
            0 <= i < started(doi, reply, x).f.rows.len() ==> (#[trigger] started(
                doi,
                reply,
                x,
            ).f.rows[i]).outcome is NotNeeded,
{
    let f = first_findings(doi, reply);
    let m = RefModel::Doi(doi);
    if reply is Ok {
        chain::law_an_answer_ends_the_questions(fresh_chain(), true, m, x.tdm);
        chain::law_an_answer_ends_the_questions(fresh_chain(), true, m, x.optional);
        let a = chain::advanced(fresh_chain(), true, m, x.tdm).rows;
        let b = chain::advanced(fresh_chain(), true, m, x.optional).rows;
        let d = started(doi, reply, x);
        assert(d.f.rows == Seq::<AttemptModel>::empty() + a + b);
        assert forall|i: int| 0 <= i < d.f.rows.len() implies (
        #[trigger] d.f.rows[i]).outcome is NotNeeded by {
            if i < a.len() {
                assert(d.f.rows[i] == a[i]);
            } else {
                assert(d.f.rows[i] == b[i - a.len()]);
            }
        }
    }
}

/// Switching sources on cannot change a resolution that Crossref answered: up
/// to Unpaywall all findings but the trace are the same, whatever the chains.
pub proof fn law_switches_change_no_answer(
    doi: Seq<char>,
    record: Option<Json>,
    url: Option<Seq<char>>,
    x: Chains,
    y: Chains,
)
    ensures
        ({
            let a = started(doi, Ok((record, url)), x);
            let b = started(doi, Ok((record, url)), y);
            &&& FindingsModel { rows: b.f.rows, ..a.f } == b.f
            &&& a.stage == b.stage
            &&& a.found is None && b.found is None
        }),
{
    let m = RefModel::Doi(doi);
    chain::law_an_answer_ends_the_questions(fresh_chain(), true, m, x.tdm);
    chain::law_an_answer_ends_the_questions(fresh_chain(), true, m, x.optional);
    chain::law_an_answer_ends_the_questions(fresh_chain(), true, m, y.tdm);
    chain::law_an_answer_ends_the_questions(fresh_chain(), true, m, y.optional);
}

/// An open copy that was fetched settles the document: nothing else is asked
/// for, whatever is switched on.
pub proof fn law_open_copies_settle_the_document(d: DoiModel, w: OaModel, x: Chains)
    requires
        w.body is Some,
        w.urls.len() > 0,
    ensures
        in_oa(d, w, x) == (DoiModel {
            f: FindingsModel { leg: LegModel::Fetched, body: w.body, ..d.f },
            stage: StageModel::Done,
            ..d
        }),
{
    legs::law_publishers_only_add(
        ContentModel { next: 0, rows: d.f.rows, leg: LegModel::Fetched, body: w.body },
        d.f.doi,
        x.tdm,
        Ok(None),
    );
}

/// A document that could not be had elsewhere keeps the block that the open
/// copies ended in: neither a failed copy nor a publisher's failure replaces
/// it.
pub proof fn law_later_failures_keep_the_block(
    d: DoiModel,
    failed: (crate::http::error::HttpErrorModel, Seq<char>),
    outcome: attempts::OutcomeModel,
    x: Chains,
)
    requires
        truthful(d),
    ensures
        d.stage is Copy ==> blocked_as(stepped(d, EventModel::Copy(Err(failed)), x), d.f.leg),
        d.stage is Preprint ==> blocked_as(stepped(d, EventModel::Preprint(None), x), d.f.leg),
        d.stage is Locate ==> blocked_as(stepped(d, EventModel::Address(None), x), d.f.leg),
        d.stage matches StageModel::Content(c) ==> blocked_as(
            stepped(d, EventModel::Content(Err(outcome)), x),
            c.leg,
        ),
{
    match d.stage {
        StageModel::Copy(_) => {
            lemma_content_keeps(d, x);
        },
        StageModel::Locate(_) => {
            lemma_content_keeps(d, x);
        },
        StageModel::Preprint(_) => {
            lemma_again_keeps(d, x);
        },
        StageModel::Content(c) => {
            let c1 = legs::content_replied(c, x.tdm, Err(outcome));
            legs::law_publishers_only_add(c, d.f.doi, x.tdm, Err(outcome));
            legs::law_publishers_only_add(c1, d.f.doi, x.tdm, Ok(None));
        },
        _ => {},
    }
}

/// Whether the document is still blocked, and for that reason.
pub open spec fn blocked_as(d: DoiModel, leg: LegModel) -> bool {
    match d.stage {
        StageModel::Content(c) => c.leg == leg && c.body is None,
        _ => d.f.leg == leg && d.f.body is None,
    }
}

proof fn lemma_content_keeps(d: DoiModel, x: Chains)
    requires
        d.f.leg is Blocked && d.f.body is None,
    ensures
        blocked_as(enter_content(d, x), d.f.leg),
{
    legs::law_publishers_only_add(
        ContentModel { next: 0, rows: d.f.rows, leg: d.f.leg, body: d.f.body },
        d.f.doi,
        x.tdm,
        Ok(None),
    );
}

proof fn lemma_again_keeps(d: DoiModel, x: Chains)
    requires
        d.f.leg is Blocked && d.f.body is None,
    ensures
        blocked_as(enter_again(d, x), d.f.leg),
{
    lemma_content_keeps(d, x);
    let c = chain::advanced(fresh_chain(), false, RefModel::Doi(d.f.doi), x.optional);
    lemma_content_keeps(
        DoiModel {
            f: FindingsModel { rows: chain::merged(d.f.rows, c.rows), ..d.f },
            found: c.found,
            ..d
        },
        x,
    );
}

/// The document that a fetch has so far.
pub open spec fn document(d: DoiModel) -> Option<Seq<u8>> {
    match d.stage {
        StageModel::Content(c) => c.body,
        _ => d.f.body,
    }
}

/// Why the document is blocked, as text.
pub open spec fn blocked_because(leg: LegModel, why: Seq<char>) -> bool {
    leg matches LegModel::Blocked { message, .. } && message == why
}

/// The document of a fetch is the answer that served it, byte for byte: an open
/// copy, the preprint, the copy of another index or that of a publisher; with it
/// the fetch is at its end, and tells which of these it is. Nothing else of the
/// findings changes but what the preprint says of itself and the row of the
/// publisher.
pub proof fn law_documents_are_the_answers_that_served_them(
    d: DoiModel,
    b: Seq<u8>,
    license: Seq<char>,
    why: Seq<char>,
    x: Chains,
)
    requires
        truthful(d),
    ensures
        d.stage is Oa ==> stepped(d, EventModel::Copy(Ok(b)), x) == (DoiModel {
            f: FindingsModel { leg: LegModel::Fetched, body: Some(b), ..d.f },
            stage: StageModel::Done,
            ..d
        }),
        d.stage is Copy ==> stepped(d, EventModel::Copy(Ok(b)), x) == (DoiModel {
            f: FindingsModel { leg: LegModel::Fetched, body: Some(b), ..d.f },
            stage: StageModel::Done,
            ..d
        }),
        d.stage matches StageModel::Preprint(id) ==> (blocked_because(d.f.leg, why) ==> stepped(
            d,
            EventModel::Preprint(Some((b, license))),
            x,
        ) == (DoiModel {
            f: FindingsModel {
                leg: LegModel::PreprintFallback { arxiv_id: id, original_block: why },
                body: Some(b),
                arxiv_id: Some(id),
                license,
                ..d.f
            },
            stage: StageModel::Done,
            ..d
        })),
        d.stage matches StageModel::Content(c) ==> (blocked_because(c.leg, why) ==> stepped(
            d,
            EventModel::Content(Ok(Some(b))),
            x,
        ) == (DoiModel {
            f: FindingsModel {
                leg: LegModel::TdmFetched {
                    source: x.tdm[c.next as int].name,
                    original_block: why,
                },
                body: Some(b),
                rows: chain::recorded(
                    c.rows,
                    x.tdm[c.next as int].name,
                    attempts::OutcomeModel::Resolved,
                ),
                ..d.f
            },
            stage: StageModel::Done,
            ..d
        })),
{
    let m = RefModel::Doi(d.f.doi);
    match d.stage {
        StageModel::Oa(w) => {
            law_open_copies_settle_the_document(d, legs::oa_replied(w, Ok(b)), x);
        },
        StageModel::Copy(_) => {
            legs::law_publishers_only_add(
                ContentModel {
                    next: 0,
                    rows: d.f.rows,
                    leg: LegModel::Fetched,
                    body: Some(b),
                },
                d.f.doi,
                x.tdm,
                Ok(None),
            );
        },
        StageModel::Preprint(id) => {
            legs::law_publishers_only_add(
                ContentModel {
                    next: 0,
                    rows: d.f.rows,
                    leg: LegModel::PreprintFallback {
                        arxiv_id: id,
                        original_block: legs::block_text(d.f.leg),
                    },
                    body: Some(b),
                },
                d.f.doi,
                x.tdm,
                Ok(None),
            );
        },
        StageModel::Content(c) => {
            let c1 = legs::content_replied(c, x.tdm, Ok(Some(b)));
            legs::law_publishers_only_add(c1, d.f.doi, x.tdm, Ok(None));
        },
        _ => {},
    }
}

proof fn lemma_enter_content_document(d: DoiModel, x: Chains)
    ensures
        document(enter_content(d, x)) == d.f.body,
{
    let c = ContentModel { next: 0, rows: d.f.rows, leg: d.f.leg, body: d.f.body };
    legs::law_publishers_are_asked_in_turn(c, d.f.doi, x.tdm);
}

proof fn lemma_enter_again_document(d: DoiModel, x: Chains)
    ensures
        document(enter_again(d, x)) == d.f.body,
{
    lemma_enter_content_document(d, x);
    let c = chain::advanced(fresh_chain(), false, RefModel::Doi(d.f.doi), x.optional);
    lemma_enter_content_document(
        DoiModel {
            f: FindingsModel { rows: chain::merged(d.f.rows, c.rows), ..d.f },
            found: c.found,
            ..d
        },
        x,
    );
}

/// No document comes from anywhere but an answer that serves one: a fetch has a
/// document after a step only where the answer brought those bytes, or where it
/// had them.
pub proof fn law_no_document_is_made_up(d: DoiModel, e: EventModel, x: Chains)
    requires
        truthful(d),
    ensures
        document(stepped(d, e, x)) matches Some(b) ==> document(d) == Some(b) || e
            == EventModel::Copy(Ok(b)) || (e matches EventModel::Preprint(Some((p, _))) && p == b)
            || e == EventModel::Content(Ok(Some(b))),
{
    let m = RefModel::Doi(d.f.doi);
    match (d.stage, e) {
        (StageModel::Unpaywall, EventModel::Unpaywall(r)) => {
            let n = after_unpaywall(d, r, x);
            let urls = match r {
                Some((record, _)) => extract::oa_chain(record),
                None => Seq::empty(),
            };
            let (license, status) = match r {
                Some((record, license)) => (
                    license,
                    match record {
                        Some(v) => extract::unpaywall_oa_status(v),
                        None => None,
                    },
                ),
                None => ("unknown"@, None),
            };
            let w = OaModel { urls, next: 0, failed: None, body: None };
            lemma_enter_again_document(
                DoiModel {
                    f: FindingsModel {
                        license,
                        label: metadata_label(license),
                        oa_status: status,
                        leg: legs::oa_leg(w),
                        body: None,
                        ..d.f
                    },
                    ..d
                },
                x,
            );
        },
        (StageModel::Oa(w), EventModel::Copy(r)) => {
            let v = legs::oa_replied(w, r);
            lemma_enter_again_document(
                DoiModel {
                    f: FindingsModel { leg: legs::oa_leg(v), body: v.body, ..d.f },
                    ..d
                },
                x,
            );
        },
        (StageModel::Preprint(id), EventModel::Preprint(r)) => match r {
            Some((b, license)) => {
                law_documents_are_the_answers_that_served_them(
                    d,
                    b,
                    license,
                    legs::block_text(d.f.leg),
                    x,
                );
            },
            None => {
                lemma_enter_again_document(d, x);
            },
        },
        (StageModel::Again(c), EventModel::Record(r)) => {
            let n = chain::advanced(chain::replied(c, x.optional, r), false, m, x.optional);
            lemma_enter_content_document(
                DoiModel {
                    f: FindingsModel { rows: chain::merged(d.f.rows, n.rows), ..d.f },
                    found: n.found,
                    ..d
                },
                x,
            );
        },
        (StageModel::Locate(_), EventModel::Address(raw)) => {
            lemma_enter_content_document(d, x);
        },
        (StageModel::Copy(_), EventModel::Copy(r)) => match r {
            Ok(b) => {
                law_documents_are_the_answers_that_served_them(d, b, Seq::empty(), Seq::empty(), x);
            },
            Err(_) => {
                lemma_enter_content_document(d, x);
            },
        },
        (StageModel::Content(c), EventModel::Content(r)) => {
            let c1 = legs::content_replied(c, x.tdm, r);
            legs::law_publishers_only_add(c1, d.f.doi, x.tdm, Ok(None));
        },
        _ => {},
    }
}

/// A copy that fails leads to the next one, with the findings as they were; after
/// the last one the document is blocked for the reason that the last copy gave,
/// and the preprint that the copies name is asked for next.
pub proof fn law_failed_copies_lead_to_the_next(
    d: DoiModel,
    w: OaModel,
    failed: (crate::http::error::HttpErrorModel, Seq<char>),
    id: Seq<char>,
    x: Chains,
)
    requires
        truthful(d),
        d.stage == StageModel::Oa(w),
    ensures
        w.next + 1 < w.urls.len() ==> stepped(d, EventModel::Copy(Err(failed)), x) == (DoiModel {
            stage: StageModel::Oa(OaModel { next: w.next + 1, failed: Some(failed), ..w }),
            ..d
        }),
        w.next + 1 == w.urls.len() && legs::first_arxiv_id(w.urls) == Some(id)
            && crate::refs::parse_ref(id) == Ok::<RefModel, crate::refs::RefParseError>(
            RefModel::Arxiv(id),
        ) ==> stepped(d, EventModel::Copy(Err(failed)), x) == (DoiModel {
            f: FindingsModel {
                leg: LegModel::Blocked {
                    code: crate::errors::ErrorCode::NetworkError,
                    message: failed.1,
                    denial: crate::http::error::http_denial(failed.0),
                    suggested_arxiv_id: Some(id),
                },
                body: None,
                ..d.f
            },
            stage: StageModel::Preprint(id),
            ..d
        }),
        w.next + 1 == w.urls.len() ==> blocked_because(
            match stepped(d, EventModel::Copy(Err(failed)), x).stage {
                StageModel::Content(c) => c.leg,
                _ => stepped(d, EventModel::Copy(Err(failed)), x).f.leg,
            },
            failed.1,
        ),
{
    let v = legs::oa_replied(w, Err(failed));
    if w.next + 1 == w.urls.len() {
        let n = DoiModel {
            f: FindingsModel { leg: legs::oa_leg(v), body: None, ..d.f },
            ..d
        };
        lemma_again_keeps(n, x);
        if legs::first_arxiv_id(w.urls) == Some(id) && crate::refs::parse_ref(id) == Ok::<
            RefModel,
            crate::refs::RefParseError,
        >(RefModel::Arxiv(id)) {
            legs::law_suggested_preprints_are_tried(legs::oa_leg(v), id);
        }
    }
}

/// Unpaywall's answer says the license, the status and the copies: the first of
/// them is fetched next, and where there is none the fetch is at its end without
/// a document. Where Unpaywall failed nothing is known of the three.
pub proof fn law_unpaywall_names_the_copies(d: DoiModel, record: Json, license: Seq<char>, x: Chains)
    requires
        truthful(d),
        d.stage is Unpaywall,
    ensures
        ({
            let urls = extract::oa_chain(Some(record));
            let n = stepped(d, EventModel::Unpaywall(Some((Some(record), license))), x);
            &&& n.f.license == license
            &&& n.f.oa_status == extract::unpaywall_oa_status(record)
            &&& license != "unknown"@ ==> n.f.label == "unpaywall"@
            &&& license == "unknown"@ ==> n.f.label == "crossref"@
            &&& n.f.fields == d.f.fields && n.f.rows == d.f.rows && n.f.doi == d.f.doi
            &&& n.f.crossref_url == d.f.crossref_url && n.f.crossref_error == d.f.crossref_error
            &&& n.f.body is None && n.f.leg is NoOaUrl
            &&& urls.len() > 0 ==> n.stage == StageModel::Oa(
                OaModel { urls, next: 0, failed: None, body: None },
            )
            &&& urls.len() == 0 ==> n.stage is Done
        }),
        ({
            let n = stepped(d, EventModel::Unpaywall(None), x);
            &&& n.f.license == "unknown"@ && n.f.label == "crossref"@ && n.f.oa_status is None
            &&& n.stage is Done && n.f.leg is NoOaUrl && n.f.body is None
            &&& n.f.fields == d.f.fields && n.f.rows == d.f.rows
        }),
{
    let c = ContentModel { next: 0, rows: d.f.rows, leg: LegModel::NoOaUrl, body: None };
    legs::law_publishers_are_asked_in_turn(c, d.f.doi, x.tdm);
}

/// The metadata are those of the first source that answers: Crossref's record
/// gives the fields, and no later answer of a publisher changes them; an optional
/// source that answers gives them where Crossref failed.
pub proof fn law_the_first_answer_gives_the_metadata(
    doi: Seq<char>,
    record: Json,
    url: Option<Seq<char>>,
    failure: SourceFailure,
    x: Chains,
)
    ensures
        ({
            let d = started(doi, Ok((Some(record), url)), x);
            &&& d.f.doi == doi
            &&& d.f.fields == extract::crossref_fields(record)
            &&& d.f.crossref_url == url
            &&& d.f.crossref_error is None
            &&& d.stage is Unpaywall
            &&& d.f.rows.len() == x.tdm.len() + x.optional.len()
        }),
        ({
            let d = started(doi, Err(failure), x);
            &&& d.f.doi == doi
            &&& d.f.crossref_error == Some(failure)
            &&& d.f.crossref_url is None
            &&& d.f.body is None
            &&& x.tdm.len() == 0 && x.optional.len() == 0 ==> d.stage is Unpaywall
        }),
{
    let m = RefModel::Doi(doi);
    chain::law_an_answer_ends_the_questions(fresh_chain(), true, m, x.tdm);
    chain::law_an_answer_ends_the_questions(fresh_chain(), true, m, x.optional);
}

/// The record of an optional source is the metadata, and the fetch goes on to
/// Unpaywall with every source of the chain in the trace; that of a publisher
/// ends the questions as well.
pub proof fn law_chain_answers_are_taken(d: DoiModel, c: ChainModel, record: Json, x: Chains)
    requires
        chain::in_step(c, x.optional) || d.stage is Tdm,
        chain::in_step(c, x.tdm) || d.stage is Optional,
    ensures
        d.stage == StageModel::Optional(c) && c.next < x.optional.len() ==> {
            let n = stepped(d, EventModel::Record(Ok(Some(record))), x);
            let name = x.optional[c.next as int].name;
            &&& n.stage is Unpaywall
            &&& n.found == Some((name, record))
            &&& n.f.fields == extract::optional_fields(name, record)
            &&& n.f.rows.len() == d.f.rows.len() + x.optional.len()
            &&& n.f.rows[(d.f.rows.len() + c.next) as int] == (AttemptModel {
                source: name,
                outcome: attempts::OutcomeModel::Resolved,
            })
        },
        d.stage == StageModel::Tdm(c) && c.next < x.tdm.len() ==> {
            let n = stepped(d, EventModel::Record(Ok(Some(record))), x);
            &&& n.stage is Unpaywall
            &&& n.tdm_found
            &&& n.f.fields == d.f.fields
            &&& n.f.rows.len() == d.f.rows.len() + x.tdm.len() + x.optional.len()
            &&& n.f.rows[(d.f.rows.len() + c.next) as int] == (AttemptModel {
                source: x.tdm[c.next as int].name,
                outcome: attempts::OutcomeModel::Resolved,
            })
        },
{
    let m = RefModel::Doi(d.f.doi);
    if d.stage == StageModel::Optional(c) && c.next < x.optional.len() {
        let r = chain::replied(c, x.optional, Ok(Some(record)));
        let answered = d.f.crossref_error is None || d.tdm_found;
        chain::law_an_answer_ends_the_questions(r, answered, m, x.optional);
        chain::law_chains_stop_at_the_next_source(r, answered, m, x.optional);
        let a = chain::advanced(r, answered, m, x.optional);
        assert(a.rows[c.next as int] == r.rows[c.next as int]);
    }
    if d.stage == StageModel::Tdm(c) && c.next < x.tdm.len() {
        let r = chain::replied(c, x.tdm, Ok(Some(record)));
        let answered = d.f.crossref_error is None;
        chain::law_an_answer_ends_the_questions(r, answered, m, x.tdm);
        chain::law_chains_stop_at_the_next_source(r, answered, m, x.tdm);
        chain::law_an_answer_ends_the_questions(fresh_chain(), true, m, x.optional);
        let a = chain::advanced(r, answered, m, x.tdm);
        assert(a.rows[c.next as int] == r.rows[c.next as int]);
    }
}

/// Where the preprint does not help, the document is looked for in the record of
/// an index that names documents; the address that it gives is fetched, and one
/// that is no URL is passed over.
pub proof fn law_indices_are_asked_for_another_copy(
    d: DoiModel,
    source: Seq<char>,
    record: Json,
    address: Seq<char>,
    x: Chains,
)
    requires
        truthful(d),
    ensures
        d.stage is Preprint && d.found == Some((source, record)) && (source == "core"@ || source
            == "hal"@ || source == "europe-pmc"@) ==> stepped(d, EventModel::Preprint(None), x)
            == (DoiModel { stage: StageModel::Locate(source), ..d }),
        d.stage is Locate ==> (urls::url_of(address) matches Ok(u) ==> stepped(
            d,
            EventModel::Address(Some(address)),
            x,
        ) == (DoiModel { stage: StageModel::Copy(u), ..d })),
        d.stage is Preprint && d.found is None ==> {
            let n = stepped(d, EventModel::Preprint(None), x);
            let c = chain::advanced(fresh_chain(), false, RefModel::Doi(d.f.doi), x.optional);
            c.next < x.optional.len() ==> n == (DoiModel { stage: StageModel::Again(c), ..d })
        },
{
}

/// An answer to another request than the one that was made changes nothing.
pub proof fn law_stray_answers_change_nothing(d: DoiModel, e: EventModel, x: Chains)
    ensures
        d.stage is Done ==> stepped(d, e, x) == d,
        (d.stage is Tdm || d.stage is Optional || d.stage is Again) && !(e is Record) ==> stepped(
            d,
            e,
            x,
        ) == d,
        d.stage is Unpaywall && !(e is Unpaywall) ==> stepped(d, e, x) == d,
        (d.stage is Oa || d.stage is Copy) && !(e is Copy) ==> stepped(d, e, x) == d,
        d.stage is Preprint && !(e is Preprint) ==> stepped(d, e, x) == d,
        d.stage is Locate && !(e is Address) ==> stepped(d, e, x) == d,
        d.stage is Content && !(e is Content) ==> stepped(d, e, x) == d,
{
}

/// Where Crossref fails the publishers are asked, from the first that may be, and
/// the optional sources where there are no publishers.
pub proof fn law_other_sources_are_asked_where_crossref_fails(
    doi: Seq<char>,
    failure: SourceFailure,
    x: Chains,
)
    ensures
        x.tdm.len() > 0 && chain::skipped(false, RefModel::Doi(doi), x.tdm[0]) is None ==> started(
            doi,
            Err(failure),
            x,
        ).stage == StageModel::Tdm(ChainModel { next: 0, rows: Seq::empty(), found: None }),
        x.tdm.len() == 0 && x.optional.len() > 0 && chain::skipped(
            false,
            RefModel::Doi(doi),
            x.optional[0],
        ) is None ==> started(doi, Err(failure), x).stage == StageModel::Optional(
            ChainModel { next: 0, rows: Seq::empty(), found: None },
        ),
{
}

/// A source that fails is in the trace with what became of it, and the next one
/// that may be asked is; after the last one nothing was found.
pub proof fn law_failed_sources_lead_to_the_next(
    d: DoiModel,
    c: ChainModel,
    failure: SourceFailure,
    x: Chains,
)
    requires
        c.found is None,
        d.f.crossref_error is Some,
        !d.tdm_found,
    ensures
        ({
            let n = stepped(d, EventModel::Record(Err(failure)), x);
            let m = RefModel::Doi(d.f.doi);
            let told = attempts::classified(failure.error, failure.shown@);
            &&& d.stage == StageModel::Tdm(c) && c.next + 1 < x.tdm.len() && chain::skipped(
                false,
                m,
                x.tdm[(c.next + 1) as int],
            ) is None ==> n == (DoiModel {
                stage: StageModel::Tdm(
                    ChainModel {
                        next: c.next + 1,
                        rows: c.rows.push(
                            AttemptModel { source: x.tdm[c.next as int].name, outcome: told },
                        ),
                        found: None,
                    },
                ),
                ..d
            })
            &&& d.stage == StageModel::Tdm(c) && c.next + 1 == x.tdm.len() && x.optional.len() == 0
                ==> {
                &&& n.stage is Unpaywall && n.found is None && !n.tdm_found
                &&& n.f.rows == d.f.rows + c.rows.push(
                    AttemptModel { source: x.tdm[c.next as int].name, outcome: told },
                )
                &&& n.f.fields == d.f.fields
            }
            &&& d.stage == StageModel::Optional(c) && c.next + 1 < x.optional.len()
                && chain::skipped(false, m, x.optional[(c.next + 1) as int]) is None ==> n == (
            DoiModel {
                stage: StageModel::Optional(
                    ChainModel {
                        next: c.next + 1,
                        rows: c.rows.push(
                            AttemptModel { source: x.optional[c.next as int].name, outcome: told },
                        ),
                        found: None,
                    },
                ),
                ..d
            })
            &&& d.stage == StageModel::Optional(c) && c.next + 1 == x.optional.len() ==> {
                &&& n.stage is Unpaywall && n.found is None
                &&& n.f.rows == d.f.rows + c.rows.push(
                    AttemptModel { source: x.optional[c.next as int].name, outcome: told },
                )
                &&& n.f.fields == d.f.fields
            }
            &&& d.stage == StageModel::Again(c) && c.next + 1 < x.optional.len() && chain::skipped(
                false,
                m,
                x.optional[(c.next + 1) as int],
            ) is None ==> n == (DoiModel {
                stage: StageModel::Again(
                    ChainModel {
                        next: c.next + 1,
                        rows: c.rows.push(
                            AttemptModel { source: x.optional[c.next as int].name, outcome: told },
                        ),
                        found: None,
                    },
                ),
                ..d
            })
        }),
{
    let n = stepped(d, EventModel::Record(Err(failure)), x);
    let told = attempts::classified(failure.error, failure.shown@);
    if d.stage == StageModel::Tdm(c) && c.next + 1 == x.tdm.len() && x.optional.len() == 0 {
        let row = AttemptModel { source: x.tdm[c.next as int].name, outcome: told };
        assert(n.f.rows =~= d.f.rows + c.rows.push(row));
    }
}

/// A source that answers when they are all asked again is where the document is
/// looked for, if it names documents; its row takes the place of its earlier one.
pub proof fn law_second_answers_are_taken(d: DoiModel, c: ChainModel, record: Json, x: Chains)
    requires
        d.stage == StageModel::Again(c),
        c.next + 1 == x.optional.len(),
    ensures
        ({
            let n = stepped(d, EventModel::Record(Ok(Some(record))), x);
            let name = x.optional[c.next as int].name;
            let rows = chain::merged(
                d.f.rows,
                c.rows.push(
                    AttemptModel { source: name, outcome: attempts::OutcomeModel::Resolved },
                ),
            );
            let names = name == "core"@ || name == "hal"@ || name == "europe-pmc"@;
            &&& names ==> n == (DoiModel {
                f: FindingsModel { rows, ..d.f },
                found: Some((name, record)),
                stage: StageModel::Locate(name),
                ..d
            })
            &&& !names && x.tdm.len() == 0 ==> n == (DoiModel {
                f: FindingsModel { rows, ..d.f },
                found: Some((name, record)),
                stage: StageModel::Done,
                ..d
            })
        }),
{
}

/// What the publishers are left with is the document as it was found, or as it
/// was refused: where there are none the fetch is at its end, and else the first
/// that may be asked is, with the trace as it is.
pub proof fn law_publishers_are_the_last_resort(d: DoiModel, e: EventModel, x: Chains)
    requires
        truthful(d),
        d.stage is Locate && (e == EventModel::Address(None) || (e matches EventModel::Address(
            Some(s),
        ) && urls::url_of(s) is Err)) || d.stage is Copy && (e matches EventModel::Copy(r)
            && r is Err) || d.stage is Preprint && e == EventModel::Preprint(None) && (
        d.found matches Some((s, _)) && s != "core"@ && s != "hal"@ && s != "europe-pmc"@),
    ensures
        x.tdm.len() == 0 ==> stepped(d, e, x) == (DoiModel { stage: StageModel::Done, ..d }),
        x.tdm.len() > 0 && chain::skipped(false, RefModel::Doi(d.f.doi), x.tdm[0]) is None ==> {
            let n = stepped(d, e, x);
            &&& n.stage == StageModel::Content(
                ContentModel { next: 0, rows: d.f.rows, leg: d.f.leg, body: None },
            )
            &&& n.found == d.found && n.f.fields == d.f.fields && n.f.license == d.f.license
                && n.f.label == d.f.label && n.f.oa_status == d.f.oa_status && n.f.doi == d.f.doi
                && n.f.arxiv_id == d.f.arxiv_id && n.f.crossref_url == d.f.crossref_url
                && n.f.crossref_error == d.f.crossref_error
        },
{
}

/// A publisher that does not serve the document leaves it as it was refused, and
/// the next one that may be asked is; after the last one the fetch is at its end.
pub proof fn law_publishers_that_fail_lead_to_the_next(
    d: DoiModel,
    c: ContentModel,
    o: attempts::OutcomeModel,
    x: Chains,
)
    requires
        truthful(d),
        d.stage == StageModel::Content(c),
        c.next < x.tdm.len(),
    ensures
        ({
            let failed = stepped(d, EventModel::Content(Err(o)), x);
            let none = stepped(d, EventModel::Content(Ok(None)), x);
            let rows = chain::recorded(c.rows, x.tdm[c.next as int].name, o);
            let last = c.next + 1 == x.tdm.len();
            let next = !last && chain::skipped(
                false,
                RefModel::Doi(d.f.doi),
                x.tdm[(c.next + 1) as int],
            ) is None;
            &&& last ==> failed == (DoiModel {
                f: FindingsModel { rows, leg: c.leg, body: None, ..d.f },
                stage: StageModel::Done,
                ..d
            })
            &&& last ==> none == (DoiModel {
                f: FindingsModel { rows: c.rows, leg: c.leg, body: None, ..d.f },
                stage: StageModel::Done,
                ..d
            })
            &&& next ==> failed.stage == StageModel::Content(
                ContentModel { next: c.next + 1, rows, leg: c.leg, body: None },
            )
            &&& next ==> none.stage == StageModel::Content(
                ContentModel { next: c.next + 1, rows: c.rows, leg: c.leg, body: None },
            )
        }),
{
}

} // verus!

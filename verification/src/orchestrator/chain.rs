//! The chains of sources that are asked one after the other, each with a row
//! in the trace whether it was asked or not.

use crate::json::Json;
use crate::orchestrator::attempts;
use crate::orchestrator::attempts::AttemptModel;
use crate::orchestrator::attempts::AttemptOutcome;
use crate::orchestrator::attempts::OutcomeModel;
use crate::orchestrator::attempts::SourceAttempt;
use crate::refs;
use crate::refs::Ref;
use crate::refs::RefModel;
use crate::source::FetchError;
use crate::text;
use vstd::prelude::*;

verus! {

/// A publisher that serves its own DOIs only.
#[derive(Debug, Clone, PartialEq, Eq)]
pub struct PublisherScope {
    /// Its name, as it is shown.
    pub name: &'static str,
    /// The DOI prefixes that it registered.
    pub prefixes: Vec<String>,
}

/// A source of a chain.
#[derive(Debug, Clone, PartialEq, Eq)]
pub struct ChainEntry {
    /// Source key.
    pub name: &'static str,
    /// The variables that switch it on.
    pub env: &'static [&'static str],
    /// The publisher whose DOIs alone it serves.
    pub publisher: Option<PublisherScope>,
    /// Whether it is switched on and serves the reference.
    pub can_serve: bool,
}

/// What a source of a chain holds.
pub struct EntryModel {
    pub name: Seq<char>,
    pub env: Seq<Seq<char>>,
    pub publisher: Option<(Seq<char>, Seq<Seq<char>>)>,
    pub can_serve: bool,
}

impl View for ChainEntry {
    type V = EntryModel;

    open spec fn view(&self) -> EntryModel {
        EntryModel {
            name: self.name@,
            env: attempts::str_views(self.env@),
            publisher: match self.publisher {
                Some(p) => Some((p.name@, text::views(p.prefixes@))),
                None => None,
            },
            can_serve: self.can_serve,
        }
    }
}

/// What a chain holds.
pub open spec fn entries(v: Seq<ChainEntry>) -> Seq<EntryModel> {
    Seq::new(v.len(), |i: int| v[i]@)
}

impl ChainEntry {
    /// A copy of this source.
    pub fn copy(&self) -> (r: ChainEntry)
        ensures
            r@ == self@,
    {
        let publisher = match &self.publisher {
            Some(p) => Some(
                PublisherScope { name: p.name, prefixes: text::copy_strings(&p.prefixes) },
            ),
            None => None,
        };
        ChainEntry { name: self.name, env: self.env, publisher, can_serve: self.can_serve }
    }
}

/// A copy of a chain.
pub fn copy_entries(v: &Vec<ChainEntry>) -> (r: Vec<ChainEntry>)
    ensures
        entries(r@) == entries(v@),
{
    let mut out: Vec<ChainEntry> = Vec::new();
    let mut i: usize = 0;
    while i < v.len()
        invariant
            i <= v.len(),
            out@.len() == i,
            forall|j: int| 0 <= j < i ==> (#[trigger] out@[j])@ == v@[j]@,
        decreases v.len() - i,
    {
        out.push(v[i].copy());
        i += 1;
    }
    assert(entries(out@) =~= entries(v@));
    out
}

// ---------------------------------------------------------------------------
// The known chains
// ---------------------------------------------------------------------------

/// A source that serves any DOI.
pub open spec fn open_entry(name: Seq<char>, env: Seq<char>, can_serve: bool) -> EntryModel {
    EntryModel { name, env: seq![env], publisher: None, can_serve }
}

/// The optional sources, in the order in which they are asked.
pub open spec fn optional_model(
    datacite: bool,
    europe_pmc: bool,
    openaire: bool,
    hal: bool,
    core: bool,
) -> Seq<EntryModel> {
    seq![
        open_entry("datacite"@, "DOIGET_ENABLE_DATACITE"@, datacite),
        open_entry("europe-pmc"@, "DOIGET_ENABLE_EUROPE_PMC"@, europe_pmc),
        open_entry("openaire"@, "DOIGET_ENABLE_OPENAIRE"@, openaire),
        open_entry("hal"@, "DOIGET_ENABLE_HAL"@, hal),
        open_entry("core"@, "DOIGET_ENABLE_CORE"@, core),
    ]
}

fn open_source(
    name: &'static str,
    env: &'static [&'static str],
    can_serve: bool,
) -> (r: ChainEntry)
    ensures
        r@ == (EntryModel {
            name: name@,
            env: attempts::str_views(env@),
            publisher: None,
            can_serve,
        }),
{
    ChainEntry { name, env, publisher: None, can_serve }
}

/// The optional sources, each with whether it can serve the reference.
pub fn optional_sources(
    datacite: bool,
    europe_pmc: bool,
    openaire: bool,
    hal: bool,
    core: bool,
) -> (r: Vec<ChainEntry>)
    ensures
        entries(r@) == optional_model(datacite, europe_pmc, openaire, hal, core),
{
    let a = open_source("datacite", &["DOIGET_ENABLE_DATACITE"], datacite);
    let b = open_source("europe-pmc", &["DOIGET_ENABLE_EUROPE_PMC"], europe_pmc);
    let c = open_source("openaire", &["DOIGET_ENABLE_OPENAIRE"], openaire);
    let d = open_source("hal", &["DOIGET_ENABLE_HAL"], hal);
    let e = open_source("core", &["DOIGET_ENABLE_CORE"], core);
    let ghost m = optional_model(datacite, europe_pmc, openaire, hal, core);
    assert(a@.env =~= m[0].env);
    assert(b@.env =~= m[1].env);
    assert(c@.env =~= m[2].env);
    assert(d@.env =~= m[3].env);
    assert(e@.env =~= m[4].env);
    let r = vec![a, b, c, d, e];
    assert(entries(r@) =~= m);
    r
}

/// The publishers with a text-and-data-mining source.
#[derive(Debug, Clone, Copy, PartialEq, Eq, Structural)]
pub enum TdmPublisher {
    /// American Physical Society.
    Aps,
    /// Elsevier.
    Elsevier,
    /// Springer Nature.
    Springer,
    /// IEEE.
    Ieee,
}

/// The source of a publisher.
pub open spec fn tdm_model(
    p: TdmPublisher,
    prefixes: Seq<Seq<char>>,
    can_serve: bool,
) -> EntryModel {
    match p {
        TdmPublisher::Aps => EntryModel {
            name: "tdm-aps"@,
            env: seq!["DOIGET_KEY_APS"@, "DOIGET_AGREE_TDM_APS"@],
            publisher: Some(("American Physical Society (APS)"@, prefixes)),
            can_serve,
        },
        TdmPublisher::Elsevier => EntryModel {
            name: "tdm-elsevier"@,
            env: seq!["DOIGET_KEY_ELSEVIER"@, "DOIGET_AGREE_TDM_ELSEVIER"@],
            publisher: Some(("Elsevier BV"@, prefixes)),
            can_serve,
        },
        TdmPublisher::Springer => EntryModel {
            name: "tdm-springer"@,
            env: seq!["DOIGET_KEY_SPRINGER"@, "DOIGET_AGREE_TDM_SPRINGER"@],
            publisher: Some(("Springer Nature"@, prefixes)),
            can_serve,
        },
        TdmPublisher::Ieee => EntryModel {
            name: "tdm-ieee"@,
            env: seq!["DOIGET_KEY_IEEE"@, "DOIGET_AGREE_TDM_IEEE"@],
            publisher: Some(("IEEE"@, prefixes)),
            can_serve,
        },
    }
}

/// The source of a publisher: the prefixes that it registered, and whether the
/// user switched it on.
pub fn tdm_source(p: TdmPublisher, prefixes: Vec<String>, can_serve: bool) -> (r: ChainEntry)
    ensures
        r@ == tdm_model(p, text::views(prefixes@), can_serve),
{
    let (name, env, publisher): (&'static str, &'static [&'static str], &'static str) = match p {
        TdmPublisher::Aps => (
            "tdm-aps",
            &["DOIGET_KEY_APS", "DOIGET_AGREE_TDM_APS"],
            "American Physical Society (APS)",
        ),
        TdmPublisher::Elsevier => (
            "tdm-elsevier",
            &["DOIGET_KEY_ELSEVIER", "DOIGET_AGREE_TDM_ELSEVIER"],
            "Elsevier BV",
        ),
        TdmPublisher::Springer => (
            "tdm-springer",
            &["DOIGET_KEY_SPRINGER", "DOIGET_AGREE_TDM_SPRINGER"],
            "Springer Nature",
        ),
        TdmPublisher::Ieee => (
            "tdm-ieee",
            &["DOIGET_KEY_IEEE", "DOIGET_AGREE_TDM_IEEE"],
            "IEEE",
        ),
    };
    let ghost shown = text::views(prefixes@);
    let r = ChainEntry {
        name,
        env,
        publisher: Some(PublisherScope { name: publisher, prefixes }),
        can_serve,
    };
    assert(r@.env =~= tdm_model(p, shown, can_serve).env);
    r
}

/// The source of a publisher that the program was built with: its prefixes, and
/// whether the user switched it on.
pub open spec fn tdm_built(p: TdmPublisher, built: Option<(Vec<String>, bool)>) -> Seq<EntryModel> {
    match built {
        Some((prefixes, can_serve)) => seq![tdm_model(p, text::views(prefixes@), can_serve)],
        None => seq![],
    }
}

/// The publishers' sources, in the order in which they are asked.
pub open spec fn tdm_models(
    aps: Option<(Vec<String>, bool)>,
    elsevier: Option<(Vec<String>, bool)>,
    springer: Option<(Vec<String>, bool)>,
    ieee: Option<(Vec<String>, bool)>,
) -> Seq<EntryModel> {
    tdm_built(TdmPublisher::Aps, aps) + tdm_built(TdmPublisher::Elsevier, elsevier) + tdm_built(
        TdmPublisher::Springer,
        springer,
    ) + tdm_built(TdmPublisher::Ieee, ieee)
}

fn add_tdm_source(sources: &mut Vec<ChainEntry>, p: TdmPublisher, built: Option<(Vec<String>, bool)>)
    ensures
        entries(final(sources)@) == entries(old(sources)@) + tdm_built(p, built),
{
    let ghost before = entries(sources@);
    if let Some((prefixes, can_serve)) = built {
        sources.push(tdm_source(p, prefixes, can_serve));
    }
    assert(entries(sources@) =~= before + tdm_built(p, built));
}

/// The publishers' sources that the program was built with, each with the
/// prefixes that the publisher registered and whether the user switched it on.
pub fn tdm_sources(
    aps: Option<(Vec<String>, bool)>,
    elsevier: Option<(Vec<String>, bool)>,
    springer: Option<(Vec<String>, bool)>,
    ieee: Option<(Vec<String>, bool)>,
) -> (r: Vec<ChainEntry>)
    ensures
        entries(r@) == tdm_models(aps, elsevier, springer, ieee),
{
    let mut r: Vec<ChainEntry> = Vec::new();
    assert(entries(r@) =~= seq![]);
    add_tdm_source(&mut r, TdmPublisher::Aps, aps);
    add_tdm_source(&mut r, TdmPublisher::Elsevier, elsevier);
    add_tdm_source(&mut r, TdmPublisher::Springer, springer);
    add_tdm_source(&mut r, TdmPublisher::Ieee, ieee);
    assert(entries(r@) =~= tdm_models(aps, elsevier, springer, ieee));
    r
}

// ---------------------------------------------------------------------------
// Whether a source is asked
// ---------------------------------------------------------------------------

/// Why a publisher's source is not asked about a DOI.
pub open spec fn wrong_publisher(doi: Seq<char>, publisher: Seq<char>) -> OutcomeModel {
    OutcomeModel::WrongPublisher {
        detail: "DOI prefix "@ + refs::doi_prefix(doi) + " is not "@ + publisher,
    }
}

/// Why a source is not asked; none where it is. The prefix comes before the
/// switches: a DOI of another publisher is nothing that a switch would help.
pub open spec fn skipped(answered: bool, m: RefModel, e: EntryModel) -> Option<OutcomeModel> {
    if answered {
        Some(OutcomeModel::NotNeeded)
    } else {
        match m {
            RefModel::Doi(d) => match e.publisher {
                Some((name, prefixes)) => if !prefixes.contains(refs::doi_prefix(d)) {
                    Some(wrong_publisher(d, name))
                } else if !e.can_serve {
                    Some(OutcomeModel::Disabled { env: e.env })
                } else {
                    None
                },
                None => if !e.can_serve {
                    Some(OutcomeModel::Disabled { env: e.env })
                } else {
                    None
                },
            },
            RefModel::Arxiv(_) => if e.publisher is Some || !e.can_serve {
                Some(OutcomeModel::NotApplicable)
            } else {
                None
            },
        }
    }
}

fn holds_prefix(prefixes: &Vec<String>, p: &str) -> (r: bool)
    ensures
        r == text::views(prefixes@).contains(p@),
{
    let ghost all = text::views(prefixes@);
    let mut i: usize = 0;
    while i < prefixes.len()
        invariant
            i <= prefixes.len(),
            all == text::views(prefixes@),
            forall|j: int| 0 <= j < i ==> (#[trigger] prefixes@[j])@ != p@,
        decreases prefixes.len() - i,
    {
        if text::same(prefixes[i].as_str(), p) {
            assert(all[i as int] == p@);
            return true;
        }
        i += 1;
    }
    assert forall|j: int| 0 <= j < all.len() implies all[j] != p@ by {
        assert(prefixes@[j]@ != p@);
    }
    false
}

/// Why a source is not asked; none where it is.
pub fn skip_reason(answered: bool, ref_: &Ref, e: &ChainEntry) -> (r: Option<AttemptOutcome>)
    ensures
        match skipped(answered, ref_@, e@) {
            Some(o) => r is Some && r->Some_0@ == o,
            None => r is None,
        },
{
    if answered {
        return Some(AttemptOutcome::NotNeeded);
    }
    match ref_ {
        Ref::Doi(d) => {
            match &e.publisher {
                Some(p) => {
                    let prefix = d.prefix();
                    if !holds_prefix(&p.prefixes, prefix.as_str()) {
                        return Some(
                            AttemptOutcome::WrongPublisher {
                                detail: "DOI prefix ".to_string().concat(prefix.as_str()).concat(
                                    " is not ",
                                ).concat(p.name),
                            },
                        );
                    }
                },
                None => {},
            }
            if !e.can_serve {
                return Some(AttemptOutcome::Disabled { env: e.env });
            }
            None
        },
        Ref::Arxiv(_) => {
            if e.publisher.is_some() || !e.can_serve {
                Some(AttemptOutcome::NotApplicable)
            } else {
                None
            }
        },
    }
}

// ---------------------------------------------------------------------------
// A chain under way
// ---------------------------------------------------------------------------

/// A source's failure, with the text of its error.
#[derive(Debug, PartialEq, Eq)]
pub struct SourceFailure {
    /// The error.
    pub error: FetchError,
    /// The error as it is shown.
    pub shown: String,
}

/// What a chain under way holds: how many sources are behind it, the trace, and
/// what was found.
pub struct ChainModel {
    pub next: nat,
    pub rows: Seq<AttemptModel>,
    pub found: Option<(Seq<char>, Json)>,
}

/// What a chain found: the source and its record.
pub open spec fn found_view(found: Option<(&'static str, Json)>) -> Option<(Seq<char>, Json)> {
    match found {
        Some((name, record)) => Some((name@, record)),
        None => None,
    }
}

/// The chain after the sources that are not asked.
pub open spec fn advanced(
    c: ChainModel,
    answered: bool,
    m: RefModel,
    es: Seq<EntryModel>,
) -> ChainModel
    decreases es.len() - c.next,
{
    if c.next >= es.len() {
        c
    } else {
        let e = es[c.next as int];
        match skipped(answered || c.found is Some, m, e) {
            Some(o) => advanced(
                ChainModel {
                    next: c.next + 1,
                    rows: c.rows.push(AttemptModel { source: e.name, outcome: o }),
                    ..c
                },
                answered,
                m,
                es,
            ),
            None => c,
        }
    }
}

/// The outcome of a reply.
pub open spec fn reply_outcome(reply: Result<Option<Json>, SourceFailure>) -> OutcomeModel {
    match reply {
        Ok(_) => OutcomeModel::Resolved,
        Err(f) => attempts::classified(f.error, f.shown@),
    }
}

/// The chain after the reply of the source that was asked.
pub open spec fn replied(
    c: ChainModel,
    es: Seq<EntryModel>,
    reply: Result<Option<Json>, SourceFailure>,
) -> ChainModel {
    let e = es[c.next as int];
    ChainModel {
        next: c.next + 1,
        rows: c.rows.push(AttemptModel { source: e.name, outcome: reply_outcome(reply) }),
        found: match reply {
            Ok(Some(record)) => Some((e.name, record)),
            _ => c.found,
        },
    }
}

/// A chain of sources under way.
pub struct SourceChain {
    ref_: Ref,
    answered: bool,
    sources: Vec<ChainEntry>,
    next: usize,
    asked: bool,
    rows: Vec<SourceAttempt>,
    found: Option<(&'static str, Json)>,
}

impl SourceChain {
    /// The chain so far.
    pub closed spec fn model(&self) -> ChainModel {
        ChainModel {
            next: self.next as nat,
            rows: attempts::trace(self.rows@),
            found: found_view(self.found),
        }
    }

    /// The sources of the chain.
    pub closed spec fn sources(&self) -> Seq<EntryModel> {
        entries(self.sources@)
    }

    /// The reference that is looked for.
    pub closed spec fn reference(&self) -> RefModel {
        self.ref_@
    }

    /// Whether the answer was there before the chain began.
    pub closed spec fn answered(&self) -> bool {
        self.answered
    }

    /// Whether a reply is awaited.
    pub closed spec fn asked(&self) -> bool {
        self.asked
    }

    #[verifier::type_invariant]
    closed spec fn wf(&self) -> bool {
        self.next <= self.sources@.len() && (self.asked ==> self.next < self.sources@.len())
    }

    /// Begins a chain. Where the answer is there already no source is asked.
    pub fn new(ref_: &Ref, answered: bool, sources: Vec<ChainEntry>) -> (r: SourceChain)
        ensures
            r.model() == (ChainModel { next: 0, rows: Seq::empty(), found: None }),
            r.sources() == entries(sources@),
            r.reference() == ref_@,
            r.answered() == answered,
            !r.asked(),
    {
        let r = SourceChain {
            ref_: ref_.clone(),
            answered,
            sources,
            next: 0,
            asked: false,
            rows: Vec::new(),
            found: None,
        };
        assert(r.model().rows =~= Seq::<AttemptModel>::empty());
        r
    }

    /// Goes on to the next source that is to be asked; there is none once the
    /// chain is at its end. While a reply is awaited it is the source that was
    /// asked.
    pub fn next_source(self) -> (r: (SourceChain, Option<&'static str>))
        ensures
            r.0.sources() == self.sources(),
            r.0.reference() == self.reference(),
            r.0.answered() == self.answered(),
            r.0.model() == if self.asked() {
                self.model()
            } else {
                advanced(self.model(), self.answered(), self.reference(), self.sources())
            },
            r.0.asked() == (r.0.model().next < self.sources().len()),
            match r.1 {
                Some(name) => r.0.asked() && name@ == self.sources()[r.0.model().next as int].name,
                None => !r.0.asked(),
            },
    {
        proof {
            use_type_invariant(&self);
        }
        let ghost done = advanced(self.model(), self.answered, self.ref_@, self.sources());
        let SourceChain { ref_, answered, sources, next, asked, rows, found } = self;
        if asked {
            let name = sources[next].name;
            return (
                SourceChain { ref_, answered, sources, next, asked: true, rows, found },
                Some(name),
            );
        }
        let mut next: usize = next;
        let mut rows = rows;
        let ghost es = entries(sources@);
        let ghost kept = found_view(found);
        while next < sources.len()
            invariant
                next <= sources.len(),
                es == entries(sources@),
                kept == found_view(found),
                ref_@ == self.reference(),
                answered == self.answered(),
                es == self.sources(),
                !self.asked(),
                done == advanced(self.model(), self.answered(), self.reference(), self.sources()),
                advanced(
                    ChainModel {
                        next: next as nat,
                        rows: attempts::trace(rows@),
                        found: kept,
                    },
                    answered,
                    ref_@,
                    es,
                ) == done,
            decreases sources.len() - next,
        {
            let ghost before = rows@;
            match skip_reason(answered || found.is_some(), &ref_, &sources[next]) {
                Some(o) => {
                    let name = sources[next].name;
                    let row = SourceAttempt::new(name, o);
                    let ghost shown = row@;
                    rows.push(row);
                    assert(attempts::trace(rows@) =~= attempts::trace(before).push(shown));
                    next += 1;
                },
                None => {
                    let name = sources[next].name;
                    return (
                        SourceChain { ref_, answered, sources, next, asked: true, rows, found },
                        Some(name),
                    );
                },
            }
        }
        (SourceChain { ref_, answered, sources, next, asked: false, rows, found }, None)
    }

    /// Takes the reply of the source that was asked: its record, where it gave
    /// one, or its failure.
    pub fn reply(self, reply: Result<Option<Json>, SourceFailure>) -> (r: SourceChain)
        ensures
            r.sources() == self.sources(),
            r.reference() == self.reference(),
            r.answered() == self.answered(),
            !r.asked(),
            r.model() == if self.asked() {
                replied(self.model(), self.sources(), reply)
            } else {
                self.model()
            },
    {
        proof {
            use_type_invariant(&self);
        }
        let SourceChain { ref_, answered, sources, next, asked, rows, found } = self;
        if !asked {
            return SourceChain { ref_, answered, sources, next, asked: false, rows, found };
        }
        let count = sources.len();
        assert(next < count);
        let name = sources[next].name;
        let mut rows = rows;
        let mut found = found;
        let ghost before = rows@;
        let ghost outcome = reply_outcome(reply);
        match reply {
            Ok(record) => {
                rows.push(SourceAttempt::new(name, AttemptOutcome::Resolved));
                match record {
                    Some(v) => {
                        found = Some((name, v));
                    },
                    None => {},
                }
            },
            Err(f) => {
                let o = attempts::classify_attempt(&f.error, f.shown.as_str());
                rows.push(SourceAttempt::new(name, o));
            },
        }
        assert(attempts::trace(rows@) =~= attempts::trace(before).push(
            AttemptModel { source: name@, outcome },
        ));
        SourceChain { ref_, answered, sources, next: next + 1, asked: false, rows, found }
    }

    /// The trace and what was found.
    pub fn finish(self) -> (r: (Vec<SourceAttempt>, Option<(&'static str, Json)>))
        ensures
            attempts::trace(r.0@) == self.model().rows,
            found_view(r.1) == self.model().found,
    {
        let SourceChain { ref_: _, answered: _, sources: _, next: _, asked: _, rows, found } = self;
        (rows, found)
    }
}

// ---------------------------------------------------------------------------
// Rows that are replaced
// ---------------------------------------------------------------------------

/// The trace without the rows of a source.
pub open spec fn without(rows: Seq<AttemptModel>, source: Seq<char>) -> Seq<AttemptModel>
    decreases rows.len(),
{
    if rows.len() == 0 {
        Seq::empty()
    } else {
        let before = without(rows.drop_last(), source);
        if rows.last().source == source {
            before
        } else {
            before.push(rows.last())
        }
    }
}

/// The trace with one row for the source, at its end.
pub open spec fn recorded(
    rows: Seq<AttemptModel>,
    source: Seq<char>,
    outcome: OutcomeModel,
) -> Seq<AttemptModel> {
    without(rows, source).push(AttemptModel { source, outcome })
}

/// The trace without the rows of the sources of another.
pub open spec fn without_all(rows: Seq<AttemptModel>, fresh: Seq<AttemptModel>) -> Seq<
    AttemptModel,
>
    decreases fresh.len(),
{
    if fresh.len() == 0 {
        rows
    } else {
        without(without_all(rows, fresh.drop_last()), fresh.last().source)
    }
}

/// The trace with the rows of a later run in place of its own for the same
/// sources.
pub open spec fn merged(rows: Seq<AttemptModel>, fresh: Seq<AttemptModel>) -> Seq<AttemptModel> {
    without_all(rows, fresh) + fresh
}

fn drop_rows(rows: Vec<SourceAttempt>, source: &str) -> (r: Vec<SourceAttempt>)
    ensures
        attempts::trace(r@) == without(attempts::trace(rows@), source@),
{
    let ghost all = attempts::trace(rows@);
    let mut rest = rows;
    let mut out: Vec<SourceAttempt> = Vec::new();
    let ghost mut i: int = 0;
    assert(attempts::trace(out@) =~= without(all.take(0), source@));
    assert(all.skip(0) =~= all);
    while rest.len() > 0
        invariant
            0 <= i <= all.len(),
            attempts::trace(rest@) == all.skip(i),
            attempts::trace(out@) == without(all.take(i), source@),
        decreases rest.len(),
    {
        let ghost before = out@;
        let ghost left = attempts::trace(rest@);
        let ghost rest_before = rest@;
        assert(left.len() == rest@.len());
        assert(i < all.len());
        let row = rest.remove(0);
        assert(row@ == left[0]);
        assert(row@ == all[i]);
        assert(all.take(i + 1).drop_last() =~= all.take(i));
        assert(attempts::trace(rest@) =~= all.skip(i + 1)) by {
            assert forall|j: int| 0 <= j < rest@.len() implies attempts::trace(rest@)[j]
                == all.skip(i + 1)[j] by {
                assert(rest@[j] == rest_before[j + 1]);
                assert(left[j + 1] == all.skip(i)[j + 1]);
            }
        }
        if !text::same(row.source, source) {
            let ghost shown = row@;
            out.push(row);
            assert(attempts::trace(out@) =~= attempts::trace(before).push(shown));
        }
        proof {
            i = i + 1;
        }
    }
    assert(all.take(i) =~= all) by {
        assert(all.skip(i).len() == 0);
    }
    out
}

/// Puts one row for the source at the end of the trace, in place of any that
/// it has.
pub fn record(rows: Vec<SourceAttempt>, source: &'static str, outcome: AttemptOutcome) -> (r: Vec<
    SourceAttempt,
>)
    ensures
        attempts::trace(r@) == recorded(attempts::trace(rows@), source@, outcome@),
{
    let mut out = drop_rows(rows, source);
    let ghost before = out@;
    let row = SourceAttempt::new(source, outcome);
    let ghost shown = row@;
    out.push(row);
    assert(attempts::trace(out@) =~= attempts::trace(before).push(shown));
    out
}

/// Puts the rows of a later run in place of those of the same sources.
pub fn merge(rows: Vec<SourceAttempt>, fresh: Vec<SourceAttempt>) -> (r: Vec<SourceAttempt>)
    ensures
        attempts::trace(r@) == merged(attempts::trace(rows@), attempts::trace(fresh@)),
{
    let ghost old_rows = attempts::trace(rows@);
    let ghost all = attempts::trace(fresh@);
    let mut out = rows;
    let mut i: usize = 0;
    while i < fresh.len()
        invariant
            i <= fresh.len(),
            all == attempts::trace(fresh@),
            attempts::trace(out@) == without_all(old_rows, all.take(i as int)),
        decreases fresh.len() - i,
    {
        assert(all.take(i + 1).drop_last() =~= all.take(i as int));
        out = drop_rows(out, fresh[i].source);
        i += 1;
    }
    assert(all.take(i as int) =~= all);
    let ghost kept = out@;
    let mut rest = fresh;
    out.append(&mut rest);
    assert(attempts::trace(out@) =~= attempts::trace(kept) + all);
    out
}

// ---------------------------------------------------------------------------
// Laws
// ---------------------------------------------------------------------------

/// Whether the trace holds one row for each source so far, in their order.
pub open spec fn in_step(c: ChainModel, es: Seq<EntryModel>) -> bool {
    &&& c.next <= es.len()
    &&& c.rows.len() == c.next
    &&& forall|i: int| 0 <= i < c.rows.len() ==> (#[trigger] c.rows[i]).source == es[i].name
}

/// However a chain runs, its trace holds one row for each source behind it, in
/// the order of the chain; at its end that is every source.
pub proof fn law_every_source_has_a_row(
    c: ChainModel,
    answered: bool,
    m: RefModel,
    es: Seq<EntryModel>,
    reply: Result<Option<Json>, SourceFailure>,
)
    requires
        in_step(c, es),
    ensures
        in_step(advanced(c, answered, m, es), es),
        c.next < es.len() ==> in_step(replied(c, es, reply), es),
    decreases es.len() - c.next,
{
    if c.next < es.len() {
        let e = es[c.next as int];
        match skipped(answered || c.found is Some, m, e) {
            Some(o) => {
                law_every_source_has_a_row(
                    ChainModel {
                        next: c.next + 1,
                        rows: c.rows.push(AttemptModel { source: e.name, outcome: o }),
                        ..c
                    },
                    answered,
                    m,
                    es,
                    reply,
                );
            },
            None => {},
        }
    }
}

/// Once there is an answer no source is asked any more: the rest of the trace
/// says that it was not needed.
pub proof fn law_an_answer_ends_the_questions(
    c: ChainModel,
    answered: bool,
    m: RefModel,
    es: Seq<EntryModel>,
)
    requires
        answered || c.found is Some,
        c.next <= es.len(),
    ensures
        advanced(c, answered, m, es).next == es.len(),
        advanced(c, answered, m, es).found == c.found,
        advanced(c, answered, m, es).rows.len() == c.rows.len() + es.len() - c.next,
        forall|i: int|
            c.rows.len() <= i < advanced(c, answered, m, es).rows.len() ==> (#[trigger] advanced(
                c,
                answered,
                m,
                es,
            ).rows[i]).outcome is NotNeeded,
        c.rows.is_prefix_of(advanced(c, answered, m, es).rows),
    decreases es.len() - c.next,
{
    if c.next < es.len() {
        let e = es[c.next as int];
        let row = AttemptModel { source: e.name, outcome: OutcomeModel::NotNeeded };
        let d = ChainModel { next: c.next + 1, rows: c.rows.push(row), ..c };
        law_an_answer_ends_the_questions(d, answered, m, es);
        let a = advanced(d, answered, m, es);
        assert(a.rows.take(d.rows.len() as int)[c.rows.len() as int] == row);
        assert(a.rows.take(c.rows.len() as int) =~= a.rows.take(d.rows.len() as int).take(
            c.rows.len() as int,
        ));
        assert(d.rows.take(c.rows.len() as int) =~= c.rows);
    } else {
        assert(c.rows.take(c.rows.len() as int) =~= c.rows);
    }
}

/// A source is asked only where it is switched on, and a publisher only about
/// a DOI that it registered. A DOI of another publisher is never blamed on a
/// switch.
pub proof fn law_only_open_gates_are_asked(answered: bool, m: RefModel, e: EntryModel)
    ensures
        skipped(answered, m, e) is None ==> !answered && e.can_serve,
        skipped(answered, m, e) is None && e.publisher is Some ==> m is Doi
            && e.publisher->Some_0.1.contains(refs::doi_prefix(m.id())),
        m is Doi && e.publisher is Some && !e.publisher->Some_0.1.contains(
            refs::doi_prefix(m.id()),
        ) ==> !(skipped(answered, m, e) matches Some(OutcomeModel::Disabled { .. })),
        m is Arxiv ==> !(skipped(answered, m, e) matches Some(OutcomeModel::Disabled { .. })),
{
}

proof fn lemma_without_keeps(rows: Seq<AttemptModel>, source: Seq<char>, row: AttemptModel)
    ensures
        without(rows, source).contains(row) <==> rows.contains(row) && row.source != source,
    decreases rows.len(),
{
    if rows.len() > 0 {
        let before = without(rows.drop_last(), source);
        lemma_without_keeps(rows.drop_last(), source, row);
        let all = without(rows, source);
        if rows.contains(row) && row.source != source {
            let i = choose|i: int| 0 <= i < rows.len() && rows[i] == row;
            if i < rows.len() - 1 {
                assert(rows.drop_last()[i] == row);
                let j = choose|j: int| 0 <= j < before.len() && before[j] == row;
                assert(all[j] == row);
            } else {
                assert(all[all.len() - 1] == row);
            }
        }
        if all.contains(row) {
            let j = choose|j: int| 0 <= j < all.len() && all[j] == row;
            if j < before.len() {
                assert(before[j] == row);
                let i = choose|i: int|
                    0 <= i < rows.drop_last().len() && rows.drop_last()[i] == row;
                assert(rows[i] == row);
            } else {
                assert(rows[rows.len() - 1] == row);
            }
        }
    }
}

/// Recording an outcome leaves the rows of all other sources, and the source
/// itself has that one row.
pub proof fn law_recording_touches_one_source(
    rows: Seq<AttemptModel>,
    source: Seq<char>,
    outcome: OutcomeModel,
    row: AttemptModel,
)
    ensures
        row.source != source ==> (recorded(rows, source, outcome).contains(row) <==> rows.contains(
            row,
        )),
        row.source == source ==> (recorded(rows, source, outcome).contains(row) <==> row.outcome
            == outcome),
{
    let kept = without(rows, source);
    let last = AttemptModel { source, outcome };
    let all = recorded(rows, source, outcome);
    lemma_without_keeps(rows, source, row);
    if kept.contains(row) {
        let i = choose|i: int| 0 <= i < kept.len() && kept[i] == row;
        assert(all[i] == row);
    }
    if row == last {
        assert(all[kept.len() as int] == row);
    }
    if all.contains(row) {
        let i = choose|i: int| 0 <= i < all.len() && all[i] == row;
        if i < kept.len() {
            assert(kept[i] == row);
        }
    }
}

proof fn lemma_without_all_keeps(
    rows: Seq<AttemptModel>,
    fresh: Seq<AttemptModel>,
    row: AttemptModel,
)
    requires
        rows.contains(row),
        forall|i: int| 0 <= i < fresh.len() ==> (#[trigger] fresh[i]).source != row.source,
    ensures
        without_all(rows, fresh).contains(row),
    decreases fresh.len(),
{
    if fresh.len() > 0 {
        lemma_without_all_keeps(rows, fresh.drop_last(), row);
        lemma_without_keeps(without_all(rows, fresh.drop_last()), fresh.last().source, row);
    }
}

/// Running one chain again leaves the rows of the sources that are not part of
/// it.
pub proof fn law_a_second_run_keeps_other_rows(
    rows: Seq<AttemptModel>,
    fresh: Seq<AttemptModel>,
    row: AttemptModel,
)
    requires
        rows.contains(row),
        forall|i: int| 0 <= i < fresh.len() ==> (#[trigger] fresh[i]).source != row.source,
    ensures
        merged(rows, fresh).contains(row),
        fresh.is_suffix_of(merged(rows, fresh)),
{
    lemma_without_all_keeps(rows, fresh, row);
    let kept = without_all(rows, fresh);
    let i = choose|i: int| 0 <= i < kept.len() && kept[i] == row;
    let all = merged(rows, fresh);
    assert(all[i] == row);
    assert(all.subrange(all.len() - fresh.len(), all.len() as int) =~= fresh);
}

/// Why a source is not asked: because an answer is there; else, about a DOI,
/// because another publisher registered it, or because the source is switched
/// off; else, about an arXiv id, because it cannot serve it. In every other case
/// it is asked.
pub proof fn law_sources_are_asked_unless_there_is_a_reason(
    m: RefModel,
    e: EntryModel,
    prefix: Seq<char>,
    rest: Seq<char>,
)
    requires
        !prefix.contains('/'),
    ensures
        skipped(true, m, e) == Some(OutcomeModel::NotNeeded),
        m == RefModel::Doi(prefix + "/"@ + rest) ==> {
            let own = e.publisher matches Some((_, prefixes)) ==> prefixes.contains(prefix);
            &&& own && e.can_serve ==> skipped(false, m, e) is None
            &&& own && !e.can_serve ==> skipped(false, m, e) == Some(
                OutcomeModel::Disabled { env: e.env },
            )
            &&& !own ==> skipped(false, m, e) == Some(
                OutcomeModel::WrongPublisher {
                    detail: "DOI prefix "@ + prefix + " is not "@ + e.publisher->Some_0.0,
                },
            )
        },
        m is Arxiv && e.publisher is None && e.can_serve ==> skipped(false, m, e) is None,
        m is Arxiv && (e.publisher is Some || !e.can_serve) ==> skipped(false, m, e) == Some(
            OutcomeModel::NotApplicable,
        ),
{
    reveal_strlit("/");
    let d = prefix + "/"@ + rest;
    let k = prefix.len() as int;
    assert(d[k] == '/');
    assert forall|j: int| 0 <= j < k implies d[j] != '/' by {
        assert(d[j] == prefix[j]);
        assert(prefix.contains(prefix[j]));
    }
    text::lemma_first_at(d, '/', k);
    assert(d.take(k) =~= prefix);
}

/// A chain goes on to the first source that is to be asked: each that it passes
/// over has a row with its name and the reason, in their order; nothing else of
/// the chain changes.
pub proof fn law_chains_stop_at_the_next_source(
    c: ChainModel,
    answered: bool,
    m: RefModel,
    es: Seq<EntryModel>,
)
    requires
        c.next <= es.len(),
    ensures
        ({
            let a = advanced(c, answered, m, es);
            let done = answered || c.found is Some;
            &&& c.next <= a.next <= es.len()
            &&& a.found == c.found
            &&& a.next < es.len() ==> skipped(done, m, es[a.next as int]) is None
            &&& a.rows.len() == c.rows.len() + a.next - c.next
            &&& forall|i: int| 0 <= i < c.rows.len() ==> #[trigger] a.rows[i] == c.rows[i]
            &&& forall|i: int|
                c.rows.len() <= i < a.rows.len() ==> ({
                    let e = es[c.next + i - c.rows.len()];
                    &&& (#[trigger] a.rows[i]).source == e.name
                    &&& skipped(done, m, e) == Some(a.rows[i].outcome)
                })
        }),
    decreases es.len() - c.next,
{
    if c.next < es.len() {
        let e = es[c.next as int];
        match skipped(answered || c.found is Some, m, e) {
            Some(o) => {
                let row = AttemptModel { source: e.name, outcome: o };
                let d = ChainModel { next: c.next + 1, rows: c.rows.push(row), ..c };
                law_chains_stop_at_the_next_source(d, answered, m, es);
                let a = advanced(c, answered, m, es);
                assert(a == advanced(d, answered, m, es));
                assert forall|i: int| 0 <= i < c.rows.len() implies #[trigger] a.rows[i]
                    == c.rows[i] by {
                    assert(a.rows[i] == d.rows[i]);
                }
                assert forall|i: int| c.rows.len() <= i < a.rows.len() implies ({
                    let e = es[c.next + i - c.rows.len()];
                    &&& (#[trigger] a.rows[i]).source == e.name
                    &&& skipped(answered || c.found is Some, m, e) == Some(a.rows[i].outcome)
                }) by {
                    if i == c.rows.len() {
                        assert(a.rows[i] == d.rows[i]);
                    }
                }
            },
            None => {},
        }
    }
}

/// The answer of a source is its row: that it resolved, where it gave a record
/// or none without failing, and else what its error means. A record is the
/// answer of the chain, told with the source that gave it.
pub proof fn law_answers_are_recorded(
    c: ChainModel,
    es: Seq<EntryModel>,
    reply: Result<Option<Json>, SourceFailure>,
)
    ensures
        replied(c, es, reply).next == c.next + 1,
        ({
            let rows = replied(c, es, reply).rows;
            &&& rows.len() == c.rows.len() + 1
            &&& forall|i: int| 0 <= i < c.rows.len() ==> #[trigger] rows[i] == c.rows[i]
            &&& rows.last().source == es[c.next as int].name
            &&& reply is Ok ==> rows.last().outcome is Resolved
            &&& reply matches Err(f) ==> rows.last().outcome == attempts::classified(
                f.error,
                f.shown@,
            )
        }),
        reply matches Ok(Some(record)) ==> replied(c, es, reply).found == Some(
            (es[c.next as int].name, record),
        ),
        !(reply matches Ok(Some(_))) ==> replied(c, es, reply).found == c.found,
{
}

proof fn lemma_without_filter(rows: Seq<AttemptModel>, source: Seq<char>)
    ensures
        without(rows, source) == rows.filter(|r: AttemptModel| r.source != source),
    decreases rows.len(),
{
    reveal(Seq::filter);
    if rows.len() > 0 {
        lemma_without_filter(rows.drop_last(), source);
    }
}

/// Recording puts the row of a source at the end, and leaves the others in their
/// order.
pub proof fn law_recorded_rows_come_last(
    rows: Seq<AttemptModel>,
    source: Seq<char>,
    outcome: OutcomeModel,
)
    ensures
        recorded(rows, source, outcome) == rows.filter(|r: AttemptModel| r.source != source).push(
            AttemptModel { source, outcome },
        ),
{
    lemma_without_filter(rows, source);
}

/// The optional sources are DataCite, Europe PMC, OpenAIRE, HAL and CORE, in this
/// order, each with its own switch; none is bound to a publisher.
pub proof fn law_optional_sources_keep_their_order(
    datacite: bool,
    europe_pmc: bool,
    openaire: bool,
    hal: bool,
    core: bool,
    i: int,
)
    ensures
        ({
            let es = optional_model(datacite, europe_pmc, openaire, hal, core);
            let names = seq!["datacite"@, "europe-pmc"@, "openaire"@, "hal"@, "core"@];
            let switches = seq![
                "DOIGET_ENABLE_DATACITE"@,
                "DOIGET_ENABLE_EUROPE_PMC"@,
                "DOIGET_ENABLE_OPENAIRE"@,
                "DOIGET_ENABLE_HAL"@,
                "DOIGET_ENABLE_CORE"@,
            ];
            let on = seq![datacite, europe_pmc, openaire, hal, core];
            &&& es.len() == 5
            &&& 0 <= i < 5 ==> es[i].name == names[i] && es[i].can_serve == on[i]
                && es[i].publisher is None && es[i].env == seq![switches[i]]
        }),
{
}

/// The publishers' sources that were built in come as APS, Elsevier, Springer
/// and IEEE, each with the prefixes that it was given and the key and agreement
/// that it needs.
pub proof fn law_publishers_keep_their_order(
    aps: Option<(Vec<String>, bool)>,
    elsevier: Option<(Vec<String>, bool)>,
    springer: Option<(Vec<String>, bool)>,
    ieee: Option<(Vec<String>, bool)>,
)
    ensures
        ({
            let es = tdm_models(aps, elsevier, springer, ieee);
            let n1 = if aps is Some {
                1int
            } else {
                0
            };
            let n2 = n1 + if elsevier is Some {
                1int
            } else {
                0
            };
            let n3 = n2 + if springer is Some {
                1int
            } else {
                0
            };
            &&& es.len() == n3 + if ieee is Some {
                1int
            } else {
                0
            }
            &&& aps matches Some((p, on)) ==> es[0].name == "tdm-aps"@ && es[0].can_serve == on
                && es[0].publisher->Some_0.1 == text::views(p@) && es[0].env == seq![
                "DOIGET_KEY_APS"@,
                "DOIGET_AGREE_TDM_APS"@,
            ] && es[0].publisher is Some
            &&& elsevier matches Some((p, on)) ==> es[n1].name == "tdm-elsevier"@
                && es[n1].can_serve == on && es[n1].publisher->Some_0.1 == text::views(p@)
                && es[n1].env == seq!["DOIGET_KEY_ELSEVIER"@, "DOIGET_AGREE_TDM_ELSEVIER"@]
                && es[n1].publisher is Some
            &&& springer matches Some((p, on)) ==> es[n2].name == "tdm-springer"@
                && es[n2].can_serve == on && es[n2].publisher->Some_0.1 == text::views(p@)
                && es[n2].env == seq!["DOIGET_KEY_SPRINGER"@, "DOIGET_AGREE_TDM_SPRINGER"@]
                && es[n2].publisher is Some
            &&& ieee matches Some((p, on)) ==> es[n3].name == "tdm-ieee"@ && es[n3].can_serve == on
                && es[n3].publisher->Some_0.1 == text::views(p@) && es[n3].env == seq![
                "DOIGET_KEY_IEEE"@,
                "DOIGET_AGREE_TDM_IEEE"@,
            ] && es[n3].publisher is Some
        }),
{
}

} // verus!

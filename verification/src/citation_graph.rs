//! Breadth-first expansion of a citation graph under hard caps.
//!
//! [`Expansion`] is the walk without its requests: it says which Work to ask
//! for next, takes the answer, and hands out the graph at the end.

use crate::json;
use crate::json::Json;
use crate::json::JsonModel;
use crate::json::JsonNumber;
use crate::json_read;
use crate::source::FetchError;
use crate::text;
use crate::urls;
use crate::urls::WebUrl;
use vstd::prelude::*;

verus! {

/// How far a graph may grow.
#[derive(Debug, Clone, Copy, PartialEq, Eq)]
pub struct GraphCaps {
    /// Greatest distance from the seed; 0 is the seed only.
    pub depth: usize,
    /// Greatest number of nodes.
    pub total: usize,
    /// Greatest number of children per node.
    pub per_paper: usize,
}

impl GraphCaps {
    /// Hard cap on the depth.
    pub const MAX_DEPTH: usize = 3;

    /// Hard cap on the number of nodes.
    pub const MAX_TOTAL: usize = 100;

    /// Hard cap on the children per node.
    pub const MAX_PER_PAPER: usize = 20;

    /// The caps, none above its hard cap.
    pub open spec fn spec_clamped(self) -> GraphCaps {
        GraphCaps {
            depth: if self.depth < 3 {
                self.depth
            } else {
                3
            },
            total: if self.total < 100 {
                self.total
            } else {
                100
            },
            per_paper: if self.per_paper < 20 {
                self.per_paper
            } else {
                20
            },
        }
    }

    /// Lowers each cap that lies above its hard cap.
    #[must_use]
    pub fn clamped(self) -> (r: Self)
        ensures
            r == self.spec_clamped(),
    {
        GraphCaps {
            depth: if self.depth < Self::MAX_DEPTH {
                self.depth
            } else {
                Self::MAX_DEPTH
            },
            total: if self.total < Self::MAX_TOTAL {
                self.total
            } else {
                Self::MAX_TOTAL
            },
            per_paper: if self.per_paper < Self::MAX_PER_PAPER {
                self.per_paper
            } else {
                Self::MAX_PER_PAPER
            },
        }
    }
}

impl Default for GraphCaps {
    fn default() -> (r: Self)
        ensures
            r == (GraphCaps { depth: 3, total: 100, per_paper: 20 }),
    {
        GraphCaps {
            depth: Self::MAX_DEPTH,
            total: Self::MAX_TOTAL,
            per_paper: Self::MAX_PER_PAPER,
        }
    }
}

/// A Work of the graph.
#[derive(Debug, Clone, PartialEq, Eq)]
pub struct GraphNode {
    /// Its id in short form.
    pub id: String,
    /// Its distance from the seed.
    pub depth: usize,
}

/// `from` cites `to`.
#[derive(Debug, Clone, PartialEq, Eq)]
pub struct GraphEdge {
    /// The citing Work.
    pub from: String,
    /// The cited Work.
    pub to: String,
}

/// A citation graph.
#[derive(Debug, Clone, PartialEq, Eq)]
pub struct GraphResult {
    /// The Work that the expansion started from.
    pub seed_work_id: String,
    /// Every Work that was reached, the seed first.
    pub nodes: Vec<GraphNode>,
    /// The citations that were found.
    pub edges: Vec<GraphEdge>,
    /// Whether the walk was cut short.
    pub truncated: bool,
    /// Number of nodes.
    pub total_visited: usize,
}

/// A node as JSON.
pub open spec fn node_json(n: GraphNode) -> JsonModel {
    JsonModel::Object(
        seq![
            ("id"@, JsonModel::Text(n.id@)),
            ("depth"@, JsonModel::Number(JsonNumber::Unsigned(n.depth as u64))),
        ],
    )
}

/// A citation as JSON.
pub open spec fn edge_json(e: GraphEdge) -> JsonModel {
    JsonModel::Object(
        seq![("from"@, JsonModel::Text(e.from@)), ("to"@, JsonModel::Text(e.to@))],
    )
}

/// A citation graph as JSON.
pub open spec fn graph_json(g: GraphResult) -> JsonModel {
    JsonModel::Object(
        seq![
            ("seed_work_id"@, JsonModel::Text(g.seed_work_id@)),
            (
                "nodes"@,
                JsonModel::Array(Seq::new(g.nodes@.len(), |i: int| node_json(g.nodes@[i]))),
            ),
            (
                "edges"@,
                JsonModel::Array(Seq::new(g.edges@.len(), |i: int| edge_json(g.edges@[i]))),
            ),
            ("truncated"@, JsonModel::Bool(g.truncated)),
            (
                "total_visited"@,
                JsonModel::Number(JsonNumber::Unsigned(g.total_visited as u64)),
            ),
        ],
    )
}

fn node_value(n: &GraphNode) -> (r: Json)
    ensures
        r@ == node_json(*n),
{
    let mut m: Vec<(String, Json)> = Vec::new();
    json::put(&mut m, "id", json::text_value(n.id.as_str()));
    json::put(&mut m, "depth", Json::Number(JsonNumber::Unsigned(n.depth as u64)));
    assert(json::members_model(m@) =~= node_json(*n)->Object_0);
    json::object(m)
}

fn edge_value(e: &GraphEdge) -> (r: Json)
    ensures
        r@ == edge_json(*e),
{
    let mut m: Vec<(String, Json)> = Vec::new();
    json::put(&mut m, "from", json::text_value(e.from.as_str()));
    json::put(&mut m, "to", json::text_value(e.to.as_str()));
    assert(json::members_model(m@) =~= edge_json(*e)->Object_0);
    json::object(m)
}

impl GraphResult {
    /// The graph as JSON.
    pub fn to_value(&self) -> (r: Json)
        ensures
            r@ == graph_json(*self),
    {
        let mut nodes: Vec<Json> = Vec::new();
        let mut i: usize = 0;
        while i < self.nodes.len()
            invariant
                i <= self.nodes.len(),
                nodes@.len() == i,
                forall|j: int| 0 <= j < i ==> (#[trigger] nodes@[j])@ == node_json(self.nodes@[j]),
            decreases self.nodes.len() - i,
        {
            nodes.push(node_value(&self.nodes[i]));
            i += 1;
        }
        let mut edges: Vec<Json> = Vec::new();
        let mut k: usize = 0;
        while k < self.edges.len()
            invariant
                k <= self.edges.len(),
                edges@.len() == k,
                forall|j: int| 0 <= j < k ==> (#[trigger] edges@[j])@ == edge_json(self.edges@[j]),
            decreases self.edges.len() - k,
        {
            edges.push(edge_value(&self.edges[k]));
            k += 1;
        }
        let nodes = json::array(nodes);
        let edges = json::array(edges);
        assert(nodes@->Array_0 =~= Seq::new(
            self.nodes@.len(),
            |j: int| node_json(self.nodes@[j]),
        ));
        assert(edges@->Array_0 =~= Seq::new(
            self.edges@.len(),
            |j: int| edge_json(self.edges@[j]),
        ));
        let mut m: Vec<(String, Json)> = Vec::new();
        json::put(&mut m, "seed_work_id", json::text_value(self.seed_work_id.as_str()));
        json::put(&mut m, "nodes", nodes);
        json::put(&mut m, "edges", edges);
        json::put(&mut m, "truncated", Json::Bool(self.truncated));
        json::put(
            &mut m,
            "total_visited",
            Json::Number(JsonNumber::Unsigned(self.total_visited as u64)),
        );
        assert(json::members_model(m@) =~= graph_json(*self)->Object_0);
        json::object(m)
    }
}

/// Why there is no graph.
#[derive(Debug, PartialEq, Eq)]
#[non_exhaustive]
pub enum GraphError {
    /// The seed could not be fetched.
    Source(FetchError),
    /// The provenance log could not be written.
    Log {
        /// What the log says.
        message: String,
    },
    /// The seed has no record with an id.
    SeedNotIndexed,
    /// The source of the graph is not enabled.
    CapabilityDenied,
}

impl GraphError {
    /// The one-line text of the error; `cause` is that of what it wraps.
    pub open spec fn spec_message(self, cause: Seq<char>) -> Seq<char> {
        match self {
            GraphError::Source(_) => "openalex source error: "@ + cause,
            GraphError::Log { message } => "provenance log error during graph expansion: "@
                + message@,
            GraphError::SeedNotIndexed =>
                "seed DOI not indexed by OpenAlex (no `id` field in response)"@,
            GraphError::CapabilityDenied =>
                "citation graph requires DOIGET_ENABLE_OPENALEX + --features metadata"@,
        }
    }

    /// Renders the error, given the text of the fetch error that it wraps.
    pub fn message(&self, cause: &str) -> (r: String)
        ensures
            r@ == self.spec_message(cause@),
    {
        match self {
            GraphError::Source(_) => "openalex source error: ".to_string().concat(cause),
            GraphError::Log { message } =>
                "provenance log error during graph expansion: ".to_string().concat(
                    message.as_str(),
                ),
            GraphError::SeedNotIndexed =>
                "seed DOI not indexed by OpenAlex (no `id` field in response)".to_string(),
            GraphError::CapabilityDenied =>
                "citation graph requires DOIGET_ENABLE_OPENALEX + --features metadata".to_string(),
        }
    }
}

// ---------------------------------------------------------------------------
// Records
// ---------------------------------------------------------------------------

/// The id of a Work, in short form: what follows the last slash.
pub open spec fn work_id(work: Json) -> Option<Seq<char>> {
    match json::opt_text(work.member("id"@)) {
        Some(s) => Some(text::after_last(s, '/')),
        None => None,
    }
}

/// The id of a Work, in short form.
pub fn extract_work_id(work: &Json) -> (r: Option<String>)
    ensures
        text::opt_view(r) == work_id(*work),
{
    match work.text_at("id") {
        Some(s) => Some(text::text_after_last(s.as_str(), '/')),
        None => None,
    }
}

/// The texts among the items, in short form.
pub open spec fn short_ids(items: Seq<Json>) -> Seq<Seq<char>>
    decreases items.len(),
{
    if items.len() == 0 {
        Seq::empty()
    } else {
        let before = short_ids(items.drop_last());
        match items.last().text() {
            Some(s) => before.push(text::after_last(s, '/')),
            None => before,
        }
    }
}

/// The Works that a Work refers to, in short form.
pub open spec fn references(work: Json) -> Seq<Seq<char>> {
    match json::opt_items(work.member("referenced_works"@)) {
        Some(items) => short_ids(items),
        None => Seq::empty(),
    }
}

/// The Works that a Work refers to, in short form.
pub fn extract_referenced_works(work: &Json) -> (r: Vec<String>)
    ensures
        text::views(r@) == references(*work),
{
    let mut out: Vec<String> = Vec::new();
    match work.items_at("referenced_works") {
        Some(items) => {
            let mut i: usize = 0;
            assert(text::views(out@) =~= short_ids(items@.take(0)));
            while i < items.len()
                invariant
                    i <= items.len(),
                    text::views(out@) == short_ids(items@.take(i as int)),
                decreases items.len() - i,
            {
                assert(items@.take(i + 1).drop_last() =~= items@.take(i as int));
                let ghost before = out@;
                match items[i].as_text() {
                    Some(s) => {
                        out.push(text::text_after_last(s.as_str(), '/'));
                        assert(text::views(out@) =~= text::views(before).push(
                            text::after_last(s@, '/'),
                        ));
                    },
                    None => {},
                }
                i += 1;
            }
            assert(items@.take(i as int) =~= items@);
        },
        None => {
            assert(text::views(out@) =~= Seq::empty());
        },
    }
    out
}

/// The URL of a Work below a base.
pub open spec fn work_url(base: Seq<char>, id: Seq<char>) -> Result<urls::UrlModel, Seq<char>> {
    match urls::url_of(base) {
        Ok(b) => match urls::url_joined(b, "/works/"@ + id) {
            Ok(u) => Ok(u),
            Err(e) => Err("openalex Work URL construction failed: "@ + e),
        },
        Err(e) => Err("openalex base URL invalid: "@ + e),
    }
}

/// The base of the record service: the given override, or the public host.
pub open spec fn openalex_base(base_override: Option<Seq<char>>) -> Seq<char> {
    match base_override {
        Some(b) => b,
        None => "https://api.openalex.org"@,
    }
}

/// The URL of a Work.
pub fn build_openalex_work_url(base_override: Option<&str>, id: &str) -> (r: Result<
    WebUrl,
    FetchError,
>)
    ensures
        match work_url(
            openalex_base(
                match base_override {
                    Some(b) => Some(b@),
                    None => None,
                },
            ),
            id@,
        ) {
            Ok(u) => r is Ok && r->Ok_0@ == u,
            Err(e) => r matches Err(FetchError::SourceSchema { hint }) && hint@ == e,
        },
{
    let raw = match base_override {
        Some(b) => b,
        None => "https://api.openalex.org",
    };
    let base = match WebUrl::parse(raw) {
        Ok(u) => u,
        Err(e) => return Err(
            FetchError::SourceSchema {
                hint: "openalex base URL invalid: ".to_string().concat(e.as_str()),
            },
        ),
    };
    match base.join("/works/".to_string().concat(id).as_str()) {
        Ok(u) => Ok(u),
        Err(e) => Err(
            FetchError::SourceSchema {
                hint: "openalex Work URL construction failed: ".to_string().concat(e.as_str()),
            },
        ),
    }
}

// ---------------------------------------------------------------------------
// The walk
// ---------------------------------------------------------------------------

/// A walk under way. The nodes from `next` on are yet to be looked at: they
/// are the queue of the search.
pub struct Walk {
    pub nodes: Seq<(Seq<char>, nat)>,
    pub edges: Seq<(Seq<char>, Seq<char>)>,
    pub next: nat,
    pub truncated: bool,
}

/// Whether a Work is a node.
pub open spec fn visited(nodes: Seq<(Seq<char>, nat)>, id: Seq<char>) -> bool {
    exists|i: int| 0 <= i < nodes.len() && (#[trigger] nodes[i]).0 == id
}

/// The walk after the children of a Work were added, as far as there is room:
/// each is cited, and is a new node unless it is one already. A new child
/// beyond the room ends it.
pub open spec fn with_children(
    w: Walk,
    parent: Seq<char>,
    children: Seq<Seq<char>>,
    depth: nat,
    total: nat,
) -> Walk
    decreases children.len(),
{
    if children.len() == 0 {
        w
    } else {
        let c = children[0];
        if visited(w.nodes, c) {
            with_children(
                Walk { edges: w.edges.push((parent, c)), ..w },
                parent,
                children.drop_first(),
                depth,
                total,
            )
        } else if w.nodes.len() >= total {
            Walk { truncated: true, ..w }
        } else {
            with_children(
                Walk { nodes: w.nodes.push((c, depth)), edges: w.edges.push((parent, c)), ..w },
                parent,
                children.drop_first(),
                depth,
                total,
            )
        }
    }
}

/// The walk after a Work gave its references: no more than the cap of them are
/// taken up.
pub open spec fn adopted(
    w: Walk,
    parent: Seq<char>,
    refs: Seq<Seq<char>>,
    depth: nat,
    caps: GraphCaps,
) -> Walk {
    if refs.len() > caps.per_paper {
        with_children(
            Walk { truncated: true, ..w },
            parent,
            refs.take(caps.per_paper as int),
            depth,
            caps.total as nat,
        )
    } else {
        with_children(w, parent, refs, depth, caps.total as nat)
    }
}

/// The walk before the first request: the seed and its references. Caps that
/// allow the seed only leave the references out.
pub open spec fn begun(seed: Seq<char>, refs: Seq<Seq<char>>, caps: GraphCaps) -> Walk {
    let w = Walk {
        nodes: seq![(seed, 0nat)],
        edges: Seq::empty(),
        next: 1,
        truncated: false,
    };
    if caps.depth == 0 {
        Walk { truncated: refs.len() > 0, ..w }
    } else {
        adopted(w, seed, refs, 1, caps)
    }
}

/// The walk up to its next request, and the Work that is requested. A Work at
/// the greatest depth is not looked into, nor is one without a URL; a full
/// graph ends the walk.
pub open spec fn advanced(w: Walk, caps: GraphCaps, base: Seq<char>) -> (
    Walk,
    Option<(Seq<char>, nat)>,
)
    decreases w.nodes.len() - w.next,
{
    if w.next >= w.nodes.len() {
        (w, None)
    } else {
        let (id, depth) = w.nodes[w.next as int];
        if depth >= caps.depth {
            advanced(Walk { next: w.next + 1, truncated: true, ..w }, caps, base)
        } else if w.nodes.len() >= caps.total {
            (Walk { next: w.nodes.len(), truncated: true, ..w }, None)
        } else if work_url(base, id) is Err {
            advanced(Walk { next: w.next + 1, truncated: true, ..w }, caps, base)
        } else {
            (Walk { next: w.next + 1, ..w }, Some((id, depth)))
        }
    }
}

/// The walk after an answer: the references of the record, or nothing where
/// there is no record.
pub open spec fn answered(
    w: Walk,
    asked: Option<(Seq<char>, nat)>,
    work: Option<Json>,
    caps: GraphCaps,
) -> Walk {
    match asked {
        None => w,
        Some((id, depth)) => match work {
            None => Walk { truncated: true, ..w },
            Some(v) => adopted(w, id, references(v), depth + 1, caps),
        },
    }
}

/// What a list of nodes holds.
pub open spec fn node_views(v: Seq<GraphNode>) -> Seq<(Seq<char>, nat)> {
    Seq::new(v.len(), |i: int| (v[i].id@, v[i].depth as nat))
}

/// What a list of edges holds.
pub open spec fn edge_views(v: Seq<GraphEdge>) -> Seq<(Seq<char>, Seq<char>)> {
    Seq::new(v.len(), |i: int| (v[i].from@, v[i].to@))
}

/// An expansion under way.
pub struct Expansion {
    caps: GraphCaps,
    nodes: Vec<GraphNode>,
    edges: Vec<GraphEdge>,
    next: usize,
    truncated: bool,
    asked: Option<(String, usize)>,
}

/// A Work to ask for.
pub struct WorkRequest {
    /// Its id in short form.
    pub work_id: String,
    /// Where to ask for it.
    pub url: WebUrl,
}

impl Expansion {
    /// The walk so far.
    pub closed spec fn walk(&self) -> Walk {
        Walk {
            nodes: node_views(self.nodes@),
            edges: edge_views(self.edges@),
            next: self.next as nat,
            truncated: self.truncated,
        }
    }

    /// The caps in force.
    pub closed spec fn caps(&self) -> GraphCaps {
        self.caps
    }

    /// The Work whose record is awaited, and its depth.
    pub closed spec fn asked(&self) -> Option<(Seq<char>, nat)> {
        match self.asked {
            Some((id, depth)) => Some((id@, depth as nat)),
            None => None,
        }
    }

    #[verifier::type_invariant]
    closed spec fn wf(&self) -> bool {
        (self.asked matches Some((_, d)) ==> d < self.caps.depth) && self.nodes@.len() >= 1
            && self.next <= self.nodes@.len()
    }

    /// Whether a walk may start at all.
    pub fn check_enabled(openalex: bool) -> (r: Result<(), GraphError>)
        ensures
            openalex ==> r == Ok::<(), GraphError>(()),
            !openalex ==> r == Err::<(), GraphError>(GraphError::CapabilityDenied),
    {
        if openalex {
            Ok(())
        } else {
            Err(GraphError::CapabilityDenied)
        }
    }

    /// Starts at the record of the seed, under the given caps or the hard caps
    /// where those are lower.
    pub fn start(seed: Option<&Json>, caps: GraphCaps) -> (r: Result<Expansion, GraphError>)
        ensures
            match (
                match seed {
                    Some(v) => work_id(*v),
                    None => None,
                }) {
                Some(id) => r matches Ok(e) && e.caps() == caps.spec_clamped() && e.walk() == begun(
                    id,
                    references(*seed->Some_0),
                    caps.spec_clamped(),
                ) && e.asked() is None,
                None => r == Err::<Expansion, GraphError>(GraphError::SeedNotIndexed),
            },
    {
        let caps = caps.clamped();
        let record = match seed {
            Some(v) => v,
            None => return Err(GraphError::SeedNotIndexed),
        };
        let id = match extract_work_id(record) {
            Some(id) => id,
            None => return Err(GraphError::SeedNotIndexed),
        };
        let refs = extract_referenced_works(record);
        let mut nodes: Vec<GraphNode> = Vec::new();
        nodes.push(GraphNode { id: id.clone(), depth: 0 });
        let mut edges: Vec<GraphEdge> = Vec::new();
        let mut truncated = false;
        assert(node_views(nodes@) =~= seq![(id@, 0nat)]);
        assert(edge_views(edges@) =~= Seq::<(Seq<char>, Seq<char>)>::empty());
        if caps.depth == 0 {
            truncated = refs.len() > 0;
        } else {
            enqueue_children(
                id.as_str(),
                &refs,
                1,
                &caps,
                &mut nodes,
                &mut edges,
                1,
                &mut truncated,
            );
        }
        let r = Expansion { caps, nodes, edges, next: 1, truncated, asked: None };
        Ok(r)
    }

    /// Goes on to the next Work that is to be asked for; there is none once
    /// the walk is over.
    pub fn next_request(self, base_override: Option<&str>) -> (r: (
        Expansion,
        Option<WorkRequest>,
    ))
        ensures
            ({
                let base = openalex_base(
                    match base_override {
                        Some(b) => Some(b@),
                        None => None,
                    },
                );
                let (w, asked) = advanced(self.walk(), self.caps(), base);
                r.0.caps() == self.caps() && r.0.walk() == w && r.0.asked() == asked && match asked {
                    Some((id, _)) => r.1 matches Some(q) && q.work_id@ == id && Ok::<
                        urls::UrlModel,
                        Seq<char>,
                    >(q.url@) == work_url(base, id),
                    None => r.1 is None,
                }
            }),
    {
        proof {
            use_type_invariant(&self);
        }
        let ghost caps = self.caps;
        let ghost begin = self.walk();
        let ghost base = openalex_base(
            match base_override {
                Some(b) => Some(b@),
                None => None,
            },
        );
        let Expansion { caps, nodes, edges, next, truncated, asked: _ } = self;
        let mut next: usize = next;
        let mut truncated = truncated;
        let ghost done = advanced(begin, caps, base);
        while next < nodes.len()
            invariant
                nodes@.len() >= 1,
                next <= nodes.len(),
                advanced(
                    Walk {
                        nodes: node_views(nodes@),
                        edges: edge_views(edges@),
                        next: next as nat,
                        truncated,
                    },
                    caps,
                    base,
                ) == done,
                done == advanced(begin, caps, base),
                begin == self.walk(),
                caps == self.caps,
                base == openalex_base(
                    match base_override {
                        Some(b) => Some(b@),
                        None => None,
                    },
                ),
            decreases nodes.len() - next,
        {
            let depth = nodes[next].depth;
            if depth >= caps.depth {
                truncated = true;
                next += 1;
                continue;
            }
            if nodes.len() >= caps.total {
                let end = nodes.len();
                let e = Expansion { caps, nodes, edges, next: end, truncated: true, asked: None };
                return (e, None);
            }
            let id = nodes[next].id.clone();
            match build_openalex_work_url(base_override, id.as_str()) {
                Ok(url) => {
                    let e = Expansion {
                        caps,
                        nodes,
                        edges,
                        next: next + 1,
                        truncated,
                        asked: Some((id.clone(), depth)),
                    };
                    return (e, Some(WorkRequest { work_id: id, url }));
                },
                Err(_) => {
                    truncated = true;
                    next += 1;
                },
            }
        }
        (Expansion { caps, nodes, edges, next, truncated, asked: None }, None)
    }

    /// Takes the record of the Work that was asked for; nothing where it could
    /// not be fetched or read.
    pub fn answer(self, work: Option<&Json>) -> (r: Expansion)
        ensures
            r.caps() == self.caps(),
            r.asked() is None,
            r.walk() == answered(
                self.walk(),
                self.asked(),
                match work {
                    Some(v) => Some(*v),
                    None => None,
                },
                self.caps(),
            ),
    {
        proof {
            use_type_invariant(&self);
        }
        let Expansion { caps, nodes, edges, next, truncated, asked } = self;
        let mut nodes = nodes;
        let mut edges = edges;
        let mut truncated = truncated;
        match asked {
            Some((id, depth)) => match work {
                Some(v) => {
                    let refs = extract_referenced_works(v);
                    enqueue_children(
                        id.as_str(),
                        &refs,
                        depth + 1,
                        &caps,
                        &mut nodes,
                        &mut edges,
                        next,
                        &mut truncated,
                    );
                },
                None => {
                    truncated = true;
                },
            },
            None => {},
        }
        Expansion { caps, nodes, edges, next, truncated, asked: None }
    }

    /// Takes the response to the request that was made: its bytes, or nothing
    /// where it failed. What is not JSON is no record.
    pub fn answer_body(self, body: Option<&[u8]>) -> (r: Expansion)
        ensures
            r.caps() == self.caps(),
            r.asked() is None,
            match body {
                None => r.walk() == answered(self.walk(), self.asked(), None, self.caps()),
                Some(b) => match json_read::json_of(b@) {
                    Err(_) => r.walk() == answered(self.walk(), self.asked(), None, self.caps()),
                    Ok(m) => exists|v: Json|
                        v@ == m && r.walk() == #[trigger] answered(
                            self.walk(),
                            self.asked(),
                            Some(v),
                            self.caps(),
                        ),
                },
            },
    {
        match body {
            None => self.answer(None),
            Some(b) => match json_read::parse_json(b) {
                Ok(v) => self.answer(Some(&v)),
                Err(_) => self.answer(None),
            },
        }
    }

    /// The graph that was found.
    pub fn finish(self) -> (r: GraphResult)
        ensures
            node_views(r.nodes@) == self.walk().nodes,
            edge_views(r.edges@) == self.walk().edges,
            r.truncated == self.walk().truncated,
            r.total_visited == r.nodes@.len(),
            r.nodes@.len() >= 1,
            r.seed_work_id@ == self.walk().nodes[0].0,
    {
        proof {
            use_type_invariant(&self);
        }
        let Expansion { caps: _, nodes, edges, next: _, truncated, asked: _ } = self;
        GraphResult {
            seed_work_id: nodes[0].id.clone(),
            total_visited: nodes.len(),
            nodes,
            edges,
            truncated,
        }
    }
}

fn is_visited(nodes: &Vec<GraphNode>, id: &str) -> (r: bool)
    ensures
        r == visited(node_views(nodes@), id@),
{
    let mut i: usize = 0;
    while i < nodes.len()
        invariant
            i <= nodes.len(),
            forall|j: int| 0 <= j < i ==> (#[trigger] nodes@[j]).id@ != id@,
        decreases nodes.len() - i,
    {
        if text::same(nodes[i].id.as_str(), id) {
            assert(node_views(nodes@)[i as int].0 == id@);
            return true;
        }
        i += 1;
    }
    assert forall|j: int| 0 <= j < nodes@.len() implies (#[trigger] node_views(nodes@)[j]).0
        != id@ by {
        assert(nodes@[j].id@ != id@);
    }
    false
}

/// Adds the references of a Work to the graph.
fn enqueue_children(
    parent: &str,
    refs: &Vec<String>,
    child_depth: usize,
    caps: &GraphCaps,
    nodes: &mut Vec<GraphNode>,
    edges: &mut Vec<GraphEdge>,
    next: usize,
    truncated: &mut bool,
)
    ensures
        final(nodes)@.len() >= old(nodes)@.len(),
        (Walk {
            nodes: node_views(final(nodes)@),
            edges: edge_views(final(edges)@),
            next: next as nat,
            truncated: *final(truncated),
        }) == adopted(
            Walk {
                nodes: node_views(old(nodes)@),
                edges: edge_views(old(edges)@),
                next: next as nat,
                truncated: *old(truncated),
            },
            parent@,
            text::views(refs@),
            child_depth as nat,
            *caps,
        ),
{
    let ghost all = text::views(refs@);
    let ghost done = adopted(
        Walk {
            nodes: node_views(nodes@),
            edges: edge_views(edges@),
            next: next as nat,
            truncated: *truncated,
        },
        parent@,
        all,
        child_depth as nat,
        *caps,
    );
    let mut end: usize = refs.len();
    if refs.len() > caps.per_paper {
        *truncated = true;
        end = caps.per_paper;
    }
    let ghost kids = all.take(end as int);
    proof {
        if all.len() <= caps.per_paper {
            assert(kids =~= all);
        }
        assert(kids.skip(0) =~= kids);
    }
    let mut i: usize = 0;
    while i < end
        invariant
            i <= end <= refs.len(),
            all == text::views(refs@),
            kids == all.take(end as int),
            nodes@.len() >= old(nodes)@.len(),
            done == adopted(
                Walk {
                    nodes: node_views(old(nodes)@),
                    edges: edge_views(old(edges)@),
                    next: next as nat,
                    truncated: *old(truncated),
                },
                parent@,
                all,
                child_depth as nat,
                *caps,
            ),
            with_children(
                Walk {
                    nodes: node_views(nodes@),
                    edges: edge_views(edges@),
                    next: next as nat,
                    truncated: *truncated,
                },
                parent@,
                kids.skip(i as int),
                child_depth as nat,
                caps.total as nat,
            ) == done,
        decreases end - i,
    {
        let child = &refs[i];
        assert(kids.skip(i as int)[0] == child@);
        assert(kids.skip(i as int).drop_first() =~= kids.skip(i + 1));
        let ghost nodes_before = nodes@;
        let ghost edges_before = edges@;
        if is_visited(nodes, child.as_str()) {
            edges.push(GraphEdge { from: parent.to_string(), to: child.clone() });
            assert(edge_views(edges@) =~= edge_views(edges_before).push((parent@, child@)));
        } else {
            if nodes.len() >= caps.total {
                *truncated = true;
                return;
            }
            nodes.push(GraphNode { id: child.clone(), depth: child_depth });
            edges.push(GraphEdge { from: parent.to_string(), to: child.clone() });
            assert(edge_views(edges@) =~= edge_views(edges_before).push((parent@, child@)));
            assert(node_views(nodes@) =~= node_views(nodes_before).push(
                (child@, child_depth as nat),
            ));
        }
        i += 1;
    }
}

// ---------------------------------------------------------------------------
// Laws
// ---------------------------------------------------------------------------

/// Whether a Work stands in the graph at a depth.
pub open spec fn node_at(nodes: Seq<(Seq<char>, nat)>, id: Seq<char>, depth: nat) -> bool {
    exists|i: int| 0 <= i < nodes.len() && #[trigger] nodes[i] == (id, depth)
}

/// The nodes of a graph are those that its citations lead to: the seed comes
/// first; no Work stands in it twice; it keeps to the caps on depth and size,
/// the seed itself apart; nodes come in the order of their depth; a citation
/// joins two of its nodes; and every node but the seed is cited by a node one
/// step nearer.
#[verifier::opaque]
pub open spec fn well_joined(
    nodes: Seq<(Seq<char>, nat)>,
    edges: Seq<(Seq<char>, Seq<char>)>,
    seed: Seq<char>,
    caps: GraphCaps,
) -> bool {
    &&& nodes.len() >= 1
    &&& nodes[0] == (seed, 0nat)
    &&& forall|i: int, j: int|
        0 <= i < j < nodes.len() ==> (#[trigger] nodes[i]).0 != (#[trigger] nodes[j]).0
    &&& nodes.len() <= caps.total || nodes.len() == 1
    &&& forall|i: int| 0 <= i < nodes.len() ==> (#[trigger] nodes[i]).1 <= caps.depth
    &&& forall|i: int, j: int|
        0 <= i < j < nodes.len() ==> (#[trigger] nodes[i]).1 <= (#[trigger] nodes[j]).1
    &&& forall|e: int|
        0 <= e < edges.len() ==> visited(nodes, (#[trigger] edges[e]).0) && visited(
            nodes,
            edges[e].1,
        )
    &&& forall|i: int| 1 <= i < nodes.len() ==> #[trigger] cited(nodes, edges, i)
}

/// Whether a node is cited by a node one step nearer to the seed.
pub open spec fn cited(
    nodes: Seq<(Seq<char>, nat)>,
    edges: Seq<(Seq<char>, Seq<char>)>,
    i: int,
) -> bool {
    nodes[i].1 >= 1 && exists|e: int|
        0 <= e < edges.len() && (#[trigger] edges[e]).1 == nodes[i].0 && node_at(
            nodes,
            edges[e].0,
            (nodes[i].1 - 1) as nat,
        )
}

/// Number of citations that a Work makes.
pub open spec fn citations_from(edges: Seq<(Seq<char>, Seq<char>)>, id: Seq<char>) -> nat
    decreases edges.len(),
{
    if edges.len() == 0 {
        0
    } else {
        citations_from(edges.drop_last(), id) + if edges.last().0 == id {
            1nat
        } else {
            0nat
        }
    }
}

/// No Work cites more others than the cap for one paper allows.
pub open spec fn few_citations(edges: Seq<(Seq<char>, Seq<char>)>, caps: GraphCaps) -> bool {
    forall|id: Seq<char>| #[trigger] citations_from(edges, id) <= caps.per_paper
}

/// What holds of every graph: its nodes are those that its citations lead to,
/// within the caps on depth and size, and no node cites more others than the
/// cap for one paper allows.
pub open spec fn sound_graph(
    nodes: Seq<(Seq<char>, nat)>,
    edges: Seq<(Seq<char>, Seq<char>)>,
    seed: Seq<char>,
    caps: GraphCaps,
) -> bool {
    well_joined(nodes, edges, seed, caps) && few_citations(edges, caps)
}

/// What holds of every walk: its graph is sound.
pub open spec fn sound(w: Walk, seed: Seq<char>, caps: GraphCaps) -> bool {
    sound_graph(w.nodes, w.edges, seed, caps)
}

/// The nodes of a walk are those that its citations lead to.
spec fn joined(w: Walk, seed: Seq<char>, caps: GraphCaps) -> bool {
    well_joined(w.nodes, w.edges, seed, caps)
}

/// Adding the children of a Work adds citations of that Work alone, and no more
/// than it has children.
proof fn lemma_citations(
    w: Walk,
    parent: Seq<char>,
    children: Seq<Seq<char>>,
    depth: nat,
    total: nat,
)
    ensures
        ({
            let v = with_children(w, parent, children, depth, total);
            &&& citations_from(v.edges, parent) <= citations_from(w.edges, parent)
                + children.len()
            &&& forall|id: Seq<char>|
                id != parent ==> #[trigger] citations_from(v.edges, id) == citations_from(
                    w.edges,
                    id,
                )
        }),
    decreases children.len(),
{
    if children.len() > 0 {
        let c = children[0];
        let edges = w.edges.push((parent, c));
        assert(edges.drop_last() =~= w.edges);
        let w1 = Walk { edges, ..w };
        let w2 = Walk { nodes: w.nodes.push((c, depth)), edges, ..w };
        lemma_citations(w1, parent, children.drop_first(), depth, total);
        lemma_citations(w2, parent, children.drop_first(), depth, total);
    }
}

proof fn lemma_no_citations(
    nodes: Seq<(Seq<char>, nat)>,
    edges: Seq<(Seq<char>, Seq<char>)>,
    id: Seq<char>,
)
    requires
        forall|e: int| 0 <= e < edges.len() ==> visited(nodes, (#[trigger] edges[e]).0),
        !visited(nodes, id),
    ensures
        citations_from(edges, id) == 0,
    decreases edges.len(),
{
    if edges.len() > 0 {
        let d = edges.drop_last();
        assert forall|e: int| 0 <= e < d.len() implies visited(nodes, (#[trigger] d[e]).0) by {
            assert(d[e] == edges[e]);
        }
        lemma_no_citations(nodes, d, id);
        assert(visited(nodes, edges[edges.len() - 1].0));
    }
}

/// Adopting the references of a Work that cites nothing yet keeps a walk sound,
/// and the Works that were not looked at still cite nothing.
proof fn lemma_adopted(
    w: Walk,
    seed: Seq<char>,
    caps: GraphCaps,
    parent: Seq<char>,
    refs: Seq<Seq<char>>,
    depth: nat,
)
    requires
        sound(w, seed, caps),
        1 <= depth <= caps.depth,
        1 <= w.next <= w.nodes.len(),
        w.nodes[w.next - 1] == (parent, (depth - 1) as nat),
        within(w, depth),
        citations_from(w.edges, parent) == 0,
        silent(w),
    ensures
        sound(adopted(w, parent, refs, depth, caps), seed, caps),
        grown(w, adopted(w, parent, refs, depth, caps)),
        within(adopted(w, parent, refs, depth, caps), depth),
        adopted(w, parent, refs, depth, caps).next == w.next,
        silent(adopted(w, parent, refs, depth, caps)),
{
    let kids = if refs.len() > caps.per_paper {
        refs.take(caps.per_paper as int)
    } else {
        refs
    };
    let w0 = if refs.len() > caps.per_paper {
        Walk { truncated: true, ..w }
    } else {
        w
    };
    let v = adopted(w, parent, refs, depth, caps);
    assert(node_at(w.nodes, parent, (depth - 1) as nat));
    lemma_with_children(w0, seed, caps, parent, kids, depth);
    lemma_citations(w0, parent, kids, depth, caps.total as nat);
    assert(few_citations(v.edges, caps)) by {
        assert forall|id: Seq<char>| #[trigger] citations_from(v.edges, id) <= caps.per_paper by {
            assert(citations_from(w.edges, id) <= caps.per_paper);
        }
    }
    assert forall|i: int| v.next <= i < v.nodes.len() implies citations_from(
        v.edges,
        (#[trigger] v.nodes[i]).0,
    ) == 0 by {
        reveal(well_joined);
        assert(v.nodes[w.next - 1] == w.nodes[w.next - 1]);
        assert(v.nodes[w.next - 1].0 != v.nodes[i].0);
        if i < w.nodes.len() {
            assert(v.nodes[i] == w.nodes[i]);
        } else {
            assert(!visited(w.nodes, v.nodes[i].0)) by {
                if visited(w.nodes, v.nodes[i].0) {
                    let k = choose|k: int|
                        0 <= k < w.nodes.len() && (#[trigger] w.nodes[k]).0 == v.nodes[i].0;
                    assert(v.nodes[k] == w.nodes[k]);
                }
            }
            lemma_no_citations(w.nodes, w.edges, v.nodes[i].0);
        }
    }
}

/// The Works that were not looked at yet cite nothing.
pub open spec fn silent(w: Walk) -> bool {
    forall|i: int|
        w.next <= i < w.nodes.len() ==> citations_from(w.edges, (#[trigger] w.nodes[i]).0) == 0
}

/// Adding the children of a node one step nearer keeps it joined.
proof fn lemma_with_children(
    w: Walk,
    seed: Seq<char>,
    caps: GraphCaps,
    parent: Seq<char>,
    children: Seq<Seq<char>>,
    depth: nat,
)
    requires
        joined(w, seed, caps),
        1 <= depth <= caps.depth,
        node_at(w.nodes, parent, (depth - 1) as nat),
        within(w, depth),
    ensures
        joined(with_children(w, parent, children, depth, caps.total as nat), seed, caps),
        grown(w, with_children(w, parent, children, depth, caps.total as nat)),
        within(with_children(w, parent, children, depth, caps.total as nat), depth),
        with_children(w, parent, children, depth, caps.total as nat).next == w.next,
    decreases children.len(),
{
    if children.len() > 0 {
        let c = children[0];
        let p = choose|i: int|
            0 <= i < w.nodes.len() && #[trigger] w.nodes[i] == (parent, (depth - 1) as nat);
        assert(w.nodes[p].0 == parent);
        assert(visited(w.nodes, parent));
        if visited(w.nodes, c) {
            let w1 = Walk { edges: w.edges.push((parent, c)), ..w };
            assert(w1.edges.drop_last() =~= w.edges);
            lemma_more_edges(w, w1, seed, caps);
            lemma_with_children(w1, seed, caps, parent, children.drop_first(), depth);
            lemma_grown(w, w1, with_children(w, parent, children, depth, caps.total as nat));
        } else if w.nodes.len() >= caps.total {
        } else {
            let w1 = Walk {
                nodes: w.nodes.push((c, depth)),
                edges: w.edges.push((parent, c)),
                ..w
            };
            lemma_new_node(w, w1, seed, caps, parent, c, depth);
            assert(w1.nodes[p] == (parent, (depth - 1) as nat));
            lemma_with_children(w1, seed, caps, parent, children.drop_first(), depth);
            lemma_grown(w, w1, with_children(w, parent, children, depth, caps.total as nat));
        }
    }
}

/// No node lies deeper.
pub open spec fn within(w: Walk, depth: nat) -> bool {
    forall|i: int| 0 <= i < w.nodes.len() ==> (#[trigger] w.nodes[i]).1 <= depth
}

proof fn lemma_grown(u: Walk, v: Walk, w: Walk)
    requires
        grown(u, v),
        grown(v, w),
    ensures
        grown(u, w),
{
    assert forall|i: int| 0 <= i < u.nodes.len() implies #[trigger] w.nodes[i] == u.nodes[i] by {
        assert(v.nodes[i] == u.nodes[i]);
    }
    assert forall|i: int| 0 <= i < u.edges.len() implies #[trigger] w.edges[i] == u.edges[i] by {
        assert(v.edges[i] == u.edges[i]);
    }
}

/// Nothing that was found is lost.
pub open spec fn grown(w: Walk, v: Walk) -> bool {
    &&& w.nodes.len() <= v.nodes.len()
    &&& forall|i: int| 0 <= i < w.nodes.len() ==> #[trigger] v.nodes[i] == w.nodes[i]
    &&& w.edges.len() <= v.edges.len()
    &&& forall|i: int| 0 <= i < w.edges.len() ==> #[trigger] v.edges[i] == w.edges[i]
    &&& w.truncated ==> v.truncated
}

proof fn lemma_more_edges(w: Walk, v: Walk, seed: Seq<char>, caps: GraphCaps)
    requires
        joined(w, seed, caps),
        v.nodes == w.nodes,
        v.edges.len() == w.edges.len() + 1,
        v.edges.drop_last() == w.edges,
        visited(w.nodes, v.edges.last().0),
        visited(w.nodes, v.edges.last().1),
    ensures
        joined(v, seed, caps),
{
    reveal(well_joined);
    assert forall|e: int| 0 <= e < v.edges.len() implies visited(
        v.nodes,
        (#[trigger] v.edges[e]).0,
    ) && visited(v.nodes, v.edges[e].1) by {
        if e < w.edges.len() {
            assert(v.edges[e] == w.edges[e]);
        }
    }
    assert forall|i: int| 1 <= i < v.nodes.len() implies #[trigger] cited(
        v.nodes,
        v.edges,
        i,
    ) by {
        assert(cited(w.nodes, w.edges, i));
        let e = choose|e: int|
            0 <= e < w.edges.len() && (#[trigger] w.edges[e]).1 == w.nodes[i].0 && node_at(
                w.nodes,
                w.edges[e].0,
                (w.nodes[i].1 - 1) as nat,
            );
        assert(v.edges[e] == w.edges[e]);
    }
}

proof fn lemma_new_node(
    w: Walk,
    v: Walk,
    seed: Seq<char>,
    caps: GraphCaps,
    parent: Seq<char>,
    c: Seq<char>,
    depth: nat,
)
    requires
        joined(w, seed, caps),
        1 <= depth <= caps.depth,
        node_at(w.nodes, parent, (depth - 1) as nat),
        within(w, depth),
        !visited(w.nodes, c),
        w.nodes.len() < caps.total,
        v.nodes == w.nodes.push((c, depth)),
        v.edges == w.edges.push((parent, c)),
    ensures
        joined(v, seed, caps),
{
    reveal(well_joined);
    let n = w.nodes.len() as int;
    assert forall|id: Seq<char>| visited(w.nodes, id) implies visited(v.nodes, id) by {
        let k = choose|k: int| 0 <= k < w.nodes.len() && (#[trigger] w.nodes[k]).0 == id;
        assert(v.nodes[k].0 == id);
    }
    assert forall|id: Seq<char>, d: nat| node_at(w.nodes, id, d) implies #[trigger] node_at(
        v.nodes,
        id,
        d,
    ) by {
        let k = choose|k: int| 0 <= k < w.nodes.len() && #[trigger] w.nodes[k] == (id, d);
        assert(v.nodes[k] == (id, d));
    }
    let p = choose|i: int|
        0 <= i < w.nodes.len() && #[trigger] w.nodes[i] == (parent, (depth - 1) as nat);
    assert(w.nodes[p].0 == parent);
    assert(visited(w.nodes, parent));
    assert(v.nodes[n].0 == c);
    assert(visited(v.nodes, c));
    assert forall|i: int, j: int| 0 <= i < j < v.nodes.len() implies (#[trigger] v.nodes[i]).0 != (
    #[trigger] v.nodes[j]).0 by {
        assert(v.nodes[i] == w.nodes[i]);
        if j < n {
            assert(v.nodes[j] == w.nodes[j]);
        }
    }
    assert forall|i: int, j: int| 0 <= i < j < v.nodes.len() implies (#[trigger] v.nodes[i]).1 <= (
    #[trigger] v.nodes[j]).1 by {
        assert(v.nodes[i] == w.nodes[i]);
        if j < n {
            assert(v.nodes[j] == w.nodes[j]);
        }
    }
    assert forall|e: int| 0 <= e < v.edges.len() implies visited(
        v.nodes,
        (#[trigger] v.edges[e]).0,
    ) && visited(v.nodes, v.edges[e].1) by {
        if e < w.edges.len() {
            assert(v.edges[e] == w.edges[e]);
        }
    }
    assert forall|i: int| 1 <= i < v.nodes.len() implies #[trigger] cited(
        v.nodes,
        v.edges,
        i,
    ) by {
        if i < n {
            assert(v.nodes[i] == w.nodes[i]);
            assert(cited(w.nodes, w.edges, i));
            let e = choose|e: int|
                0 <= e < w.edges.len() && (#[trigger] w.edges[e]).1 == w.nodes[i].0 && node_at(
                    w.nodes,
                    w.edges[e].0,
                    (w.nodes[i].1 - 1) as nat,
                );
            assert(v.edges[e] == w.edges[e]);
        } else {
            let e = w.edges.len() as int;
            assert(v.edges[e] == (parent, c));
            assert(node_at(v.nodes, parent, (depth - 1) as nat));
        }
    }
}

/// Whatever the seed refers to and whatever the caps, a walk starts sound.
pub proof fn law_walks_start_sound(seed: Seq<char>, refs: Seq<Seq<char>>, caps: GraphCaps)
    ensures
        under_way(begun(seed, refs, caps), seed, caps),
{
    let w = Walk {
        nodes: seq![(seed, 0nat)],
        edges: Seq::<(Seq<char>, Seq<char>)>::empty(),
        next: 1,
        truncated: false,
    };
    assert(w.nodes[0] == (seed, 0nat));
    assert(sound(w, seed, caps)) by {
        reveal(well_joined);
    }
    if caps.depth > 0 {
        lemma_adopted(w, seed, caps, seed, refs, 1);
        assert(begun(seed, refs, caps).nodes[0] == (seed, 0nat));
    }
}

/// Going on to the next request changes nothing of the graph, and what is
/// asked for is a node of it that lies below the greatest depth.
pub proof fn law_requests_are_for_nodes(w: Walk, caps: GraphCaps, base: Seq<char>)
    ensures
        advanced(w, caps, base).0.nodes == w.nodes,
        advanced(w, caps, base).0.edges == w.edges,
        w.truncated ==> advanced(w, caps, base).0.truncated,
        advanced(w, caps, base).1 matches Some((id, depth)) ==> depth < caps.depth && w.next
            < advanced(w, caps, base).0.next <= w.nodes.len() && w.nodes[advanced(
            w,
            caps,
            base,
        ).0.next - 1] == (id, depth) && w.nodes.len() < caps.total,
    decreases w.nodes.len() - w.next,
{
    if w.next < w.nodes.len() {
        law_requests_are_for_nodes(
            Walk { next: w.next + 1, truncated: true, ..w },
            caps,
            base,
        );
    }
}

/// Whether a walk may be at this point: sound, every node that was found so far
/// is at most one step further than the node that was looked at last, and those
/// that were not looked at cite nothing yet.
pub open spec fn under_way(w: Walk, seed: Seq<char>, caps: GraphCaps) -> bool {
    &&& sound(w, seed, caps)
    &&& silent(w)
    &&& 1 <= w.next <= w.nodes.len()
    &&& within(w, w.nodes[w.next - 1].1 + 1)
}

/// A walk that is sound stays so with every request and answer, whatever the
/// answers hold: the caps on depth, size and citations of one paper are kept, no
/// Work is visited twice, and nothing that was found is lost.
pub proof fn law_walks_stay_sound(
    w: Walk,
    seed: Seq<char>,
    caps: GraphCaps,
    base: Seq<char>,
    work: Option<Json>,
)
    requires
        under_way(w, seed, caps),
    ensures
        ({
            let (v, asked) = advanced(w, caps, base);
            let u = answered(v, asked, work, caps);
            under_way(v, seed, caps) && under_way(u, seed, caps) && grown(w, u)
        }),
{
    let (v, asked) = advanced(w, caps, base);
    law_requests_are_for_nodes(w, caps, base);
    lemma_advanced_next(w, caps, base);
    let u = answered(v, asked, work, caps);
    assert(under_way(v, seed, caps)) by {
        reveal(well_joined);
        assert(w.nodes[w.next - 1].1 <= w.nodes[v.next - 1].1);
    }
    match asked {
        Some((id, depth)) => match work {
            Some(r) => {
                assert(v.nodes[v.next - 1] == (id, depth));
                assert(w.nodes[v.next - 1] == (id, depth));
                lemma_adopted(v, seed, caps, id, references(r), depth + 1);
                assert(u.nodes[u.next - 1] == v.nodes[v.next - 1]);
            },
            None => {},
        },
        None => {},
    }
}

proof fn lemma_advanced_next(w: Walk, caps: GraphCaps, base: Seq<char>)
    requires
        w.next <= w.nodes.len(),
    ensures
        w.next <= advanced(w, caps, base).0.next <= w.nodes.len(),
    decreases w.nodes.len() - w.next,
{
    if w.next < w.nodes.len() {
        lemma_advanced_next(Walk { next: w.next + 1, truncated: true, ..w }, caps, base);
    }
}

/// Whether a citation is in the graph.
pub open spec fn cites(w: Walk, parent: Seq<char>, child: Seq<char>) -> bool {
    exists|e: int| 0 <= e < w.edges.len() && #[trigger] w.edges[e] == (parent, child)
}

proof fn lemma_untruncated(
    w: Walk,
    parent: Seq<char>,
    children: Seq<Seq<char>>,
    depth: nat,
    total: nat,
)
    requires
        !with_children(w, parent, children, depth, total).truncated,
    ensures
        !w.truncated,
        forall|i: int|
            0 <= i < children.len() ==> cites(
                with_children(w, parent, children, depth, total),
                parent,
                #[trigger] children[i],
            ),
        forall|c: Seq<char>|
            cites(w, parent, c) ==> #[trigger] cites(
                with_children(w, parent, children, depth, total),
                parent,
                c,
            ),
    decreases children.len(),
{
    if children.len() > 0 {
        let c = children[0];
        let v = with_children(w, parent, children, depth, total);
        let w1 = if visited(w.nodes, c) {
            Walk { edges: w.edges.push((parent, c)), ..w }
        } else {
            Walk { nodes: w.nodes.push((c, depth)), edges: w.edges.push((parent, c)), ..w }
        };
        let rest = children.drop_first();
        assert(v == with_children(w1, parent, rest, depth, total));
        lemma_untruncated(w1, parent, rest, depth, total);
        assert(w1.edges[w.edges.len() as int] == (parent, c));
        assert(cites(w1, parent, c));
        assert forall|d: Seq<char>| cites(w, parent, d) implies #[trigger] cites(
            v,
            parent,
            d,
        ) by {
            let e = choose|e: int| 0 <= e < w.edges.len() && #[trigger] w.edges[e] == (parent, d);
            assert(w1.edges[e] == (parent, d));
            assert(cites(w1, parent, d));
            assert(cites(with_children(w1, parent, rest, depth, total), parent, d));
        }
        assert forall|i: int| 0 <= i < children.len() implies cites(
            v,
            parent,
            #[trigger] children[i],
        ) by {
            if i > 0 {
                assert(children[i] == rest[i - 1]);
            } else {
                assert(cites(with_children(w1, parent, rest, depth, total), parent, c));
            }
        }
    }
}

/// A walk that is not marked as cut short has dropped nothing: every reference
/// that a record gave is a citation of the graph.
pub proof fn law_nothing_is_dropped_unmarked(
    w: Walk,
    parent: Seq<char>,
    refs: Seq<Seq<char>>,
    depth: nat,
    caps: GraphCaps,
)
    requires
        !adopted(w, parent, refs, depth, caps).truncated,
    ensures
        forall|i: int|
            0 <= i < refs.len() ==> cites(
                adopted(w, parent, refs, depth, caps),
                parent,
                #[trigger] refs[i],
            ),
{
    if refs.len() > caps.per_paper {
        lemma_untruncated(
            Walk { truncated: true, ..w },
            parent,
            refs.take(caps.per_paper as int),
            depth,
            caps.total as nat,
        );
    } else {
        lemma_untruncated(w, parent, refs, depth, caps.total as nat);
    }
}

/// No caps that a caller asks for go beyond the hard caps, and what lies
/// within them is left as it is.
pub proof fn law_hard_caps_hold(caps: GraphCaps)
    ensures
        caps.spec_clamped().depth <= GraphCaps::MAX_DEPTH,
        caps.spec_clamped().total <= GraphCaps::MAX_TOTAL,
        caps.spec_clamped().per_paper <= GraphCaps::MAX_PER_PAPER,
        caps.spec_clamped().depth <= caps.depth,
        caps.spec_clamped().total <= caps.total,
        caps.spec_clamped().per_paper <= caps.per_paper,
        caps.spec_clamped().spec_clamped() == caps.spec_clamped(),
{
}

/// No caps go beyond three steps, a hundred nodes and twenty children, and caps
/// within these are left as they are.
pub proof fn law_caps_are_lowered_to_the_hard_ones(caps: GraphCaps)
    ensures
        caps.spec_clamped().depth == if caps.depth <= 3 {
            caps.depth
        } else {
            3
        },
        caps.spec_clamped().total == if caps.total <= 100 {
            caps.total
        } else {
            100
        },
        caps.spec_clamped().per_paper == if caps.per_paper <= 20 {
            caps.per_paper
        } else {
            20
        },
{
}

/// The Work has an address: the base is a URL, and `/works/` with the id resolves
/// against it.
pub open spec fn has_address(base: Seq<char>, id: Seq<char>) -> bool {
    urls::url_of(base) matches Ok(b) && urls::url_joined(b, "/works/"@ + id) is Ok
}

/// A Work is asked for at `/works/` and its id below the base, which is the
/// given one or the public host.
pub proof fn law_works_are_asked_for_below_the_base(
    base: Seq<char>,
    id: Seq<char>,
    given: Option<Seq<char>>,
)
    ensures
        has_address(base, id) <==> work_url(base, id) is Ok,
        urls::url_of(base) matches Ok(b) ==> (urls::url_joined(b, "/works/"@ + id) matches Ok(u)
            ==> work_url(base, id) == Ok::<urls::UrlModel, Seq<char>>(u)),
        given matches Some(b) ==> openalex_base(given) == b,
        given is None ==> openalex_base(given) == "https://api.openalex.org"@,
{
}

/// Going on to the next request passes over a node only where that lies at the
/// greatest depth or beyond, has no address, or the graph is full, and marks the
/// walk for it; it marks the walk for nothing else. Where nothing is requested
/// the walk is at its end.
pub proof fn law_only_what_cannot_be_asked_is_passed_over(w: Walk, caps: GraphCaps, base: Seq<char>)
    requires
        w.next <= w.nodes.len(),
    ensures
        ({
            let (v, asked) = advanced(w, caps, base);
            let end = if asked is Some {
                v.next - 1
            } else {
                v.next as int
            };
            &&& asked is None ==> v.next == w.nodes.len()
            &&& asked is Some ==> asked == Some(w.nodes[end]) && w.nodes[end].1 < caps.depth
                && has_address(base, w.nodes[end].0) && w.nodes.len() < caps.total
            &&& w.next <= end <= w.nodes.len()
            &&& forall|i: int|
                w.next <= i < end ==> (#[trigger] w.nodes[i]).1 >= caps.depth || w.nodes.len()
                    >= caps.total || !has_address(base, w.nodes[i].0)
            &&& v.truncated == (w.truncated || w.next < end)
        }),
    decreases w.nodes.len() - w.next,
{
    if w.next < w.nodes.len() {
        law_only_what_cannot_be_asked_is_passed_over(
            Walk { next: w.next + 1, truncated: true, ..w },
            caps,
            base,
        );
    }
}

/// A walk that is not marked looks into every node in turn: the next request is
/// for the next node, and there is none only where every node was looked into.
pub proof fn law_unmarked_walks_look_into_every_node(w: Walk, caps: GraphCaps, base: Seq<char>)
    requires
        w.next <= w.nodes.len(),
        !advanced(w, caps, base).0.truncated,
    ensures
        advanced(w, caps, base).1 is None ==> w.next == w.nodes.len(),
        advanced(w, caps, base).1 is Some ==> advanced(w, caps, base).0.next == w.next + 1
            && advanced(w, caps, base).1 == Some(w.nodes[w.next as int]),
{
    law_only_what_cannot_be_asked_is_passed_over(w, caps, base);
}

/// Whether a walk took up the first `n` references of a Work: each is cited, in
/// their order, and those at the given positions, which are in order too, are
/// the new nodes, one step further; no other reference was new.
pub open spec fn takes_up(
    w: Walk,
    v: Walk,
    parent: Seq<char>,
    refs: Seq<Seq<char>>,
    depth: nat,
    n: int,
    fresh: Seq<int>,
) -> bool {
    &&& 0 <= n <= refs.len()
    &&& v.next == w.next
    &&& v.edges == w.edges + Seq::new(n as nat, |i: int| (parent, refs[i]))
    &&& v.nodes == w.nodes + Seq::new(fresh.len(), |i: int| (refs[fresh[i]], depth))
    &&& forall|i: int|
        0 <= i < fresh.len() ==> 0 <= #[trigger] fresh[i] < n && !visited(w.nodes, refs[fresh[i]])
    &&& forall|i: int, j: int|
        0 <= i < j < fresh.len() ==> #[trigger] fresh[i] < #[trigger] fresh[j] && refs[fresh[i]]
            != refs[fresh[j]]
    &&& forall|k: int| 0 <= k < n ==> visited(v.nodes, #[trigger] refs[k])
}

proof fn lemma_takes_up(
    w: Walk,
    parent: Seq<char>,
    refs: Seq<Seq<char>>,
    depth: nat,
    total: nat,
) -> (r: (int, Seq<int>))
    ensures
        ({
            let v = with_children(w, parent, refs, depth, total);
            &&& takes_up(w, v, parent, refs, depth, r.0, r.1)
            &&& v.truncated == (w.truncated || r.0 < refs.len())
            &&& r.0 < refs.len() ==> v.nodes.len() >= total && !visited(v.nodes, refs[r.0])
        }),
    decreases refs.len(),
{
    let v = with_children(w, parent, refs, depth, total);
    if refs.len() == 0 {
        assert(v.edges =~= w.edges + Seq::new(0nat, |i: int| (parent, refs[i])));
        let none = Seq::<int>::empty();
        assert(v.nodes =~= w.nodes + Seq::new(none.len(), |i: int| (refs[none[i]], depth)));
        (0, none)
    } else {
        let c = refs[0];
        let rest = refs.drop_first();
        if visited(w.nodes, c) {
            let w1 = Walk { edges: w.edges.push((parent, c)), ..w };
            let (m, old) = lemma_takes_up(w1, parent, rest, depth, total);
            let n = m + 1;
            let fresh = Seq::new(old.len(), |i: int| old[i] + 1);
            assert(v.edges =~= w.edges + Seq::new(n as nat, |i: int| (parent, refs[i])));
            assert(v.nodes =~= w.nodes + Seq::new(fresh.len(), |i: int| (refs[fresh[i]], depth)));
            lemma_shifted(w1, v, refs, rest, m, old, fresh);
            assert(visited(v.nodes, c)) by {
                let k = choose|k: int| 0 <= k < w.nodes.len() && (#[trigger] w.nodes[k]).0 == c;
                assert(v.nodes[k].0 == c);
            }
            assert forall|k: int| 0 <= k < n implies visited(v.nodes, #[trigger] refs[k]) by {
                if k > 0 {
                    assert(refs[k] == rest[k - 1]);
                }
            }
            assert(n < refs.len() ==> refs[n] == rest[m]);
            (n, fresh)
        } else if w.nodes.len() >= total {
            assert(v.edges =~= w.edges + Seq::new(0nat, |i: int| (parent, refs[i])));
            let none = Seq::<int>::empty();
            assert(v.nodes =~= w.nodes + Seq::new(none.len(), |i: int| (refs[none[i]], depth)));
            (0, none)
        } else {
            let w1 = Walk {
                nodes: w.nodes.push((c, depth)),
                edges: w.edges.push((parent, c)),
                ..w
            };
            let (m, old) = lemma_takes_up(w1, parent, rest, depth, total);
            let n = m + 1;
            let later = Seq::new(old.len(), |i: int| old[i] + 1);
            let fresh = seq![0int] + later;
            assert(v.edges =~= w.edges + Seq::new(n as nat, |i: int| (parent, refs[i])));
            assert(v.nodes =~= w.nodes + Seq::new(fresh.len(), |i: int| (refs[fresh[i]], depth)));
            lemma_shifted(w1, v, refs, rest, m, old, later);
            assert(v.nodes[w.nodes.len() as int].0 == c);
            assert(visited(v.nodes, c));
            assert(w1.nodes[w.nodes.len() as int].0 == c);
            assert(visited(w1.nodes, c));
            assert forall|id: Seq<char>| visited(w.nodes, id) implies visited(w1.nodes, id) by {
                let k = choose|k: int| 0 <= k < w.nodes.len() && (#[trigger] w.nodes[k]).0 == id;
                assert(w1.nodes[k].0 == id);
            }
            assert forall|i: int| 0 <= i < fresh.len() implies 0 <= #[trigger] fresh[i] < n
                && !visited(w.nodes, refs[fresh[i]]) by {
                if i > 0 {
                    assert(fresh[i] == later[i - 1]);
                }
            }
            assert forall|i: int, j: int| 0 <= i < j < fresh.len() implies #[trigger] fresh[i]
                < #[trigger] fresh[j] && refs[fresh[i]] != refs[fresh[j]] by {
                assert(fresh[j] == later[j - 1]);
                if i > 0 {
                    assert(fresh[i] == later[i - 1]);
                } else {
                    assert(!visited(w1.nodes, refs[later[j - 1]]));
                }
            }
            assert forall|k: int| 0 <= k < n implies visited(v.nodes, #[trigger] refs[k]) by {
                if k > 0 {
                    assert(refs[k] == rest[k - 1]);
                }
            }
            assert(n < refs.len() ==> refs[n] == rest[m]);
            (n, fresh)
        }
    }
}

proof fn lemma_shifted(
    w1: Walk,
    v: Walk,
    refs: Seq<Seq<char>>,
    rest: Seq<Seq<char>>,
    m: int,
    old: Seq<int>,
    later: Seq<int>,
)
    requires
        refs.len() > 0,
        rest == refs.drop_first(),
        0 <= m <= rest.len(),
        later == Seq::new(old.len(), |i: int| old[i] + 1),
        forall|i: int|
            0 <= i < old.len() ==> 0 <= #[trigger] old[i] < m && !visited(w1.nodes, rest[old[i]]),
        forall|i: int, j: int|
            0 <= i < j < old.len() ==> #[trigger] old[i] < #[trigger] old[j] && rest[old[i]]
                != rest[old[j]],
    ensures
        forall|i: int|
            0 <= i < later.len() ==> 1 <= #[trigger] later[i] < m + 1 && !visited(
                w1.nodes,
                refs[later[i]],
            ),
        forall|i: int, j: int|
            0 <= i < j < later.len() ==> #[trigger] later[i] < #[trigger] later[j]
                && refs[later[i]] != refs[later[j]],
{
    assert forall|i: int| 0 <= i < later.len() implies 1 <= #[trigger] later[i] < m + 1
        && !visited(w1.nodes, refs[later[i]]) by {
        assert(rest[old[i]] == refs[later[i]]);
    }
    assert forall|i: int, j: int| 0 <= i < j < later.len() implies #[trigger] later[i]
        < #[trigger] later[j] && refs[later[i]] != refs[later[j]] by {
        assert(old[i] < old[j]);
        assert(rest[old[i]] == refs[later[i]] && rest[old[j]] == refs[later[j]]);
    }
}

/// The references of a Work are taken up in their order, up to the cap for one
/// paper: each is cited, and each that was no node is one now, one step further.
/// It ends early only where the graph is full and the next reference would be
/// new. The walk is marked exactly where a reference was left out.
pub proof fn law_references_are_taken_up_in_order(
    w: Walk,
    parent: Seq<char>,
    refs: Seq<Seq<char>>,
    depth: nat,
    caps: GraphCaps,
) -> (r: (int, Seq<int>))
    ensures
        ({
            let v = adopted(w, parent, refs, depth, caps);
            let (n, fresh) = r;
            &&& takes_up(w, v, parent, refs, depth, n, fresh)
            &&& n <= caps.per_paper
            &&& v.truncated == (w.truncated || n < refs.len())
            &&& n < refs.len() && n < caps.per_paper ==> v.nodes.len() >= caps.total && !visited(
                v.nodes,
                refs[n],
            )
        }),
{
    if refs.len() > caps.per_paper {
        let kids = refs.take(caps.per_paper as int);
        let w0 = Walk { truncated: true, ..w };
        let v = adopted(w, parent, refs, depth, caps);
        let (n, fresh) = lemma_takes_up(w0, parent, kids, depth, caps.total as nat);
        assert(v.edges =~= w.edges + Seq::new(n as nat, |i: int| (parent, refs[i])));
        assert(v.nodes =~= w.nodes + Seq::new(fresh.len(), |i: int| (refs[fresh[i]], depth)));
        assert forall|i: int| 0 <= i < fresh.len() implies 0 <= #[trigger] fresh[i] < n && !visited(
            w.nodes,
            refs[fresh[i]],
        ) by {
            assert(kids[fresh[i]] == refs[fresh[i]]);
        }
        assert forall|i: int, j: int| 0 <= i < j < fresh.len() implies #[trigger] fresh[i]
            < #[trigger] fresh[j] && refs[fresh[i]] != refs[fresh[j]] by {
            assert(kids[fresh[i]] == refs[fresh[i]] && kids[fresh[j]] == refs[fresh[j]]);
        }
        assert forall|k: int| 0 <= k < n implies visited(v.nodes, #[trigger] refs[k]) by {
            assert(kids[k] == refs[k]);
        }
        if n < kids.len() {
            assert(kids[n] == refs[n]);
        }
        (n, fresh)
    } else {
        lemma_takes_up(w, parent, refs, depth, caps.total as nat)
    }
}

/// A walk begins with the seed alone, whose references are taken up one step
/// from it. Caps that allow no step leave them out, and mark the walk where
/// there are any.
pub proof fn law_walks_begin_at_the_seed(
    seed: Seq<char>,
    refs: Seq<Seq<char>>,
    caps: GraphCaps,
) -> (r: (int, Seq<int>))
    ensures
        ({
            let w = Walk {
                nodes: seq![(seed, 0nat)],
                edges: Seq::empty(),
                next: 1,
                truncated: false,
            };
            let v = begun(seed, refs, caps);
            let (n, fresh) = r;
            &&& takes_up(w, v, seed, refs, 1, n, fresh)
            &&& v.truncated == (n < refs.len())
            &&& caps.depth == 0 ==> n == 0
            &&& caps.depth > 0 && n < refs.len() && n < caps.per_paper ==> v.nodes.len()
                >= caps.total
            &&& n <= caps.per_paper
        }),
{
    let w = Walk {
        nodes: seq![(seed, 0nat)],
        edges: Seq::<(Seq<char>, Seq<char>)>::empty(),
        next: 1,
        truncated: false,
    };
    if caps.depth == 0 {
        let none = Seq::<int>::empty();
        assert(w.edges =~= w.edges + Seq::new(0nat, |i: int| (seed, refs[i])));
        assert(w.nodes =~= w.nodes + Seq::new(none.len(), |i: int| (refs[none[i]], 1nat)));
        (0, none)
    } else {
        law_references_are_taken_up_in_order(w, seed, refs, 1, caps)
    }
}

/// A record adds what it refers to, one step further than its Work; a Work
/// without a record adds nothing and marks the walk.
pub proof fn law_answers_add_their_references(
    w: Walk,
    id: Seq<char>,
    depth: nat,
    work: Json,
    caps: GraphCaps,
) -> (r: (int, Seq<int>))
    ensures
        ({
            let v = answered(w, Some((id, depth)), Some(work), caps);
            &&& takes_up(w, v, id, references(work), depth + 1, r.0, r.1)
            &&& v.truncated == (w.truncated || r.0 < references(work).len())
            &&& r.0 < references(work).len() && r.0 < caps.per_paper ==> v.nodes.len()
                >= caps.total
        }),
        answered(w, Some((id, depth)), None, caps) == (Walk { truncated: true, ..w }),
        answered(w, None, Some(work), caps) == w,
        answered(w, None, None, caps) == w,
{
    law_references_are_taken_up_in_order(w, id, references(work), depth + 1, caps)
}

proof fn lemma_short_ids(a: Seq<Json>, b: Seq<Json>)
    ensures
        short_ids(a + b) == short_ids(a) + short_ids(b),
    decreases b.len(),
{
    if b.len() == 0 {
        assert(a + b =~= a);
        assert(short_ids(a) + short_ids(b) =~= short_ids(a));
    } else {
        lemma_short_ids(a, b.drop_last());
        assert((a + b).drop_last() =~= a + b.drop_last());
        assert((a + b).last() == b.last());
        assert(short_ids(a + b) =~= short_ids(a) + short_ids(b));
    }
}

/// The references of a record are its texts, none left out: those of two lists
/// one behind the other are those of the first and those of the second, and a
/// text gives what stands behind its last slash.
pub proof fn law_references_are_all_read(a: Seq<Json>, b: Seq<Json>, item: Json, work: Json)
    ensures
        short_ids(a + b) == short_ids(a) + short_ids(b),
        item matches Json::Text(t) ==> short_ids(seq![item]) == seq![text::after_last(t@, '/')],
        !(item is Text) ==> short_ids(seq![item]) == Seq::<Seq<char>>::empty(),
        (forall|i: int| 0 <= i < a.len() ==> #[trigger] a[i] is Text) ==> short_ids(a).len()
            == a.len() && forall|i: int|
            0 <= i < a.len() ==> #[trigger] short_ids(a)[i] == text::after_last(a[i]->Text_0@, '/'),
        work.member("referenced_works"@) matches Some(Json::Array(items)) ==> references(work)
            == short_ids(items@),
        work.member("referenced_works"@) is None ==> references(work).len() == 0,
        work.member("id"@) matches Some(Json::Text(t)) ==> work_id(work) == Some(
            text::after_last(t@, '/'),
        ),
        !(work.member("id"@) matches Some(Json::Text(_))) ==> work_id(work) is None,
    decreases a.len(),
{
    lemma_short_ids(a, b);
    let one = seq![item];
    assert(one.drop_last() =~= Seq::<Json>::empty());
    assert(one.last() == item);
    assert(short_ids(Seq::<Json>::empty()) =~= Seq::<Seq<char>>::empty());
    assert(short_ids(one) =~= match item {
        Json::Text(t) => seq![text::after_last(t@, '/')],
        _ => Seq::<Seq<char>>::empty(),
    });
    if a.len() > 0 {
        law_references_are_all_read(a.drop_last(), b, item, work);
        if forall|i: int| 0 <= i < a.len() ==> #[trigger] a[i] is Text {
            assert forall|i: int| 0 <= i < a.drop_last().len() implies #[trigger] a.drop_last()[i] is Text by {
                assert(a[i] is Text);
            }
            assert(a[a.len() - 1] is Text);
            assert forall|i: int| 0 <= i < a.len() implies #[trigger] short_ids(a)[i]
                == text::after_last(a[i]->Text_0@, '/') by {
                if i < a.len() - 1 {
                    assert(short_ids(a)[i] == short_ids(a.drop_last())[i]);
                    assert(a.drop_last()[i] == a[i]);
                }
            }
        }
    }
}

/// A graph is shown in full: every node with its depth and every citation with
/// both its ends, in order, and whether anything was left out.
pub proof fn law_graphs_are_shown_in_full(g: GraphResult)
    ensures
        graph_json(g) matches JsonModel::Object(m) && {
            &&& m.len() == 5
            &&& m[0] == ("seed_work_id"@, JsonModel::Text(g.seed_work_id@))
            &&& m[1].0 == "nodes"@ && (m[1].1 matches JsonModel::Array(v) && v.len()
                == g.nodes@.len() && forall|i: int|
                0 <= i < v.len() ==> #[trigger] v[i] == JsonModel::Object(
                    seq![
                        ("id"@, JsonModel::Text(g.nodes@[i].id@)),
                        (
                            "depth"@,
                            JsonModel::Number(JsonNumber::Unsigned(g.nodes@[i].depth as u64)),
                        ),
                    ],
                ))
            &&& m[2].0 == "edges"@ && (m[2].1 matches JsonModel::Array(v) && v.len()
                == g.edges@.len() && forall|i: int|
                0 <= i < v.len() ==> #[trigger] v[i] == JsonModel::Object(
                    seq![
                        ("from"@, JsonModel::Text(g.edges@[i].from@)),
                        ("to"@, JsonModel::Text(g.edges@[i].to@)),
                    ],
                ))
            &&& m[3] == ("truncated"@, JsonModel::Bool(g.truncated))
            &&& m[4] == (
                "total_visited"@,
                JsonModel::Number(JsonNumber::Unsigned(g.total_visited as u64)),
            )
        },
{
}

/// What is said of a failed walk tells its cause.
pub proof fn law_failed_walks_tell_their_cause(e: GraphError, cause: Seq<char>)
    ensures
        e is Source ==> e.spec_message(cause) == "openalex source error: "@ + cause,
        e matches GraphError::Log { message } ==> e.spec_message(cause)
            == "provenance log error during graph expansion: "@ + message@,
{
}

} // verus!

use doiget_core::citation_graph::{
    build_openalex_work_url, extract_referenced_works, extract_work_id, Expansion, GraphCaps,
    GraphError, GraphResult,
};
use doiget_core::json::{Json, JsonNumber};
use doiget_core::json_read::parse_json;

fn work(id: &str, refs: &[&str]) -> Vec<u8> {
    let refs: Vec<String> = refs
        .iter()
        .map(|r| format!("\"https://openalex.org/{r}\""))
        .collect();
    format!(
        r#"{{"id":"https://openalex.org/{id}","referenced_works":[{}]}}"#,
        refs.join(",")
    )
    .into_bytes()
}

fn seed(refs: &[&str]) -> Json {
    parse_json(&work("W0001", refs)).expect("JSON")
}

fn expand(
    record: &Json,
    caps: GraphCaps,
    mut answer: impl FnMut(&str) -> Option<Vec<u8>>,
) -> (GraphResult, Vec<String>) {
    let mut e = match Expansion::start(Some(record), caps) {
        Ok(e) => e,
        Err(e) => panic!("{}", e.message("")),
    };
    let mut asked = Vec::new();
    loop {
        let (next, request) = e.next_request(None);
        e = next;
        match request {
            Some(r) => {
                assert_eq!(r.url.href(), format!("https://api.openalex.org/works/{}", r.work_id));
                let body = answer(&r.work_id);
                asked.push(r.work_id);
                e = e.answer_body(body.as_deref());
            }
            None => break,
        }
    }
    (e.finish(), asked)
}

#[test]
fn caps_clamps_to_adr_0010_maxima() {
    let huge = GraphCaps {
        depth: 99,
        total: 99999,
        per_paper: 999,
    };
    let c = huge.clamped();
    assert_eq!(c.depth, GraphCaps::MAX_DEPTH);
    assert_eq!(c.total, GraphCaps::MAX_TOTAL);
    assert_eq!(c.per_paper, GraphCaps::MAX_PER_PAPER);

    let small = GraphCaps {
        depth: 1,
        total: 5,
        per_paper: 2,
    };
    let c2 = small.clamped();
    assert_eq!(c2.depth, 1);
    assert_eq!(c2.total, 5);
    assert_eq!(c2.per_paper, 2);
}

#[test]
fn expand_walks_depth_2_graph() {
    let (result, asked) = expand(&seed(&["W0002", "W0003"]), GraphCaps::default(), |id| {
        Some(match id {
            "W0002" => work("W0002", &["W0004"]),
            other => work(other, &[]),
        })
    });
    assert_eq!(result.seed_work_id, "W0001");
    assert_eq!(result.total_visited, 4, "nodes: {:?}", result.nodes);
    assert_eq!(result.nodes[0].id, "W0001");
    assert_eq!(result.nodes[0].depth, 0);
    assert_eq!(result.edges.len(), 3);
    assert!(!result.truncated, "graph should be complete");
    assert_eq!(asked[..2], ["W0002", "W0003"]);
}

#[test]
fn expand_without_capability_flag_errors() {
    assert!(matches!(
        Expansion::check_enabled(false),
        Err(GraphError::CapabilityDenied)
    ));
    assert!(Expansion::check_enabled(true).is_ok());
}

#[test]
fn a_seed_without_a_record_is_not_indexed() {
    assert!(matches!(
        Expansion::start(None, GraphCaps::default()),
        Err(GraphError::SeedNotIndexed)
    ));
    assert!(matches!(
        Expansion::start(Some(&Json::Null), GraphCaps::default()),
        Err(GraphError::SeedNotIndexed)
    ));
}

#[test]
fn depth_zero_is_the_seed_alone() {
    let caps = GraphCaps { depth: 0, ..GraphCaps::default() };
    let (result, asked) = expand(&seed(&["W0002"]), caps, |_| None);
    assert!(asked.is_empty());
    assert_eq!(result.nodes.len(), 1);
    assert!(result.edges.is_empty());
    assert!(result.truncated);
}

#[test]
fn the_caps_mark_what_they_drop() {
    let caps = GraphCaps { depth: 1, total: 100, per_paper: 1 };
    let (result, _) = expand(&seed(&["W0002", "W0003"]), caps, |id| Some(work(id, &[])));
    assert_eq!(result.nodes.len(), 2);
    assert!(result.truncated);
    let caps = GraphCaps { depth: 3, total: 2, per_paper: 20 };
    let (result, _) = expand(&seed(&["W0002", "W0003"]), caps, |id| Some(work(id, &[])));
    assert_eq!(result.nodes.len(), 2);
    assert!(result.truncated);
}

#[test]
fn a_missing_hop_marks_the_graph_and_goes_on() {
    let (result, asked) = expand(&seed(&["W0002", "W0003"]), GraphCaps::default(), |id| {
        if id == "W0002" {
            None
        } else {
            Some(work(id, &[]))
        }
    });
    assert_eq!(asked, vec!["W0002", "W0003"]);
    assert_eq!(result.nodes.len(), 3);
    assert!(result.truncated);
    let (broken, _) = expand(&seed(&["W0002"]), GraphCaps::default(), |_| Some(b"<html>".to_vec()));
    assert!(broken.truncated);
}

#[test]
fn shared_citations_are_walked_once() {
    let (result, asked) = expand(&seed(&["W0002", "W0003"]), GraphCaps::default(), |id| {
        Some(match id {
            "W0002" => work(id, &["W0003", "W0001"]),
            other => work(other, &[]),
        })
    });
    assert_eq!(asked, vec!["W0002", "W0003"]);
    assert_eq!(result.nodes.len(), 3);
    assert!(result.edges.iter().any(|e| e.from == "W0002" && e.to == "W0003"));
}

#[test]
fn ids_are_read_in_short_form() {
    let v = seed(&["W0002"]);
    assert_eq!(extract_work_id(&v).as_deref(), Some("W0001"));
    assert_eq!(extract_referenced_works(&v), vec!["W0002"]);
    assert_eq!(
        build_openalex_work_url(Some("http://127.0.0.1:9"), "W1").unwrap().href(),
        "http://127.0.0.1:9/works/W1"
    );
    assert!(build_openalex_work_url(Some("nonsense"), "W1").is_err());
}

fn value_of(j: &Json) -> serde_json::Value {
    match j {
        Json::Null => serde_json::Value::Null,
        Json::Bool(b) => (*b).into(),
        Json::Number(JsonNumber::Unsigned(n)) => (*n).into(),
        Json::Number(JsonNumber::Negative(n)) => (*n).into(),
        Json::Number(JsonNumber::Double(bits)) => f64::from_bits(*bits).into(),
        Json::Text(s) => s.clone().into(),
        Json::Array(v) => v.iter().map(value_of).collect(),
        Json::Object(v) => v.iter().map(|(k, x)| (k.clone(), value_of(x))).collect(),
    }
}

#[test]
fn graphs_have_a_json_form() {
    let caps = GraphCaps { depth: 1, total: 10, per_paper: 2 };
    let (g, _) = expand(&seed(&["W2", "W3", "W4"]), caps, |_| None);
    assert_eq!(
        value_of(&g.to_value()).to_string(),
        r#"{"edges":[{"from":"W0001","to":"W2"},{"from":"W0001","to":"W3"}],"nodes":[{"depth":0,"id":"W0001"},{"depth":1,"id":"W2"},{"depth":1,"id":"W3"}],"seed_work_id":"W0001","total_visited":3,"truncated":true}"#
    );
}

#[test]
fn no_paper_cites_more_than_its_cap() {
    let caps = GraphCaps { depth: 2, total: 50, per_paper: 2 };
    let (g, _) = expand(&seed(&["W2", "W3", "W4"]), caps, |id| {
        Some(work(id, &["W2", "W5", "W6", "W7"]))
    });
    for n in &g.nodes {
        assert!(g.edges.iter().filter(|e| e.from == n.id).count() <= 2, "{}", n.id);
    }
}

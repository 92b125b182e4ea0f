//! JSON values from bytes, and back to text.

use crate::json;
use crate::json::Json;
use crate::json::JsonModel;
use crate::json::JsonNumber;
use vstd::prelude::*;

verus! {

/// The value type of `serde_json`.
#[verifier::external_type_specification]
#[verifier::external_body]
pub struct ExValue(serde_json::Value);

/// The tree that a `serde_json` value holds.
pub uninterp spec fn value_tree(v: serde_json::Value) -> JsonModel;

/// What bytes stand for as JSON: a tree, or what is wrong with them.
pub uninterp spec fn json_of(bytes: Seq<u8>) -> Result<JsonModel, Seq<char>>;

/// A tree as JSON text.
pub uninterp spec fn json_text(m: JsonModel) -> Seq<char>;

/// Whether arrays and objects nest at most so deep.
pub open spec fn nests_within(m: JsonModel, depth: nat) -> bool
    decreases depth,
{
    match m {
        JsonModel::Array(items) => depth > 0 && forall|i: int|
            0 <= i < items.len() ==> nests_within(#[trigger] items[i], (depth - 1) as nat),
        JsonModel::Object(members) => depth > 0 && forall|i: int|
            0 <= i < members.len() ==> nests_within(
                (#[trigger] members[i]).1,
                (depth - 1) as nat,
            ),
        _ => true,
    }
}

/// Parses bytes with `serde_json::from_slice` into a `serde_json::Value`. The
/// value, or the text of the error, depends on the bytes alone; nesting beyond
/// the limit of the parser is an error, so no value nests deeper than 128.
#[verifier::external_body]
fn parse_value(bytes: &[u8]) -> (r: Result<serde_json::Value, String>)
    ensures
        match r {
            Ok(v) => json_of(bytes@) == Ok::<JsonModel, Seq<char>>(value_tree(v)) && nests_within(
                value_tree(v),
                128,
            ),
            Err(e) => json_of(bytes@) == Err::<JsonModel, Seq<char>>(e@),
        },
{
    serde_json::from_slice::<serde_json::Value>(bytes).map_err(|e| e.to_string())
}

/// The topmost level of a `serde_json` value.
enum JsonLevel {
    Null,
    Bool(bool),
    Number(JsonNumber),
    Text(String),
    Array(Vec<serde_json::Value>),
    Object(Vec<(String, serde_json::Value)>),
}

/// The trees that values hold.
pub open spec fn trees(v: Seq<serde_json::Value>) -> Seq<JsonModel> {
    Seq::new(v.len(), |i: int| value_tree(v[i]))
}

/// The names and trees that members hold.
pub open spec fn member_trees(v: Seq<(String, serde_json::Value)>) -> Seq<(Seq<char>, JsonModel)> {
    Seq::new(v.len(), |i: int| (v[i].0@, value_tree(v[i].1)))
}

spec fn level_tree(l: JsonLevel) -> JsonModel {
    match l {
        JsonLevel::Null => JsonModel::Null,
        JsonLevel::Bool(b) => JsonModel::Bool(b),
        JsonLevel::Number(n) => JsonModel::Number(n),
        JsonLevel::Text(s) => JsonModel::Text(s@),
        JsonLevel::Array(items) => JsonModel::Array(trees(items@)),
        JsonLevel::Object(members) => JsonModel::Object(member_trees(members@)),
    }
}

/// Takes a `serde_json::Value` apart by its variants: the level and what is
/// below it are the tree that the value holds.
#[verifier::external_body]
fn level_of(v: serde_json::Value) -> (r: JsonLevel)
    ensures
        level_tree(r) == value_tree(v),
{
    match v {
        serde_json::Value::Null => JsonLevel::Null,
        serde_json::Value::Bool(b) => JsonLevel::Bool(b),
        serde_json::Value::Number(n) => JsonLevel::Number(match (n.as_u64(), n.as_i64()) {
            (Some(u), _) => JsonNumber::Unsigned(u),
            (None, Some(i)) => JsonNumber::Negative(i),
            (None, None) => JsonNumber::Double(n.as_f64().unwrap_or_default().to_bits()),
        }),
        serde_json::Value::String(s) => JsonLevel::Text(s),
        serde_json::Value::Array(items) => JsonLevel::Array(items),
        serde_json::Value::Object(members) => JsonLevel::Object(members.into_iter().collect()),
    }
}

/// Renders a value with the `Display` of `serde_json::Value`: compact text that
/// depends on the tree alone.
#[verifier::external_body]
fn value_text(v: &serde_json::Value) -> (r: String)
    ensures
        r@ == json_text(value_tree(*v)),
{
    v.to_string()
}

fn reversed<T>(v: Vec<T>) -> (r: Vec<T>)
    ensures
        r@ == v@.reverse(),
{
    let ghost all = v@;
    let mut rest = v;
    let mut out: Vec<T> = Vec::new();
    while rest.len() > 0
        invariant
            rest@.len() <= all.len(),
            rest@ == all.take(rest@.len() as int),
            out@ == all.skip(rest@.len() as int).reverse(),
        decreases rest.len(),
    {
        let ghost n = rest@.len() as int;
        let x = rest.pop();
        match x {
            Some(item) => {
                assert(item == all[n - 1]);
                out.push(item);
                assert(out@ =~= all.skip(n - 1).reverse());
                assert(rest@ =~= all.take(n - 1));
            },
            None => {},
        }
    }
    assert(all.skip(0) =~= all);
    out
}

/// Reads a value level by level.
fn json_of_value(v: serde_json::Value, depth: usize) -> (r: Json)
    requires
        nests_within(value_tree(v), depth as nat),
    ensures
        r@ == value_tree(v),
    decreases depth,
{
    let ghost tree = value_tree(v);
    match level_of(v) {
        JsonLevel::Null => Json::Null,
        JsonLevel::Bool(b) => Json::Bool(b),
        JsonLevel::Number(n) => Json::Number(n),
        JsonLevel::Text(s) => Json::Text(s),
        JsonLevel::Array(items) => {
            let ghost all = items@;
            let mut rest = reversed(items);
            let mut out: Vec<Json> = Vec::new();
            while rest.len() > 0
                invariant
                    depth > 0,
                    tree == JsonModel::Array(trees(all)),
                    nests_within(tree, depth as nat),
                    out@.len() + rest@.len() == all.len(),
                    rest@ == all.skip(out@.len() as int).reverse(),
                    forall|i: int|
                        0 <= i < out@.len() ==> (#[trigger] out@[i])@ == value_tree(all[i]),
                decreases rest.len(),
            {
                let ghost k = out@.len() as int;
                let x = rest.pop();
                match x {
                    Some(item) => {
                        assert(item == all[k]);
                        assert(trees(all)[k] == value_tree(item));
                        assert(nests_within(tree->Array_0[k], (depth - 1) as nat));
                        out.push(json_of_value(item, depth - 1));
                        assert(rest@ =~= all.skip(k + 1).reverse());
                    },
                    None => {},
                }
            }
            assert(json::items_model(out@) =~= trees(all));
            json::array(out)
        },
        JsonLevel::Object(members) => {
            let ghost all = members@;
            let mut rest = reversed(members);
            let mut out: Vec<(String, Json)> = Vec::new();
            while rest.len() > 0
                invariant
                    depth > 0,
                    tree == JsonModel::Object(member_trees(all)),
                    nests_within(tree, depth as nat),
                    out@.len() + rest@.len() == all.len(),
                    rest@ == all.skip(out@.len() as int).reverse(),
                    forall|i: int|
                        0 <= i < out@.len() ==> (#[trigger] out@[i]).0@ == all[i].0@
                            && out@[i].1@ == value_tree(all[i].1),
                decreases rest.len(),
            {
                let ghost k = out@.len() as int;
                let x = rest.pop();
                match x {
                    Some((name, item)) => {
                        assert(name == all[k].0 && item == all[k].1);
                        assert(member_trees(all)[k].1 == value_tree(item));
                        assert(nests_within(tree->Object_0[k].1, (depth - 1) as nat));
                        out.push((name, json_of_value(item, depth - 1)));
                        assert(rest@ =~= all.skip(k + 1).reverse());
                    },
                    None => {},
                }
            }
            assert(json::members_model(out@) =~= member_trees(all));
            json::object(out)
        },
    }
}

/// Parses bytes as JSON; the error says what is wrong with them.
pub fn parse_json(bytes: &[u8]) -> (r: Result<Json, String>)
    ensures
        match json_of(bytes@) {
            Ok(m) => r is Ok && r->Ok_0@ == m,
            Err(e) => r is Err && r->Err_0@ == e,
        },
{
    match parse_value(bytes) {
        Ok(v) => Ok(json_of_value(v, 128)),
        Err(e) => Err(e),
    }
}

/// Parses bytes as JSON and renders the value again, in compact form.
pub fn parse_and_render(bytes: &[u8]) -> (r: Result<(Json, String), String>)
    ensures
        match json_of(bytes@) {
            Ok(m) => r is Ok && r->Ok_0.0@ == m && r->Ok_0.1@ == json_text(m),
            Err(e) => r is Err && r->Err_0@ == e,
        },
{
    match parse_value(bytes) {
        Ok(v) => {
            let shown = value_text(&v);
            Ok((json_of_value(v, 128), shown))
        },
        Err(e) => Err(e),
    }
}

} // verus!

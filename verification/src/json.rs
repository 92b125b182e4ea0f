//! JSON values.

use crate::text;
use vstd::prelude::*;

verus! {

/// A JSON number, kept the way a parser reads it.
#[derive(Debug, Clone, Copy, PartialEq, Eq, Structural)]
pub enum JsonNumber {
    /// An integer from 0 on.
    Unsigned(u64),
    /// An integer below 0.
    Negative(i64),
    /// Any other number: the bits of the double closest to it.
    Double(u64),
}

/// A JSON value. An object keeps its members in the order in which they are
/// listed; where a name occurs twice the first member counts.
#[derive(Debug, PartialEq, Eq)]
pub enum Json {
    /// `null`.
    Null,
    /// `true` or `false`.
    Bool(bool),
    /// A number.
    Number(JsonNumber),
    /// A string.
    Text(String),
    /// An array.
    Array(Vec<Json>),
    /// An object.
    Object(Vec<(String, Json)>),
}

/// What a JSON value holds.
pub enum JsonModel {
    Null,
    Bool(bool),
    Number(JsonNumber),
    Text(Seq<char>),
    Array(Seq<JsonModel>),
    Object(Seq<(Seq<char>, JsonModel)>),
}

/// What a JSON value holds.
pub open spec fn json_model(v: Json) -> JsonModel
    decreases v,
{
    match v {
        Json::Null => JsonModel::Null,
        Json::Bool(b) => JsonModel::Bool(b),
        Json::Number(n) => JsonModel::Number(n),
        Json::Text(s) => JsonModel::Text(s@),
        Json::Array(items) => JsonModel::Array(
            Seq::new(
                items@.len(),
                |i: int|
                    if 0 <= i < items@.len() {
                        json_model(items@[i])
                    } else {
                        JsonModel::Null
                    },
            ),
        ),
        Json::Object(members) => JsonModel::Object(
            Seq::new(
                members@.len(),
                |i: int|
                    if 0 <= i < members@.len() {
                        (members@[i].0@, json_model(members@[i].1))
                    } else {
                        (Seq::empty(), JsonModel::Null)
                    },
            ),
        ),
    }
}

impl View for Json {
    type V = JsonModel;

    open spec fn view(&self) -> JsonModel {
        json_model(*self)
    }
}

/// The first member of that name.
pub open spec fn find_member(members: Seq<(String, Json)>, name: Seq<char>) -> Option<Json>
    decreases members.len(),
{
    if members.len() == 0 {
        None
    } else if members[0].0@ == name {
        Some(members[0].1)
    } else {
        find_member(members.drop_first(), name)
    }
}

impl Json {
    /// The member of that name, where this is an object that has one.
    pub open spec fn member(self, name: Seq<char>) -> Option<Json> {
        match self {
            Json::Object(members) => find_member(members@, name),
            _ => None,
        }
    }

    /// The string, where this is one.
    pub open spec fn text(self) -> Option<Seq<char>> {
        match self {
            Json::Text(s) => Some(s@),
            _ => None,
        }
    }

    /// The items, where this is an array.
    pub open spec fn items(self) -> Option<Seq<Json>> {
        match self {
            Json::Array(v) => Some(v@),
            _ => None,
        }
    }

    /// The number, where this is an integer from 0 on.
    pub open spec fn unsigned(self) -> Option<u64> {
        match self {
            Json::Number(JsonNumber::Unsigned(n)) => Some(n),
            _ => None,
        }
    }

    /// The number, where this is an integer that 64 bits hold with a sign.
    pub open spec fn signed(self) -> Option<i64> {
        match self {
            Json::Number(JsonNumber::Unsigned(n)) => if n <= i64::MAX {
                Some(n as i64)
            } else {
                None
            },
            Json::Number(JsonNumber::Negative(n)) => Some(n),
            _ => None,
        }
    }
}

/// The member of that name, of a value that may be missing.
pub open spec fn opt_member(v: Option<Json>, name: Seq<char>) -> Option<Json> {
    match v {
        Some(j) => j.member(name),
        None => None,
    }
}

/// The string, of a value that may be missing.
pub open spec fn opt_text(v: Option<Json>) -> Option<Seq<char>> {
    match v {
        Some(j) => j.text(),
        None => None,
    }
}

/// The items, of a value that may be missing.
pub open spec fn opt_items(v: Option<Json>) -> Option<Seq<Json>> {
    match v {
        Some(j) => j.items(),
        None => None,
    }
}

/// The unsigned number, of a value that may be missing.
pub open spec fn opt_unsigned(v: Option<Json>) -> Option<u64> {
    match v {
        Some(j) => j.unsigned(),
        None => None,
    }
}

/// A borrowed value and the value that it stands for.
pub open spec fn borrowed(r: Option<&Json>, v: Option<Json>) -> bool {
    match v {
        Some(j) => r is Some && *r->Some_0 == j,
        None => r is None,
    }
}

/// A borrowed string and the text that it stands for.
pub open spec fn borrowed_text(r: Option<&String>, v: Option<Seq<char>>) -> bool {
    match v {
        Some(s) => r is Some && r->Some_0@ == s,
        None => r is None,
    }
}

/// Borrowed items and the sequence that they stand for.
pub open spec fn borrowed_items(r: Option<&Vec<Json>>, v: Option<Seq<Json>>) -> bool {
    match v {
        Some(s) => r is Some && r->Some_0@ == s,
        None => r is None,
    }
}

impl Json {
    /// The member of that name, where this is an object that has one.
    pub fn get(&self, name: &str) -> (r: Option<&Json>)
        ensures
            borrowed(r, self.member(name@)),
    {
        match self {
            Json::Object(members) => {
                assert(members@.skip(0) =~= members@);
                let mut i: usize = 0;
                while i < members.len()
                    invariant
                        i <= members.len(),
                        *self == Json::Object(*members),
                        find_member(members@, name@) == find_member(
                            members@.skip(i as int),
                            name@,
                        ),
                    decreases members.len() - i,
                {
                    assert(members@.skip(i as int)[0] == members@[i as int]);
                    assert(members@.skip(i as int).drop_first() =~= members@.skip(i + 1));
                    if text::same(members[i].0.as_str(), name) {
                        return Some(&members[i].1);
                    }
                    i += 1;
                }
                None
            },
            _ => None,
        }
    }

    /// The string, where this is one.
    pub fn as_text(&self) -> (r: Option<&String>)
        ensures
            borrowed_text(r, self.text()),
    {
        match self {
            Json::Text(s) => Some(s),
            _ => None,
        }
    }

    /// The items, where this is an array.
    pub fn as_items(&self) -> (r: Option<&Vec<Json>>)
        ensures
            borrowed_items(r, self.items()),
    {
        match self {
            Json::Array(v) => Some(v),
            _ => None,
        }
    }

    /// The number, where this is an integer from 0 on.
    pub fn as_unsigned(&self) -> (r: Option<u64>)
        ensures
            r == self.unsigned(),
    {
        match self {
            Json::Number(JsonNumber::Unsigned(n)) => Some(*n),
            _ => None,
        }
    }

    /// The number, where this is an integer that 64 bits hold with a sign.
    pub fn as_signed(&self) -> (r: Option<i64>)
        ensures
            r == self.signed(),
    {
        match self {
            Json::Number(JsonNumber::Unsigned(n)) => if *n <= i64::MAX as u64 {
                Some(*n as i64)
            } else {
                None
            },
            Json::Number(JsonNumber::Negative(n)) => Some(*n),
            _ => None,
        }
    }

    /// The string member of that name.
    pub fn text_at(&self, name: &str) -> (r: Option<&String>)
        ensures
            borrowed_text(r, opt_text(self.member(name@))),
    {
        match self.get(name) {
            Some(v) => v.as_text(),
            None => None,
        }
    }

    /// The items of the array member of that name.
    pub fn items_at(&self, name: &str) -> (r: Option<&Vec<Json>>)
        ensures
            borrowed_items(r, opt_items(self.member(name@))),
    {
        match self.get(name) {
            Some(v) => v.as_items(),
            None => None,
        }
    }

    /// The unsigned number member of that name.
    pub fn unsigned_at(&self, name: &str) -> (r: Option<u64>)
        ensures
            r == opt_unsigned(self.member(name@)),
    {
        match self.get(name) {
            Some(v) => v.as_unsigned(),
            None => None,
        }
    }

    /// The member of a member.
    pub fn get_in(&self, outer: &str, inner: &str) -> (r: Option<&Json>)
        ensures
            borrowed(r, opt_member(self.member(outer@), inner@)),
    {
        match self.get(outer) {
            Some(v) => v.get(inner),
            None => None,
        }
    }

    /// The string member of a member.
    pub fn text_in(&self, outer: &str, inner: &str) -> (r: Option<&String>)
        ensures
            borrowed_text(r, opt_text(opt_member(self.member(outer@), inner@))),
    {
        match self.get_in(outer, inner) {
            Some(v) => v.as_text(),
            None => None,
        }
    }
}

impl Json {
    /// The member of that name, where this is an object that has one; the rest
    /// is dropped.
    pub fn into_member(self, name: &str) -> (r: Option<Json>)
        ensures
            r == self.member(name@),
    {
        let mut members = match self {
            Json::Object(members) => members,
            _ => return None,
        };
        let ghost all = members@;
        let mut found: Option<Json> = None;
        assert(all.skip(all.len() as int) =~= Seq::<(String, Json)>::empty());
        while members.len() > 0
            invariant
                members@.len() <= all.len(),
                members@ == all.take(members@.len() as int),
                found == find_member(all.skip(members@.len() as int), name@),
            decreases members.len(),
        {
            let ghost n = members@.len() as int;
            assert(all.skip(n - 1)[0] == all[n - 1]);
            assert(all.skip(n - 1).drop_first() =~= all.skip(n));
            match members.pop() {
                Some((k, v)) => if text::same(k.as_str(), name) {
                    found = Some(v);
                },
                None => {},
            }
            assert(members@ =~= all.take(n - 1));
        }
        assert(all.skip(0) =~= all);
        found
    }
}

/// A text that may be missing, as a field of an object: none where there is no
/// such member or it is `null`. It is wrong where it is anything else than a
/// text.
pub open spec fn optional_field(v: Option<Json>) -> Result<Option<Seq<char>>, ()> {
    match v {
        None => Ok(None),
        Some(Json::Null) => Ok(None),
        Some(Json::Text(s)) => Ok(Some(s@)),
        Some(_) => Err(()),
    }
}

/// Reads a text that may be missing.
pub fn read_optional_field(v: Option<&Json>) -> (r: Result<Option<String>, ()>)
    ensures
        match optional_field(
            match v {
                Some(j) => Some(*j),
                None => None,
            },
        ) {
            Ok(o) => r is Ok && text::opt_view(r->Ok_0) == o,
            Err(_) => r is Err,
        },
{
    match v {
        None => Ok(None),
        Some(Json::Null) => Ok(None),
        Some(Json::Text(s)) => Ok(Some(s.clone())),
        Some(_) => Err(()),
    }
}

/// What a list of members holds.
pub open spec fn members_model(v: Seq<(String, Json)>) -> Seq<(Seq<char>, JsonModel)> {
    Seq::new(v.len(), |i: int| (v[i].0@, v[i].1@))
}

/// What a list of items holds.
pub open spec fn items_model(v: Seq<Json>) -> Seq<JsonModel> {
    Seq::new(v.len(), |i: int| v[i]@)
}

/// The texts as JSON.
pub open spec fn texts_model(v: Seq<Seq<char>>) -> JsonModel {
    JsonModel::Array(Seq::new(v.len(), |i: int| JsonModel::Text(v[i])))
}

/// Appends a member.
pub fn put(members: &mut Vec<(String, Json)>, name: &str, value: Json)
    ensures
        members_model(final(members)@) == members_model(old(members)@).push((name@, value@)),
{
    let ghost before = members@;
    members.push((name.to_string(), value));
    assert(members_model(members@) =~= members_model(before).push((name@, value@)));
}

/// An object of these members.
pub fn object(members: Vec<(String, Json)>) -> (r: Json)
    ensures
        r@ == JsonModel::Object(members_model(members@)),
{
    let r = Json::Object(members);
    assert(r@->Object_0 =~= members_model(members@));
    r
}

/// An array of these items.
pub fn array(items: Vec<Json>) -> (r: Json)
    ensures
        r@ == JsonModel::Array(items_model(items@)),
{
    let r = Json::Array(items);
    assert(r@->Array_0 =~= items_model(items@));
    r
}

/// A string.
pub fn text_value(s: &str) -> (r: Json)
    ensures
        r@ == JsonModel::Text(s@),
{
    Json::Text(s.to_string())
}

/// An array of these strings.
pub fn texts_value(v: &Vec<String>) -> (r: Json)
    ensures
        r@ == texts_model(text::views(v@)),
{
    let mut items: Vec<Json> = Vec::new();
    let mut i: usize = 0;
    while i < v.len()
        invariant
            i <= v.len(),
            items@.len() == i,
            forall|j: int| 0 <= j < i ==> (#[trigger] items@[j])@ == JsonModel::Text(v@[j]@),
        decreases v.len() - i,
    {
        items.push(text_value(v[i].as_str()));
        i += 1;
    }
    let ghost done = items@;
    let r = array(items);
    assert(r@->Array_0 =~= texts_model(text::views(v@))->Array_0);
    r
}

/// A copy of an optional borrowed string.
pub fn owned_text(s: Option<&String>) -> (r: Option<String>)
    ensures
        r is Some == s is Some,
        s is Some ==> r->Some_0@ == s->Some_0@,
{
    match s {
        Some(x) => Some(x.clone()),
        None => None,
    }
}

/// An optional text, `null` where there is none.
pub open spec fn text_or_null(v: Option<Seq<char>>) -> JsonModel {
    match v {
        Some(s) => JsonModel::Text(s),
        None => JsonModel::Null,
    }
}

/// An optional string, `null` where there is none.
pub fn text_or_null_value(v: &Option<String>) -> (r: Json)
    ensures
        r@ == text_or_null(text::opt_view(*v)),
{
    match v {
        Some(s) => text_value(s.as_str()),
        None => Json::Null,
    }
}

/// An optional count, `null` where there is none.
pub open spec fn count_or_null(v: Option<u64>) -> JsonModel {
    match v {
        Some(n) => JsonModel::Number(JsonNumber::Unsigned(n)),
        None => JsonModel::Null,
    }
}

/// An optional count, `null` where there is none.
pub fn count_or_null_value(v: Option<u64>) -> (r: Json)
    ensures
        r@ == count_or_null(v),
{
    match v {
        Some(n) => Json::Number(JsonNumber::Unsigned(n)),
        None => Json::Null,
    }
}

/// An optional integer, `null` where there is none.
pub open spec fn integer_or_null(v: Option<i32>) -> JsonModel {
    match v {
        Some(n) => JsonModel::Number(
            if n >= 0 {
                JsonNumber::Unsigned(n as u64)
            } else {
                JsonNumber::Negative(n as i64)
            },
        ),
        None => JsonModel::Null,
    }
}

/// An optional integer, `null` where there is none.
pub fn integer_or_null_value(v: Option<i32>) -> (r: Json)
    ensures
        r@ == integer_or_null(v),
{
    match v {
        Some(n) => Json::Number(
            if n >= 0 {
                JsonNumber::Unsigned(n as u64)
            } else {
                JsonNumber::Negative(n as i64)
            },
        ),
        None => Json::Null,
    }
}

// ---------------------------------------------------------------------------
// Laws
// ---------------------------------------------------------------------------

/// A member is found by its name: the first that has it, and none where no
/// member has it.
pub proof fn law_members_are_found_by_name(
    members: Seq<(String, Json)>,
    k: int,
    name: Seq<char>,
)
    requires
        0 <= k <= members.len(),
        forall|i: int| 0 <= i < k ==> (#[trigger] members[i]).0@ != name,
        k < members.len() ==> members[k].0@ == name,
    ensures
        find_member(members, name) == if k < members.len() {
            Some(members[k].1)
        } else {
            None
        },
    decreases members.len(),
{
    if members.len() > 0 && k > 0 {
        let d = members.drop_first();
        assert(members[0].0@ != name);
        assert forall|i: int| 0 <= i < k - 1 implies (#[trigger] d[i]).0@ != name by {
            assert(d[i] == members[i + 1]);
        }
        law_members_are_found_by_name(d, k - 1, name);
    }
}

/// A value that is there is written as it is, and one that is not as `null`;
/// texts are written each in its place.
pub proof fn law_values_are_written_as_they_are(
    s: Seq<char>,
    n: u64,
    i: i32,
    v: Seq<Seq<char>>,
    k: int,
)
    ensures
        text_or_null(Some(s)) == JsonModel::Text(s) && text_or_null(None) is Null,
        count_or_null(Some(n)) == JsonModel::Number(JsonNumber::Unsigned(n)) && count_or_null(
            None,
        ) is Null,
        i >= 0 ==> integer_or_null(Some(i)) == JsonModel::Number(JsonNumber::Unsigned(i as u64)),
        i < 0 ==> integer_or_null(Some(i)) == JsonModel::Number(JsonNumber::Negative(i as i64)),
        integer_or_null(None) is Null,
        texts_model(v) matches JsonModel::Array(items) && items.len() == v.len() && (0 <= k
            < v.len() ==> items[k] == JsonModel::Text(v[k])),
{
}

/// A value is read as what it is, and as nothing else: a text as a text, an array
/// as its items, a number as an integer where it is one that fits.
pub proof fn law_values_are_read_as_what_they_are(v: Json, name: Seq<char>)
    ensures
        v matches Json::Text(s) ==> v.text() == Some(s@),
        !(v is Text) ==> v.text() is None,
        v matches Json::Array(a) ==> v.items() == Some(a@),
        !(v is Array) ==> v.items() is None,
        v matches Json::Number(JsonNumber::Unsigned(n)) ==> v.unsigned() == Some(n) && (n
            <= 0x7FFF_FFFF_FFFF_FFFF ==> v.signed() == Some(n as i64)) && (n
            > 0x7FFF_FFFF_FFFF_FFFF ==> v.signed() is None),
        v matches Json::Number(JsonNumber::Negative(n)) ==> v.unsigned() is None && v.signed()
            == Some(n),
        v matches Json::Number(JsonNumber::Double(_)) ==> v.unsigned() is None
            && v.signed() is None,
        !(v is Number) ==> v.unsigned() is None && v.signed() is None,
        !(v is Object) ==> v.member(name) is None,
        v matches Json::Text(s) ==> optional_field(Some(v)) == Ok::<Option<Seq<char>>, ()>(
            Some(s@),
        ),
        v is Null ==> optional_field(Some(v)) == Ok::<Option<Seq<char>>, ()>(None),
        optional_field(None) == Ok::<Option<Seq<char>>, ()>(None),
        !(v is Text || v is Null) ==> optional_field(Some(v)) is Err,
{
}

} // verus!

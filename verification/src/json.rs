//! JSON values as the library reads and builds them.
//!
//! Reading and writing JSON text is the work of `serde_json`; the values
//! themselves are the library's own, so that the rules laid on them can be
//! stated and proved.

use vstd::prelude::*;
use serde_json::Value;
use crate::text::str_eq;

verus! {

/// A JSON number: an unsigned integer that fits 64 bits, or the literal text
/// of any other number (negative, fractional, with an exponent).
#[derive(Debug, PartialEq, Eq)]
pub enum JsonNumber {
    Unsigned(u64),
    Other(String),
}

/// A JSON value. The members of an object are kept in the order given.
#[derive(Debug, PartialEq, Eq)]
pub enum JsonValue {
    Null,
    Bool(bool),
    Number(JsonNumber),
    Text(String),
    Array(Vec<JsonValue>),
    Object(Vec<JsonMember>),
}

/// One member of a JSON object.
#[derive(Debug, PartialEq, Eq)]
pub struct JsonMember {
    pub key: String,
    pub value: JsonValue,
}

/// What a JSON value is, in mathematical terms.
pub enum JsonModel {
    Null,
    Bool(bool),
    Unsigned(u64),
    OtherNumber(Seq<char>),
    Text(Seq<char>),
    Array(Seq<JsonModel>),
    Object(Seq<(Seq<char>, JsonModel)>),
}

#[verifier::external_type_specification]
#[verifier::external_body]
pub struct ExSerdeValue(serde_json::Value);

/// What `serde_json` reads from a text: the value, or nothing where the text
/// is not JSON.
pub uninterp spec fn json_parsed(text: Seq<char>) -> Option<JsonModel>;

/// What `serde_json` writes for a value: the compact text, or nothing where a
/// number of the value is held as text that is no JSON number.
pub uninterp spec fn json_rendered(value: JsonModel) -> Option<Seq<char>>;

/// Turns a `serde_json::Value` into a value of the library, variant by
/// variant; a number becomes `Unsigned` where `Number::as_u64` gives one, and
/// its `to_string` otherwise. Objects come in the order of `serde_json::Map`.
#[verifier::external_body]
fn lift_json(value: Value) -> JsonValue {
    match value {
        Value::Null => JsonValue::Null,
        Value::Bool(b) => JsonValue::Bool(b),
        Value::Number(n) => JsonValue::Number(
            n.as_u64().map_or_else(|| JsonNumber::Other(n.to_string()), JsonNumber::Unsigned),
        ),
        Value::String(t) => JsonValue::Text(t),
        Value::Array(items) => JsonValue::Array(items.into_iter().map(lift_json).collect()),
        Value::Object(map) => JsonValue::Object(
            map.into_iter().map(|(key, v)| JsonMember { key, value: lift_json(v) }).collect(),
        ),
    }
}

/// Turns a value of the library into a `serde_json::Value`, variant by
/// variant; the text of a number goes through `str::parse` for
/// `serde_json::Number`, and where that fails there is no result.
#[verifier::external_body]
fn lower_json(value: &JsonValue) -> Option<Value> {
    Some(
        match value {
            JsonValue::Null => Value::Null,
            JsonValue::Bool(b) => Value::Bool(*b),
            JsonValue::Number(JsonNumber::Unsigned(n)) => Value::from(*n),
            JsonValue::Number(JsonNumber::Other(t)) => Value::Number(t.parse().ok()?),
            JsonValue::Text(t) => Value::String(t.clone()),
            JsonValue::Array(items) => Value::Array(
                items.iter().map(lower_json).collect::<Option<_>>()?,
            ),
            JsonValue::Object(members) => Value::Object(
                members.iter().map(lower_member).collect::<Option<_>>()?,
            ),
        },
    )
}

/// Turns a member of the library into a pair for `serde_json::Map`.
#[verifier::external_body]
fn lower_member(member: &JsonMember) -> Option<(String, Value)> {
    Some((member.key.clone(), lower_json(&member.value)?))
}

/// Calls `serde_json::from_str` for a `serde_json::Value`. The contract gives
/// the result a name and claims only that it depends on the text alone.
#[verifier::external_body]
pub(crate) fn parse_json(text: &str) -> (parsed: Option<JsonValue>)
    ensures
        match parsed {
            Some(value) => json_parsed(text@) == Some(value@),
            None => json_parsed(text@) is None,
        },
{
    serde_json::from_str::<Value>(text).ok().map(lift_json)
}

/// Calls `serde_json::to_string`. The contract gives the result a name and
/// claims only that it depends on the value alone.
#[verifier::external_body]
pub(crate) fn render_json(value: &JsonValue) -> (rendered: Option<String>)
    ensures
        match rendered {
            Some(text) => json_rendered(value@) == Some(text@),
            None => json_rendered(value@) is None,
        },
{
    serde_json::to_string(&lower_json(value)?).ok()
}

/// The model of a value: the same tree, with sequences for vectors and
/// strings.
pub open spec fn json_model(value: JsonValue) -> JsonModel
    decreases value,
{
    match value {
        JsonValue::Null => JsonModel::Null,
        JsonValue::Bool(b) => JsonModel::Bool(b),
        JsonValue::Number(JsonNumber::Unsigned(n)) => JsonModel::Unsigned(n),
        JsonValue::Number(JsonNumber::Other(t)) => JsonModel::OtherNumber(t@),
        JsonValue::Text(t) => JsonModel::Text(t@),
        JsonValue::Array(items) => JsonModel::Array(
            Seq::new(
                items.len() as nat,
                |i: int|
                    if 0 <= i < items.len() {
                        json_model(items[i])
                    } else {
                        JsonModel::Null
                    },
            ),
        ),
        JsonValue::Object(members) => JsonModel::Object(
            Seq::new(
                members.len() as nat,
                |i: int|
                    if 0 <= i < members.len() {
                        (members[i].key@, json_model(members[i].value))
                    } else {
                        (Seq::empty(), JsonModel::Null)
                    },
            ),
        ),
    }
}

impl View for JsonValue {
    type V = JsonModel;

    open spec fn view(&self) -> JsonModel {
        json_model(*self)
    }
}

/// The items of an array, each as its model.
pub open spec fn items_model(items: Seq<JsonValue>) -> Seq<JsonModel> {
    Seq::new(items.len(), |i: int| items[i]@)
}

/// The members of an object, each as its key and the model of its value.
pub open spec fn members_model(members: Seq<JsonMember>) -> Seq<(Seq<char>, JsonModel)> {
    Seq::new(members.len(), |i: int| (members[i].key@, members[i].value@))
}

pub proof fn lemma_array_view(items: Vec<JsonValue>)
    ensures
        JsonValue::Array(items)@ == JsonModel::Array(items_model(items@)),
{
    assert(JsonValue::Array(items)@ is Array);
    assert(JsonValue::Array(items)@->Array_0 =~= items_model(items@));
}

pub proof fn lemma_object_view(members: Vec<JsonMember>)
    ensures
        JsonValue::Object(members)@ == JsonModel::Object(members_model(members@)),
{
    assert(JsonValue::Object(members)@ is Object);
    assert(JsonValue::Object(members)@->Object_0 =~= members_model(members@));
}

/// The value of the first member with the given key.
pub open spec fn find_member(members: Seq<(Seq<char>, JsonModel)>, key: Seq<char>) -> Option<
    JsonModel,
>
    decreases members.len(),
{
    if members.len() == 0 {
        None
    } else if members[0].0 == key {
        Some(members[0].1)
    } else {
        find_member(members.drop_first(), key)
    }
}

/// Looks a key up among the members of an object.
pub fn get_member<'a>(members: &'a Vec<JsonMember>, key: &str) -> (found: Option<&'a JsonValue>)
    ensures
        match found {
            Some(value) => find_member(members_model(members@), key@) == Some(value@),
            None => find_member(members_model(members@), key@) is None,
        },
{
    let ghost all = members_model(members@);
    let mut i: usize = 0;
    assert(all.skip(0) =~= all);
    while i < members.len()
        invariant
            i <= members.len(),
            all == members_model(members@),
            find_member(all, key@) == find_member(all.skip(i as int), key@),
        decreases members.len() - i,
    {
        proof {
            assert(all.skip(i as int)[0] == all[i as int]);
            assert(all.skip(i as int).drop_first() =~= all.skip(i + 1));
        }
        if str_eq(members[i].key.as_str(), key) {
            return Some(&members[i].value);
        }
        i += 1;
    }
    None
}

impl JsonValue {
    /// A value equal to this one, built anew.
    #[verifier::loop_isolation(false)]
    pub fn duplicate(&self) -> (copy: JsonValue)
        ensures
            copy@ == self@,
        decreases self,
    {
        match self {
            JsonValue::Null => JsonValue::Null,
            JsonValue::Bool(b) => JsonValue::Bool(*b),
            JsonValue::Number(JsonNumber::Unsigned(n)) => JsonValue::Number(
                JsonNumber::Unsigned(*n),
            ),
            JsonValue::Number(JsonNumber::Other(t)) => JsonValue::Number(
                JsonNumber::Other(t.clone()),
            ),
            JsonValue::Text(t) => JsonValue::Text(t.clone()),
            JsonValue::Array(items) => {
                let mut out: Vec<JsonValue> = Vec::new();
                let mut i: usize = 0;
                while i < items.len()
                    invariant
                        i <= items.len(),
                        out.len() == i,
                        self == JsonValue::Array(*items),
                        forall|j: int| 0 <= j < i ==> out[j]@ == items[j]@,
                    decreases items.len() - i,
                {
                    out.push(items[i].duplicate());
                    i += 1;
                }
                proof {
                    lemma_array_view(*items);
                    lemma_array_view(out);
                    assert(items_model(out@) =~= items_model(items@));
                }
                JsonValue::Array(out)
            },
            JsonValue::Object(members) => {
                let mut out: Vec<JsonMember> = Vec::new();
                let mut i: usize = 0;
                while i < members.len()
                    invariant
                        i <= members.len(),
                        out.len() == i,
                        self == JsonValue::Object(*members),
                        forall|j: int|
                            0 <= j < i ==> out[j].key@ == members[j].key@ && out[j].value@
                                == members[j].value@,
                    decreases members.len() - i,
                {
                    out.push(
                        JsonMember {
                            key: members[i].key.clone(),
                            value: members[i].value.duplicate(),
                        },
                    );
                    i += 1;
                }
                proof {
                    lemma_object_view(*members);
                    lemma_object_view(out);
                    assert(members_model(out@) =~= members_model(members@));
                }
                JsonValue::Object(out)
            },
        }
    }
}

} // verus!

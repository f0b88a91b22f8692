//! What a JSON document holds, as far as anything here reads one.
use vstd::prelude::*;

use crate::seqs::opt_model;
use crate::text::{decimal, same, Text};

verus! {

broadcast use crate::seqs::group_models;

/// A JSON value. A number is known by what it is as a `u64`, where it is one, and by how it is written.
pub enum Json {
    Null,
    Bool(bool),
    Number { whole: Option<u64>, written: String },
    Str(String),
    Array(Vec<Json>),
    Object(Vec<(String, Json)>),
}

pub enum JsonModel {
    Null,
    Bool(bool),
    Number { whole: Option<u64>, written: Text },
    Str(Text),
    Array(Seq<JsonModel>),
    Object(Seq<(Text, JsonModel)>),
}

/// What a value holds.
pub open spec fn json_model(j: Json) -> JsonModel
    decreases j,
{
    match j {
        Json::Null => JsonModel::Null,
        Json::Bool(b) => JsonModel::Bool(b),
        Json::Number { whole, written } => JsonModel::Number { whole, written: written@ },
        Json::Str(s) => JsonModel::Str(s@),
        Json::Array(items) => JsonModel::Array(
            Seq::new(
                items@.len(),
                |i: int|
                    if 0 <= i < items@.len() {
                        json_model(items[i])
                    } else {
                        JsonModel::Null
                    },
            ),
        ),
        Json::Object(members) => JsonModel::Object(
            Seq::new(
                members@.len(),
                |i: int|
                    if 0 <= i < members@.len() {
                        (members[i].0@, json_model(members[i].1))
                    } else {
                        (Seq::<char>::empty(), JsonModel::Null)
                    },
            ),
        ),
    }
}

impl View for Json {
    type V = JsonModel;

    open spec fn view(&self) -> JsonModel {
        json_model(*self)
    }
}

// ---- reading --------------------------------------------------------------------------------------------------------

/// `serde_json`'s own value, which only the functions below look into.
#[verifier::external_type_specification]
#[verifier::external_body]
pub struct ExValue(serde_json::Value);

/// What a `serde_json` value holds.
pub uninterp spec fn held(v: serde_json::Value) -> JsonModel;

/// What reading a text as JSON comes to: the value it holds, or what is wrong with it.
pub uninterp spec fn reading(text: Text) -> Result<JsonModel, Text>;

/// `serde_json::from_str` into a `serde_json::Value`: the outcome depends on the text alone, and an error is known by
/// what it displays.
#[verifier::external_body]
fn read(text: &str) -> (r: Result<serde_json::Value, String>)
    ensures
        match r {
            Ok(v) => reading(text@) == Ok::<JsonModel, Text>(held(v)),
            Err(e) => reading(text@) == Err::<JsonModel, Text>(e@),
        },
{
    serde_json::from_str(text).map_err(|e| e.to_string())
}

/// Copies a `serde_json::Value` variant by variant; a number becomes what `Number::as_u64` says of it,
/// beside its `Display`.
#[verifier::external_body]
fn converted(v: &serde_json::Value) -> (r: Json)
    ensures
        r@ == held(*v),
{
    match v {
        serde_json::Value::Null => Json::Null,
        serde_json::Value::Bool(b) => Json::Bool(*b),
        serde_json::Value::Number(n) => Json::Number { whole: n.as_u64(), written: n.to_string() },
        serde_json::Value::String(s) => Json::Str(s.clone()),
        serde_json::Value::Array(items) => Json::Array(items.iter().map(converted).collect()),
        serde_json::Value::Object(members) => {
            Json::Object(members.iter().map(|(k, v)| (k.clone(), converted(v))).collect())
        },
    }
}

/// Read a text as JSON, or say what is wrong with it.
pub fn parse(text: &str) -> (r: Result<Json, String>)
    ensures
        match r {
            Ok(j) => reading(text@) == Ok::<JsonModel, Text>(j@),
            Err(e) => reading(text@) == Err::<JsonModel, Text>(e@),
        },
{
    match read(text) {
        Ok(v) => Ok(converted(&v)),
        Err(e) => Err(e),
    }
}

/// What reading a text as a JSON array comes to: its items, or what is wrong with it.
pub uninterp spec fn list_reading(text: Text) -> Result<Seq<JsonModel>, Text>;

/// `serde_json::from_str` into a `Vec` of `serde_json::Value`: the outcome depends on the text alone, and an error is known
/// by what it displays.
#[verifier::external_body]
fn read_list(text: &str) -> (r: Result<Vec<serde_json::Value>, String>)
    ensures
        match r {
            Ok(v) => list_reading(text@) == Ok::<Seq<JsonModel>, Text>(Seq::new(v@.len(), |i: int| held(v@[i]))),
            Err(e) => list_reading(text@) == Err::<Seq<JsonModel>, Text>(e@),
        },
{
    serde_json::from_str(text).map_err(|e| e.to_string())
}

/// Read a text as a JSON array, or say what is wrong with it.
pub fn parse_list(text: &str) -> (r: Result<Vec<Json>, String>)
    ensures
        match r {
            Ok(v) => list_reading(text@) == Ok::<Seq<JsonModel>, Text>(crate::seqs::models(v@)),
            Err(e) => list_reading(text@) == Err::<Seq<JsonModel>, Text>(e@),
        },
{
    let found: Vec<serde_json::Value> = match read_list(text) {
        Ok(v) => v,
        Err(e) => return Err(e),
    };
    let mut out: Vec<Json> = Vec::new();
    let mut i: usize = 0;
    while i < found.len()
        invariant
            i <= found@.len(),
            out@.len() == i,
            forall|j: int| 0 <= j < i ==> (#[trigger] out@[j])@ == held(found@[j]),
        decreases found@.len() - i,
    {
        out.push(converted(&found[i]));
        i = i + 1;
    }
    assert(crate::seqs::models(out@) =~= Seq::new(found@.len(), |i: int| held(found@[i])));
    Ok(out)
}

// ---- looking into a value -------------------------------------------------------------------------------------------

/// The member of that name; `Null` when there is none, or when the value is no object.
pub open spec fn member(j: JsonModel, key: Text) -> JsonModel {
    match j {
        JsonModel::Object(members) => first_member(members, key),
        _ => JsonModel::Null,
    }
}

/// The first of `members` under that name.
pub open spec fn first_member(members: Seq<(Text, JsonModel)>, key: Text) -> JsonModel
    decreases members.len(),
{
    if members.len() == 0 {
        JsonModel::Null
    } else if members[0].0 == key {
        members[0].1
    } else {
        first_member(members.subrange(1, members.len() as int), key)
    }
}

/// The items of an array; none when the value is no array.
pub open spec fn items(j: JsonModel) -> Seq<JsonModel> {
    match j {
        JsonModel::Array(items) => items,
        _ => Seq::empty(),
    }
}

/// What a string says; `None` when the value is no string.
pub open spec fn string(j: JsonModel) -> Option<Text> {
    match j {
        JsonModel::Str(s) => Some(s),
        _ => None,
    }
}

/// A number that is a `u64`; `None` for anything else.
pub open spec fn number(j: JsonModel) -> Option<u64> {
    match j {
        JsonModel::Number { whole, .. } => whole,
        _ => None,
    }
}

/// What a value that may be absent stands for: an absent one reads as `Null`.
pub open spec fn found(j: Option<&Json>) -> JsonModel {
    match j {
        Some(v) => v@,
        None => JsonModel::Null,
    }
}

/// The member of that name. An absent value has none.
pub fn get<'a>(j: Option<&'a Json>, key: &str) -> (r: Option<&'a Json>)
    ensures
        found(r) == member(found(j), key@),
{
    let members: &Vec<(String, Json)> = match j {
        Some(Json::Object(members)) => members,
        _ => return None,
    };
    let ghost all = found(j)->Object_0;
    proof {
        assert(all.subrange(0, all.len() as int) =~= all);
    }
    let mut i: usize = 0;
    while i < members.len()
        invariant
            i <= members@.len(),
            found(j) == JsonModel::Object(all),
            all == json_model(Json::Object(*members))->Object_0,
            first_member(all, key@) == first_member(all.subrange(i as int, all.len() as int), key@),
        decreases members@.len() - i,
    {
        proof {
            let rest = all.subrange(i as int, all.len() as int);
            assert(rest[0] == all[i as int]);
            assert(rest.subrange(1, rest.len() as int) =~= all.subrange(i + 1, all.len() as int));
            assert(all[i as int] == (members@[i as int].0@, members@[i as int].1@));
        }
        if same(&members[i].0, key) {
            return Some(&members[i].1);
        }
        i = i + 1;
    }
    None
}

/// What a string says.
pub fn as_str<'a>(j: Option<&'a Json>) -> (r: Option<&'a String>)
    ensures
        match r {
            Some(s) => string(found(j)) == Some(s@),
            None => string(found(j)) is None,
        },
{
    match j {
        Some(Json::Str(s)) => Some(s),
        _ => None,
    }
}

/// A number that is a `u64`.
pub fn as_u64(j: Option<&Json>) -> (r: Option<u64>)
    ensures
        r == number(found(j)),
{
    match j {
        Some(Json::Number { whole, .. }) => *whole,
        _ => None,
    }
}

/// The items of an array.
pub fn as_array<'a>(j: Option<&'a Json>) -> (r: Option<&'a Vec<Json>>)
    ensures
        match r {
            Some(v) => found(j) matches JsonModel::Array(all) && all.len() == v@.len() && forall|i: int|
                0 <= i < v@.len() ==> (#[trigger] v@[i])@ == all[i],
            None => !(found(j) is Array),
        },
{
    match j {
        Some(Json::Array(v)) => Some(v),
        _ => None,
    }
}

/// A copy of what a string says, or `""`.
pub fn text_or_empty(j: Option<&Json>) -> (r: String)
    ensures
        r@ == text_of(found(j)),
{
    match as_str(j) {
        Some(s) => s.clone(),
        None => String::new(),
    }
}

/// What a string says, or the empty text.
pub open spec fn text_of(j: JsonModel) -> Text {
    match string(j) {
        Some(s) => s,
        None => Seq::empty(),
    }
}

/// A copy of what a string says.
pub fn text_opt(j: Option<&Json>) -> (r: Option<String>)
    ensures
        opt_model(r) == string(found(j)),
{
    match as_str(j) {
        Some(s) => Some(s.clone()),
        None => None,
    }
}

// ---- displaying -----------------------------------------------------------------------------------------------------

/// How `serde_json` displays a string, an array or an object.
pub uninterp spec fn compact(j: JsonModel) -> Text;

/// How a value displays: `null`, `true` and `false` by name, a `u64` in decimal digits, any other number as it is written;
/// and `rest` for all that is no such scalar.
pub open spec fn scalar_or(j: JsonModel, rest: Text) -> Text {
    match j {
        JsonModel::Null => "null"@,
        JsonModel::Bool(b) => if b {
            "true"@
        } else {
            "false"@
        },
        JsonModel::Number { whole: Some(n), .. } => decimal(n as nat),
        JsonModel::Number { whole: None, written } => written,
        _ => rest,
    }
}

/// How a value displays.
pub open spec fn displayed(j: JsonModel) -> Text {
    scalar_or(j, compact(j))
}

/// Indexing a `serde_json::Value` by a key: the member of that name, and `Null` where there is none or the value is no
/// object.
#[verifier::external_body]
fn at<'a>(v: &'a serde_json::Value, key: &str) -> (r: &'a serde_json::Value)
    ensures
        held(*r) == member(held(*v), key@),
{
    &v[key]
}

/// The `Display` of a `serde_json::Value`: compact JSON, which depends on what the value holds alone.
#[verifier::external_body]
fn show(v: &serde_json::Value) -> (r: String)
    ensures
        r@ == scalar_or(held(*v), compact(held(*v))),
{
    v.to_string()
}

/// How the member of that name displays in the document a text holds; `None` when it holds none.
pub fn shown_member(text: &str, key: &str) -> (r: Option<String>)
    ensures
        opt_model(r) == match reading(text@) {
            Ok(j) => Some(displayed(member(j, key@))),
            Err(_) => None,
        },
{
    match read(text) {
        Ok(v) => Some(show(at(&v, key))),
        Err(_) => None,
    }
}

// ---- laws -----------------------------------------------------------------------------------------------------------

/// The first member under a name is the one that is found; a name that no member has, and a value that is no object, read as
/// `Null`.
pub proof fn the_first_member_counts(members: Seq<(Text, JsonModel)>, key: Text)
    ensures
        forall|i: int|
            0 <= i < members.len() && (#[trigger] members[i]).0 == key && (forall|k: int|
                0 <= k < i ==> (#[trigger] members[k]).0 != key) ==> member(JsonModel::Object(members), key) == members[i].1,
        (forall|i: int| 0 <= i < members.len() ==> (#[trigger] members[i]).0 != key) ==> member(
            JsonModel::Object(members),
            key,
        ) == JsonModel::Null,
        member(JsonModel::Null, key) == JsonModel::Null && member(JsonModel::Str(key), key) == JsonModel::Null,
    decreases members.len(),
{
    if members.len() > 0 && members[0].0 != key {
        let rest = members.subrange(1, members.len() as int);
        the_first_member_counts(rest, key);
        assert forall|i: int|
            0 <= i < members.len() && (#[trigger] members[i]).0 == key && (forall|k: int|
                0 <= k < i ==> (#[trigger] members[k]).0 != key) implies member(JsonModel::Object(members), key)
            == members[i].1 by {
            assert(rest[i - 1] == members[i]);
            assert forall|k: int| 0 <= k < i - 1 implies (#[trigger] rest[k]).0 != key by {
                assert(rest[k] == members[k + 1]);
            }
            assert(member(JsonModel::Object(rest), key) == rest[i - 1].1);
        }
        if forall|i: int| 0 <= i < members.len() ==> (#[trigger] members[i]).0 != key {
            assert forall|i: int| 0 <= i < rest.len() implies (#[trigger] rest[i]).0 != key by {
                assert(rest[i] == members[i + 1]);
            }
            assert(member(JsonModel::Object(rest), key) == JsonModel::Null);
        }
    }
}

/// A value is read as what it is and as nothing else: a string as its text, a whole number as itself, an array as its items.
pub proof fn a_value_is_read_as_what_it_is(j: JsonModel)
    ensures
        string(j) is Some <==> j is Str,
        j matches JsonModel::Str(s) ==> string(j) == Some(s) && text_of(j) == s,
        !(j is Str) ==> text_of(j).len() == 0,
        number(j) is Some <==> j is Number && j->whole is Some,
        j is Number ==> number(j) == j->whole,
        j matches JsonModel::Array(v) ==> items(j) == v,
        !(j is Array) ==> items(j).len() == 0,
{
}

/// A scalar displays as it is written: by name, in decimal digits, or as the number was spelled.
pub proof fn a_scalar_displays_as_written(n: u64, written: Text, rest: Text)
    ensures
        displayed(JsonModel::Null) == "null"@,
        displayed(JsonModel::Bool(true)) == "true"@ && displayed(JsonModel::Bool(false)) == "false"@,
        displayed(JsonModel::Number { whole: Some(n), written }) == decimal(n as nat),
        displayed(JsonModel::Number { whole: None, written }) == written,
        scalar_or(JsonModel::Str(written), rest) == rest,
{
}

} // verus!

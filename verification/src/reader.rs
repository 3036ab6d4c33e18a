//! JSON text, read by the `serde_json` crate, and TOML text, read by the `toml`
//! crate.

use vstd::prelude::*;

use crate::json::{member, values, Json, JsonObject, JsonValue};
use crate::text::texts;

verus! {

/// `serde_json::Value`, a JSON value of any type.
#[verifier::external_type_specification]
#[verifier::external_body]
pub struct ExValue(serde_json::Value);

/// What a `serde_json::Value` holds.
pub uninterp spec fn json_tree(value: serde_json::Value) -> JsonValue;

/// The value that `serde_json::from_str` reads from a text, or the message of its
/// error.
pub uninterp spec fn json_document(text: Seq<char>) -> Result<JsonValue, Seq<char>>;

/// The document that `toml::from_str` reads from a text into a `serde_json::Value`,
/// or the message of its error. A date reads as an object.
pub uninterp spec fn toml_document(text: Seq<char>) -> Result<JsonValue, Seq<char>>;

/// The values of a list.
pub open spec fn json_trees(items: Seq<serde_json::Value>) -> Seq<JsonValue> {
    items.map_values(|item: serde_json::Value| json_tree(item))
}

/// `serde_json::from_str` into a `serde_json::Value`. Its result depends on the
/// text alone.
#[verifier::external_body]
fn read_document(text: &str) -> (value: Result<serde_json::Value, String>)
    ensures
        match value {
            Ok(value) => json_document(text@) == Ok::<JsonValue, Seq<char>>(json_tree(value)),
            Err(message) => json_document(text@) == Err::<JsonValue, Seq<char>>(message@),
        },
{
    serde_json::from_str::<serde_json::Value>(text).map_err(|err| err.to_string())
}

/// `toml::from_str` into a `serde_json::Value`. Its result depends on the text
/// alone.
#[verifier::external_body]
fn read_toml_document(text: &str) -> (value: Result<serde_json::Value, String>)
    ensures
        match value {
            Ok(value) => toml_document(text@) == Ok::<JsonValue, Seq<char>>(json_tree(value)),
            Err(message) => toml_document(text@) == Err::<JsonValue, Seq<char>>(message@),
        },
{
    toml::from_str::<serde_json::Value>(text).map_err(|err| err.to_string())
}

/// `serde_json::Value::as_bool`: the truth, if the value is one.
#[verifier::external_body]
fn truth_of(value: &serde_json::Value) -> (truth: Option<bool>)
    ensures
        match truth {
            Some(truth) => json_tree(*value) == JsonValue::Bool(truth),
            None => !(json_tree(*value) is Bool),
        },
{
    value.as_bool()
}

/// `serde_json::Value::as_u64`: the whole number, if the value is one that is not
/// negative.
#[verifier::external_body]
fn uint_of(value: &serde_json::Value) -> (n: Option<u64>)
    ensures
        match n {
            Some(n) => json_tree(*value) == JsonValue::Uint(n),
            None => !(json_tree(*value) is Uint),
        },
{
    value.as_u64()
}

/// `serde_json::Value::as_i64`: the whole number, if the value is one in the range
/// of the type. All negative ones are.
#[verifier::external_body]
fn signed_of(value: &serde_json::Value) -> (n: Option<i64>)
    ensures
        match n {
            Some(n) => json_tree(*value) == if n >= 0 {
                JsonValue::Uint(n as u64)
            } else {
                JsonValue::Negative(n)
            },
            None => !(json_tree(*value) is Negative),
        },
{
    value.as_i64()
}

/// `serde_json::Value::as_number` and `Number::to_string`: how a number is written,
/// if the value is one.
#[verifier::external_body]
fn number_text(value: &serde_json::Value) -> (text: Option<String>)
    ensures
        match text {
            Some(text) => match json_tree(*value) {
                JsonValue::Uint(_) | JsonValue::Negative(_) => true,
                JsonValue::Fraction(written) => written == text@,
                _ => false,
            },
            None => !(json_tree(*value) is Fraction),
        },
{
    value.as_number().map(|number| number.to_string())
}

/// `serde_json::Value::as_str`: the text, if the value is one.
#[verifier::external_body]
fn text_of(value: &serde_json::Value) -> (text: Option<&str>)
    ensures
        match text {
            Some(text) => json_tree(*value) == JsonValue::Text(text@),
            None => !(json_tree(*value) is Text),
        },
{
    value.as_str()
}

/// `serde_json::Value::as_array`: the items, if the value is an array.
#[verifier::external_body]
fn items_of(value: &serde_json::Value) -> (items: Option<&Vec<serde_json::Value>>)
    ensures
        match items {
            Some(items) => json_tree(*value) == JsonValue::Array(json_trees(items@)),
            None => !(json_tree(*value) is Array),
        },
{
    value.as_array()
}

/// `serde_json::Value::as_object` and `Map::keys`: the names of all the members, if
/// the value is an object.
#[verifier::external_body]
fn names_of(value: &serde_json::Value) -> (names: Option<Vec<String>>)
    ensures
        match names {
            Some(names) => json_tree(*value) matches JsonValue::Object(members) && forall|
                name: Seq<char>,
            | #[trigger]
                members.contains_key(name) <==> texts(names@).contains(name),
            None => !(json_tree(*value) is Object),
        },
{
    value.as_object().map(|members| members.keys().cloned().collect())
}

/// `serde_json::Value::get` with a text: the member of that name, if the value is
/// an object that has it.
#[verifier::external_body]
fn member_of<'a>(value: &'a serde_json::Value, name: &str) -> (found: Option<&'a serde_json::Value>)
    ensures
        match found {
            Some(found) => member(json_tree(*value), name@) == Some(json_tree(*found)),
            None => member(json_tree(*value), name@) is None,
        },
{
    value.get(name)
}

/// Takes over a value.
fn take_value(value: &serde_json::Value) -> (json: Json)
    ensures
        json@ == json_tree(*value),
    decreases json_tree(*value), 1nat,
{
    if let Some(truth) = truth_of(value) {
        return Json::truth(truth);
    }
    if let Some(n) = uint_of(value) {
        return Json::uint(n);
    }
    if let Some(n) = signed_of(value) {
        return Json::signed(n);
    }
    if let Some(text) = number_text(value) {
        return Json::fraction(text.as_str());
    }
    if let Some(text) = text_of(value) {
        return Json::text(text);
    }
    if let Some(items) = items_of(value) {
        let mut taken: Vec<Json> = Vec::new();
        let mut i: usize = 0;
        while i < items.len()
            invariant
                i <= items.len(),
                taken.len() == i,
                json_tree(*value) == JsonValue::Array(json_trees(items@)),
                forall|k: int| 0 <= k < i ==> (#[trigger] taken@[k])@ == json_tree(items@[k]),
            decreases items.len() - i,
        {
            proof {
                let all = json_trees(items@);
                assert(all[i as int] == json_tree(items@[i as int]));
                assert(decreases_to!(all => all[i as int]));
                let whole = json_tree(*value);
                assert(decreases_to!(whole => whole->Array_0));
            }
            taken.push(take_value(&items[i]));
            i = i + 1;
        }
        assert(values(taken@) =~= json_trees(items@));
        return Json::array(taken);
    }
    match names_of(value) {
        Some(names) => Json::object(take_members(value, &names)),
        None => Json::null(),
    }
}

/// Takes over the members of an object, whose names are `names`.
fn take_members(value: &serde_json::Value, names: &Vec<String>) -> (taken: JsonObject)
    requires
        json_tree(*value) matches JsonValue::Object(members) && forall|name: Seq<char>| #[trigger]
            members.contains_key(name) <==> texts(names@).contains(name),
    ensures
        json_tree(*value) == JsonValue::Object(taken@),
    decreases json_tree(*value), 0nat,
{
    let ghost whole = json_tree(*value)->Object_0;
    let ghost all = texts(names@);
    proof {
        vstd::seq_lib::seq_to_set_is_finite(all);
        assert(whole.dom() =~= all.to_set());
    }
    let mut taken: JsonObject = JsonObject::new();
    let mut i: usize = 0;
    while i < names.len()
        invariant
            i <= names.len(),
            all == texts(names@),
            json_tree(*value) == JsonValue::Object(whole),
            whole.dom().finite(),
            forall|name: Seq<char>| #[trigger] whole.contains_key(name) <==> all.contains(name),
            forall|name: Seq<char>| #[trigger]
                taken@.contains_key(name) <==> all.take(i as int).contains(name),
            forall|name: Seq<char>| #[trigger]
                taken@.contains_key(name) ==> whole.contains_key(name) && taken@[name]
                    == whole[name],
        decreases names.len() - i,
    {
        let name: &str = names[i].as_str();
        assert(all[i as int] == name@);
        assert(all.contains(name@));
        assert(whole.contains_key(name@));
        match member_of(value, name) {
            Some(found) => {
                proof {
                    assert(decreases_to!(whole => whole[name@]));
                    let object = json_tree(*value);
                    assert(decreases_to!(object => object->Object_0));
                }
                let ghost before = taken@;
                taken.insert(name, take_value(found));
                let ghost seen = all.take(i as int);
                let ghost now = all.take(i + 1);
                assert(now =~= seen.push(name@));
                assert forall|k: Seq<char>| #[trigger] taken@.contains_key(k) <==> now.contains(
                    k,
                ) by {
                    if before.contains_key(k) {
                        let j = choose|j: int| 0 <= j < seen.len() && seen[j] == k;
                        assert(now[j] == k);
                    }
                    if k == name@ {
                        assert(now[i as int] == k);
                    }
                    if now.contains(k) && k != name@ {
                        let j = choose|j: int| 0 <= j < now.len() && now[j] == k;
                        assert(seen[j] == k);
                    }
                }
            },
            None => {},
        }
        i = i + 1;
    }
    assert(all.take(i as int) =~= all);
    assert(taken@ =~= whole);
    taken
}

/// Reads a JSON text.
pub fn read(text: &str) -> (json: Result<Json, String>)
    ensures
        match json {
            Ok(json) => json_document(text@) == Ok::<JsonValue, Seq<char>>(json@),
            Err(message) => json_document(text@) == Err::<JsonValue, Seq<char>>(message@),
        },
{
    match read_document(text) {
        Ok(value) => Ok(take_value(&value)),
        Err(message) => Err(message),
    }
}

/// Reads a TOML text.
pub fn read_toml(text: &str) -> (json: Result<Json, String>)
    ensures
        match json {
            Ok(json) => toml_document(text@) == Ok::<JsonValue, Seq<char>>(json@),
            Err(message) => toml_document(text@) == Err::<JsonValue, Seq<char>>(message@),
        },
{
    match read_toml_document(text) {
        Ok(value) => Ok(take_value(&value)),
        Err(message) => Err(message),
    }
}

} // verus!

//! JSON values, as the wire protocol reads and writes them.

use vstd::prelude::*;

use crate::text::{same_text, texts};

verus! {

/// A JSON value.
#[derive(Debug)]
pub enum Json {
    Null,
    Bool(bool),
    /// A whole number that is not negative.
    Uint(u64),
    /// A negative whole number.
    Negative(i64),
    /// Any other number, as it is written. No request reads one.
    Fraction(String),
    Text(String),
    Array(Vec<Json>),
    Object(JsonObject),
}

/// The members of a JSON object. Of two members with one name the later counts.
#[derive(Debug)]
pub struct JsonObject {
    members: Vec<(String, Json)>,
}

/// What a JSON value says.
pub enum JsonValue {
    Null,
    Bool(bool),
    Uint(u64),
    Negative(i64),
    Fraction(Seq<char>),
    Text(Seq<char>),
    Array(Seq<JsonValue>),
    Object(Map<Seq<char>, JsonValue>),
}

/// What `json` says.
pub closed spec fn meaning(json: Json) -> JsonValue
    decreases json,
{
    match json {
        Json::Null => JsonValue::Null,
        Json::Bool(b) => JsonValue::Bool(b),
        Json::Uint(n) => JsonValue::Uint(n),
        Json::Negative(n) => JsonValue::Negative(n),
        Json::Fraction(text) => JsonValue::Fraction(text@),
        Json::Text(s) => JsonValue::Text(s@),
        Json::Array(items) => JsonValue::Array(meanings(items@)),
        Json::Object(object) => JsonValue::Object(members_meaning(object.members@)),
    }
}

/// What the items of an array say.
pub closed spec fn meanings(items: Seq<Json>) -> Seq<JsonValue>
    decreases items,
{
    if items.len() == 0 {
        Seq::empty()
    } else {
        meanings(items.drop_last()).push(meaning(items.last()))
    }
}

/// What the members of an object say.
pub closed spec fn members_meaning(members: Seq<(String, Json)>) -> Map<Seq<char>, JsonValue>
    decreases members,
{
    if members.len() == 0 {
        Map::empty()
    } else {
        members_meaning(members.drop_last()).insert(members.last().0@, meaning(members.last().1))
    }
}

impl View for Json {
    type V = JsonValue;

    closed spec fn view(&self) -> JsonValue {
        meaning(*self)
    }
}

impl View for JsonObject {
    type V = Map<Seq<char>, JsonValue>;

    closed spec fn view(&self) -> Map<Seq<char>, JsonValue> {
        members_meaning(self.members@)
    }
}

/// The values of a list.
pub open spec fn values(items: Seq<Json>) -> Seq<JsonValue> {
    items.map_values(|item: Json| item@)
}

/// The meaning of an array is the meaning of each item in turn.
proof fn lemma_meanings(items: Seq<Json>)
    ensures
        meanings(items) == values(items),
    decreases items.len(),
{
    if items.len() > 0 {
        lemma_meanings(items.drop_last());
        assert(values(items) =~= values(items.drop_last()).push(items.last()@));
    } else {
        assert(values(items) =~= Seq::<JsonValue>::empty());
    }
}

impl JsonObject {
    /// An object without members.
    pub fn new() -> (object: JsonObject)
        ensures
            object@ == Map::<Seq<char>, JsonValue>::empty(),
    {
        JsonObject { members: Vec::new() }
    }

    /// Sets the member `name` to `value`.
    pub fn insert(&mut self, name: &str, value: Json)
        ensures
            final(self)@ == old(self)@.insert(name@, value@),
    {
        let ghost before = self.members@;
        self.members.push((name.to_owned(), value));
        assert(self.members@.drop_last() =~= before);
    }

    /// The member `name`.
    pub fn get(&self, name: &str) -> (value: Option<&Json>)
        ensures
            match value {
                Some(value) => self@.contains_key(name@) && self@[name@] == value@,
                None => !self@.contains_key(name@),
            },
    {
        let mut i: usize = self.members.len();
        assert(self.members@.take(i as int) =~= self.members@);
        while i > 0
            invariant
                i <= self.members.len(),
                self@.contains_key(name@) == members_meaning(
                    self.members@.take(i as int),
                ).contains_key(name@),
                self@.contains_key(name@) ==> self@[name@] == members_meaning(
                    self.members@.take(i as int),
                )[name@],
            decreases i,
        {
            assert(self.members@.take(i as int).drop_last() =~= self.members@.take(i - 1));
            if same_text(self.members[i - 1].0.as_str(), name) {
                return Some(&self.members[i - 1].1);
            }
            i = i - 1;
        }
        None
    }

    /// The names of the members.
    pub fn names(&self) -> (names: Vec<String>)
        ensures
            forall|name: Seq<char>| #[trigger]
                self@.contains_key(name) <==> texts(names@).contains(name),
    {
        let mut names: Vec<String> = Vec::new();
        let mut i: usize = 0;
        assert(self.members@.take(0) =~= Seq::<(String, Json)>::empty());
        while i < self.members.len()
            invariant
                i <= self.members.len(),
                forall|name: Seq<char>| #[trigger]
                    members_meaning(self.members@.take(i as int)).contains_key(name) <==> texts(
                        names@,
                    ).contains(name),
            decreases self.members.len() - i,
        {
            let ghost before = texts(names@);
            let ghost added = self.members@[i as int].0@;
            assert(self.members@.take(i + 1).drop_last() =~= self.members@.take(i as int));
            names.push(self.members[i].0.clone());
            let ghost after = texts(names@);
            assert(after =~= before.push(added));
            assert forall|name: Seq<char>| #[trigger]
                members_meaning(self.members@.take(i + 1)).contains_key(name)
                    <==> after.contains(name) by {
                if members_meaning(self.members@.take(i as int)).contains_key(name) {
                    let k = choose|k: int| 0 <= k < before.len() && before[k] == name;
                    assert(after[k] == name);
                }
                if name == added {
                    assert(after[before.len() as int] == name);
                }
                if after.contains(name) && name != added {
                    let k = choose|k: int| 0 <= k < after.len() && after[k] == name;
                    assert(before[k] == name);
                }
            }
            i = i + 1;
        }
        assert(self.members@.take(i as int) =~= self.members@);
        names
    }

    /// The members in the order in which they were set.
    pub fn members(&self) -> (members: &Vec<(String, Json)>)
        ensures
            members_meaning(members@) == self@,
    {
        &self.members
    }
}

/// The member `name` of a value, if the value is an object and has it.
pub open spec fn member(value: JsonValue, name: Seq<char>) -> Option<JsonValue> {
    match value {
        JsonValue::Object(members) => if members.contains_key(name) {
            Some(members[name])
        } else {
            None
        },
        _ => None,
    }
}

/// The text of the member `name`, if there is one and it is a text.
pub open spec fn text_member(value: JsonValue, name: Seq<char>) -> Option<Seq<char>> {
    match member(value, name) {
        Some(JsonValue::Text(text)) => Some(text),
        _ => None,
    }
}

/// The number in the member `name`, if there is one and it is a whole number
/// that is not negative.
pub open spec fn uint_member(value: JsonValue, name: Seq<char>) -> Option<u64> {
    match member(value, name) {
        Some(JsonValue::Uint(n)) => Some(n),
        _ => None,
    }
}

/// The texts among the items of a list, in order.
pub open spec fn texts_among(items: Seq<JsonValue>) -> Seq<Seq<char>>
    decreases items.len(),
{
    if items.len() == 0 {
        Seq::empty()
    } else {
        match items.last() {
            JsonValue::Text(text) => texts_among(items.drop_last()).push(text),
            _ => texts_among(items.drop_last()),
        }
    }
}

/// The texts in the array under the member `name`; none if there is no array.
pub open spec fn texts_member(value: JsonValue, name: Seq<char>) -> Seq<Seq<char>> {
    match member(value, name) {
        Some(JsonValue::Array(items)) => texts_among(items),
        _ => Seq::empty(),
    }
}

impl Json {
    /// The value of a text.
    pub fn text(text: &str) -> (json: Json)
        ensures
            json@ == JsonValue::Text(text@),
    {
        Json::Text(text.to_owned())
    }

    /// The value of a truth.
    pub fn truth(b: bool) -> (json: Json)
        ensures
            json@ == JsonValue::Bool(b),
    {
        Json::Bool(b)
    }

    /// The value of a whole number.
    pub fn uint(n: u64) -> (json: Json)
        ensures
            json@ == JsonValue::Uint(n),
    {
        Json::Uint(n)
    }

    /// The null value.
    pub fn null() -> (json: Json)
        ensures
            json@ == JsonValue::Null,
    {
        Json::Null
    }

    /// The value of a signed whole number.
    pub fn signed(n: i64) -> (json: Json)
        ensures
            json@ == if n >= 0 {
                JsonValue::Uint(n as u64)
            } else {
                JsonValue::Negative(n)
            },
    {
        if n >= 0 {
            Json::Uint(n as u64)
        } else {
            Json::Negative(n)
        }
    }

    /// The value of a number that is written as `text` and is not whole.
    pub fn fraction(text: &str) -> (json: Json)
        ensures
            json@ == JsonValue::Fraction(text@),
    {
        Json::Fraction(text.to_owned())
    }

    /// The value of an array.
    pub fn array(items: Vec<Json>) -> (json: Json)
        ensures
            json@ == JsonValue::Array(values(items@)),
    {
        proof {
            lemma_meanings(items@);
        }
        Json::Array(items)
    }

    /// The value of an object.
    pub fn object(object: JsonObject) -> (json: Json)
        ensures
            json@ == JsonValue::Object(object@),
    {
        Json::Object(object)
    }

    /// The member `name`, if this is an object that has it.
    pub fn get(&self, name: &str) -> (value: Option<&Json>)
        ensures
            match value {
                Some(value) => member(self@, name@) == Some(value@),
                None => member(self@, name@) is None,
            },
    {
        match self {
            Json::Object(object) => object.get(name),
            _ => None,
        }
    }

    /// The text, if this is one.
    pub fn as_text(&self) -> (text: Option<&str>)
        ensures
            match text {
                Some(text) => self@ == JsonValue::Text(text@),
                None => !(self@ is Text),
            },
    {
        match self {
            Json::Text(text) => Some(text.as_str()),
            _ => None,
        }
    }

    /// The truth, if this is one.
    pub fn as_truth(&self) -> (truth: Option<bool>)
        ensures
            match truth {
                Some(truth) => self@ == JsonValue::Bool(truth),
                None => !(self@ is Bool),
            },
    {
        match self {
            Json::Bool(truth) => Some(*truth),
            _ => None,
        }
    }

    /// The whole number, if this is one that is not negative.
    pub fn as_uint(&self) -> (n: Option<u64>)
        ensures
            match n {
                Some(n) => self@ == JsonValue::Uint(n),
                None => !(self@ is Uint),
            },
    {
        match self {
            Json::Uint(n) => Some(*n),
            _ => None,
        }
    }

    /// The items, if this is an array.
    pub fn as_array(&self) -> (items: Option<&Vec<Json>>)
        ensures
            match items {
                Some(items) => self@ == JsonValue::Array(values(items@)),
                None => !(self@ is Array),
            },
    {
        match self {
            Json::Array(items) => {
                proof {
                    lemma_meanings(items@);
                }
                Some(items)
            },
            _ => None,
        }
    }

    /// The names of the members, if this is an object.
    pub fn names(&self) -> (names: Option<Vec<String>>)
        ensures
            match names {
                Some(names) => self@ matches JsonValue::Object(members) && forall|
                    name: Seq<char>,
                | #[trigger]
                    members.contains_key(name) <==> texts(names@).contains(name),
                None => !(self@ is Object),
            },
    {
        match self {
            Json::Object(object) => {
                let names: Vec<String> = object.names();
                assert(self@ == JsonValue::Object(object@));
                assert forall|name: Seq<char>| #[trigger]
                    self@->Object_0.contains_key(name) <==> texts(names@).contains(name) by {
                    assert(object@.contains_key(name) <==> texts(names@).contains(name));
                }
                Some(names)
            },
            _ => None,
        }
    }

    /// The text of the member `name`.
    pub fn get_text(&self, name: &str) -> (text: Option<&str>)
        ensures
            match text {
                Some(text) => text_member(self@, name@) == Some(text@),
                None => text_member(self@, name@) is None,
            },
    {
        match self.get(name) {
            Some(value) => value.as_text(),
            None => None,
        }
    }

    /// The whole number in the member `name`.
    pub fn get_uint(&self, name: &str) -> (n: Option<u64>)
        ensures
            n == uint_member(self@, name@),
    {
        match self.get(name) {
            Some(value) => match value {
                Json::Uint(n) => Some(*n),
                _ => None,
            },
            None => None,
        }
    }

    /// The texts in the array under the member `name`.
    pub fn get_texts(&self, name: &str) -> (out: Vec<String>)
        ensures
            texts(out@) == texts_member(self@, name@),
    {
        let mut out: Vec<String> = Vec::new();
        assert(texts(out@) =~= Seq::<Seq<char>>::empty());
        if let Some(Json::Array(items)) = self.get(name) {
            proof {
                lemma_meanings(items@);
            }
            let ghost all = values(items@);
            let mut i: usize = 0;
            assert(all.take(0) =~= Seq::<JsonValue>::empty());
            while i < items.len()
                invariant
                    i <= items.len(),
                    all == values(items@),
                    texts(out@) == texts_among(all.take(i as int)),
                decreases items.len() - i,
            {
                assert(all.take(i + 1).drop_last() =~= all.take(i as int));
                assert(all.take(i + 1).last() == items@[i as int]@);
                if let Json::Text(text) = &items[i] {
                    let ghost before = texts(out@);
                    out.push(text.clone());
                    assert(texts(out@) =~= before.push(text@));
                }
                i = i + 1;
            }
            assert(all.take(i as int) =~= all);
        }
        out
    }
}

} // verus!

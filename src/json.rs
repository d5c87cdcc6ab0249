//! JSON values as the library reads and writes them; `serde_json` does the
//! text work.

use vstd::prelude::*;

verus! {

/// `serde_json::Value`, only handed between the two conversions below.
#[verifier::external_type_specification]
#[verifier::external_body]
pub struct ExValue(serde_json::Value);

/// A JSON value. A number keeps its text; an object keeps its members in the
/// order `serde_json` walks them, each key once.
#[derive(Debug)]
pub enum Json {
    Null,
    Bool(bool),
    Number(String),
    Str(String),
    Array(Vec<Json>),
    Object(Vec<(String, Json)>),
}

/// What `serde_json` reads from a text, if it is JSON.
pub uninterp spec fn json_parse_of(text: Seq<char>) -> Option<Json>;

/// The compact text that `serde_json` writes for a value; a `Number` whose
/// text is no JSON number is written as `null`.
pub uninterp spec fn json_text_of(j: Json) -> Seq<char>;

/// Relies on nothing but the shape of `serde_json::Value`: each variant to
/// the same variant, a number to its text.
#[verifier::external_body]
fn json_from_value(v: &serde_json::Value) -> Json {
    match v {
        serde_json::Value::Null => Json::Null,
        serde_json::Value::Bool(b) => Json::Bool(*b),
        serde_json::Value::Number(n) => Json::Number(n.to_string()),
        serde_json::Value::String(s) => Json::Str(s.clone()),
        serde_json::Value::Array(a) => Json::Array(a.iter().map(json_from_value).collect()),
        serde_json::Value::Object(o) => Json::Object(
            o.iter().map(|(k, x)| (k.clone(), json_from_value(x))).collect(),
        ),
    }
}

/// Relies on nothing but the shape of `serde_json::Value`: each variant to
/// the same variant, a number's text through `serde_json::Number::from_str`.
#[verifier::external_body]
fn value_from_json(j: &Json) -> serde_json::Value {
    match j {
        Json::Null => serde_json::Value::Null,
        Json::Bool(b) => serde_json::Value::Bool(*b),
        Json::Number(n) => match n.parse::<serde_json::Number>() {
            Ok(x) => serde_json::Value::Number(x),
            Err(_) => serde_json::Value::Null,
        },
        Json::Str(s) => serde_json::Value::String(s.clone()),
        Json::Array(a) => serde_json::Value::Array(a.iter().map(value_from_json).collect()),
        Json::Object(o) => serde_json::Value::Object(
            o.iter().map(|(k, x)| (k.clone(), value_from_json(x))).collect(),
        ),
    }
}

/// Relies on `serde_json::from_str::<serde_json::Value>`: the value a text
/// holds, or an error where it is no JSON.
#[verifier::external_body]
fn parse_json(text: &str) -> (r: Option<Json>)
    ensures
        r == json_parse_of(text@),
{
    match serde_json::from_str::<serde_json::Value>(text) {
        Ok(v) => Some(json_from_value(&v)),
        Err(_) => None,
    }
}

/// Relies on `serde_json::to_string` of a `serde_json::Value`, which
/// writes compact JSON.
#[verifier::external_body]
fn render_json(j: &Json) -> (r: String)
    ensures
        r@ == json_text_of(*j),
{
    serde_json::Value::to_string(&value_from_json(j))
}

/// The value of the first member named `key`.
pub open spec fn lookup(members: Seq<(String, Json)>, key: Seq<char>) -> Option<Json>
    decreases members.len(),
{
    if members.len() == 0 {
        None
    } else if members[0].0@ == key {
        Some(members[0].1)
    } else {
        lookup(members.drop_first(), key)
    }
}

/// The member `key` of an object; nothing for any other value.
pub open spec fn field(j: Option<Json>, key: Seq<char>) -> Option<Json> {
    match j {
        Some(Json::Object(members)) => lookup(members@, key),
        _ => None,
    }
}

/// The text of a string value.
pub open spec fn text(j: Option<Json>) -> Option<Seq<char>> {
    match j {
        Some(Json::Str(s)) => Some(s@),
        _ => None,
    }
}

/// The first element of a non-empty array.
pub open spec fn first_item(j: Option<Json>) -> Option<Json> {
    match j {
        Some(Json::Array(items)) => if items@.len() > 0 {
            Some(items@[0])
        } else {
            None
        },
        _ => None,
    }
}

impl Json {
    /// Reads a JSON text; `None` where it is no JSON.
    pub fn parse(text: &str) -> (r: Option<Json>)
        ensures
            r == json_parse_of(text@),
    {
        parse_json(text)
    }

    /// The compact JSON text of the value.
    pub fn to_text(&self) -> (r: String)
        ensures
            r@ == json_text_of(*self),
    {
        render_json(self)
    }

    /// The member `key`, where the value is an object that has one.
    pub fn get(&self, key: &String) -> (r: Option<&Json>)
        ensures
            match r {
                Some(v) => field(Some(*self), key@) == Some(*v),
                None => field(Some(*self), key@) is None,
            },
    {
        match self {
            Json::Object(members) => {
                let mut i: usize = 0;
                assert(members@.skip(0) =~= members@);
                while i < members.len()
                    invariant
                        *self == Json::Object(*members),
                        i <= members@.len(),
                        lookup(members@, key@) == lookup(members@.skip(i as int), key@),
                    decreases members@.len() - i,
                {
                    assert(members@.skip(i as int).drop_first() =~= members@.skip(i + 1));
                    assert(members@.skip(i as int)[0] == members@[i as int]);
                    if members[i].0 == *key {
                        return Some(&members[i].1);
                    }
                    i = i + 1;
                }
                None
            },
            _ => None,
        }
    }

    /// The text, where the value is a string.
    pub fn as_str(&self) -> (r: Option<&String>)
        ensures
            match r {
                Some(s) => text(Some(*self)) == Some(s@),
                None => text(Some(*self)) is None,
            },
    {
        match self {
            Json::Str(s) => Some(s),
            _ => None,
        }
    }

    /// The first element, where the value is a non-empty array.
    pub fn first(&self) -> (r: Option<&Json>)
        ensures
            match r {
                Some(v) => first_item(Some(*self)) == Some(*v),
                None => first_item(Some(*self)) is None,
            },
    {
        match self {
            Json::Array(items) => if items.len() > 0 {
                Some(&items[0])
            } else {
                None
            },
            _ => None,
        }
    }
}

} // verus!

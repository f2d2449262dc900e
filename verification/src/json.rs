//! JSON values as the two clients' protocols read and write them.

use vstd::prelude::*;
use vstd::string::StringExecFns;

verus! {

/// A JSON value. A number that is an integer in the range of `i64` is an `Int`; any
/// other number is a `Number`, of which the protocols read nothing.
#[derive(Debug, PartialEq, Eq)]
pub enum Json {
    Null,
    Bool(bool),
    Int(i64),
    Number,
    Str(String),
    Array(Vec<Json>),
    /// The members in their order. Where a name stands twice, the first one counts.
    Object(Vec<(String, Json)>),
}

/// What a [`Json`] holds.
pub enum JsonView {
    Null,
    Bool(bool),
    Int(i64),
    Number,
    Str(Seq<char>),
    Array(Seq<JsonView>),
    Object(Seq<(Seq<char>, JsonView)>),
}

/// What a JSON value holds, read down to its leaves.
pub open spec fn json_view(value: Json) -> JsonView
    decreases value,
{
    match value {
        Json::Null => JsonView::Null,
        Json::Bool(b) => JsonView::Bool(b),
        Json::Int(n) => JsonView::Int(n),
        Json::Number => JsonView::Number,
        Json::Str(s) => JsonView::Str(s@),
        Json::Array(items) => JsonView::Array(
            Seq::new(
                items@.len(),
                |i: int|
                    if 0 <= i < items@.len() {
                        json_view(items@[i])
                    } else {
                        JsonView::Null
                    },
            ),
        ),
        Json::Object(members) => JsonView::Object(
            Seq::new(
                members@.len(),
                |i: int|
                    if 0 <= i < members@.len() {
                        (members@[i].0@, json_view(members@[i].1))
                    } else {
                        (Seq::empty(), JsonView::Null)
                    },
            ),
        ),
    }
}

impl View for Json {
    type V = JsonView;

    open spec fn view(&self) -> JsonView {
        json_view(*self)
    }
}

impl DeepView for Json {
    type V = JsonView;

    open spec fn deep_view(&self) -> JsonView {
        json_view(*self)
    }
}

/// The value of the first member named `name` among the members from `from` on.
pub open spec fn find_member(
    members: Seq<(Seq<char>, JsonView)>,
    name: Seq<char>,
    from: int,
) -> Option<JsonView>
    decreases members.len() - from,
{
    if from < 0 || from >= members.len() {
        None
    } else if members[from].0 == name {
        Some(members[from].1)
    } else {
        find_member(members, name, from + 1)
    }
}

impl JsonView {
    /// The member `name` of an object; none where the value is no object or has no
    /// such member.
    pub open spec fn member(self, name: Seq<char>) -> Option<JsonView> {
        match self {
            JsonView::Object(members) => find_member(members, name, 0),
            _ => None,
        }
    }

    /// The elements of an array; none where the value is no array.
    pub open spec fn as_array(self) -> Option<Seq<JsonView>> {
        match self {
            JsonView::Array(items) => Some(items),
            _ => None,
        }
    }

    /// The text of a string; none where the value is no string.
    pub open spec fn as_str(self) -> Option<Seq<char>> {
        match self {
            JsonView::Str(s) => Some(s),
            _ => None,
        }
    }

    /// The integer of a number in the range of `i64`; none for any other value.
    pub open spec fn as_i64(self) -> Option<i64> {
        match self {
            JsonView::Int(n) => Some(n),
            _ => None,
        }
    }

    /// The text of the string member `name`; none where there is no such member or it
    /// is no string.
    pub open spec fn str_member(self, name: Seq<char>) -> Option<Seq<char>> {
        match self.member(name) {
            Some(value) => value.as_str(),
            None => None,
        }
    }

    /// The elements of the array member `name`; none where there is no such member or
    /// it is no array.
    pub open spec fn array_member(self, name: Seq<char>) -> Option<Seq<JsonView>> {
        match self.member(name) {
            Some(value) => value.as_array(),
            None => None,
        }
    }
}

impl Json {
    /// The string that holds `text`.
    pub fn string(text: &str) -> (json: Json)
        ensures
            json@ == JsonView::Str(text@),
    {
        Json::Str(String::from_str(text))
    }

    /// The array of `items`.
    pub fn array(items: Vec<Json>) -> (json: Json)
        ensures
            json@ == JsonView::Array(items.deep_view()),
    {
        let json = Json::Array(items);
        assert(json@->Array_0 =~= items.deep_view());
        json
    }

    /// The object of `members`.
    pub fn object(members: Vec<(String, Json)>) -> (json: Json)
        ensures
            json@ == JsonView::Object(members.deep_view()),
    {
        let json = Json::Object(members);
        assert(json@->Object_0 =~= members.deep_view());
        json
    }

    /// The member `name` of an object.
    pub fn get(&self, name: &str) -> (found: Option<&Json>)
        ensures
            found.deep_view() == self@.member(name@),
    {
        match self {
            Json::Object(members) => {
                let ghost ms = self@->Object_0;
                let mut i: usize = 0;
                while i < members.len()
                    invariant
                        i <= members.len(),
                        self@ == JsonView::Object(ms),
                        ms.len() == members.len(),
                        forall|k: int|
                            0 <= k < ms.len() ==> ms[k] == (
                                (#[trigger] members@[k]).0@,
                                json_view(members@[k].1),
                            ),
                        find_member(ms, name@, 0) == find_member(ms, name@, i as int),
                    decreases members.len() - i,
                {
                    let member = &members[i];
                    if crate::text::str_eq(member.0.as_str(), name) {
                        return Some(&member.1);
                    }
                    i = i + 1;
                }
                None
            },
            _ => None,
        }
    }

    /// The elements of an array.
    pub fn as_array(&self) -> (items: Option<&Vec<Json>>)
        ensures
            items.deep_view() == self@.as_array(),
    {
        match self {
            Json::Array(items) => {
                Some(items)
            },
            _ => None,
        }
    }

    /// The text of a string.
    pub fn as_str(&self) -> (text: Option<&str>)
        ensures
            text.deep_view() == self@.as_str(),
    {
        match self {
            Json::Str(s) => Some(s.as_str()),
            _ => None,
        }
    }

    /// The integer of a number in the range of `i64`.
    pub fn as_i64(&self) -> (n: Option<i64>)
        ensures
            n == self@.as_i64(),
    {
        match self {
            Json::Int(n) => Some(*n),
            _ => None,
        }
    }

    /// The text of the string member `name`.
    pub fn get_str(&self, name: &str) -> (text: Option<&str>)
        ensures
            text.deep_view() == self@.str_member(name@),
    {
        match self.get(name) {
            Some(value) => value.as_str(),
            None => None,
        }
    }

    /// The elements of the array member `name`.
    pub fn get_array(&self, name: &str) -> (items: Option<&Vec<Json>>)
        ensures
            items.deep_view() == self@.array_member(name@),
    {
        match self.get(name) {
            Some(value) => value.as_array(),
            None => None,
        }
    }
}

/// What the text holds as JSON, as `serde_json` reads it; none where it takes the
/// text for no JSON value.
pub uninterp spec fn parsed_json(text: Seq<char>) -> Option<JsonView>;

/// What a value of `serde_json` holds.
pub uninterp spec fn value_view(value: serde_json::Value) -> JsonView;

/// `serde_json::Value`, which is handed on as it comes and read through
/// [`value_view`] alone.
#[verifier::external_type_specification]
#[verifier::external_body]
pub struct ExValue(serde_json::Value);

/// `serde_json::from_str` for a `Value`: the value that the text holds, and nothing
/// where the text is rejected. What is read depends on the text alone.
#[verifier::external_body]
fn parse_value(text: &str) -> (value: Option<serde_json::Value>)
    ensures
        match value {
            Some(v) => parsed_json(text@) == Some(value_view(v)),
            None => parsed_json(text@) is None,
        },
{
    serde_json::from_str::<serde_json::Value>(text).ok()
}

/// The same JSON value in this crate's type, variant for variant: a number goes by
/// `Number::as_i64`, the members of an object come in the order in which
/// `serde_json::Map` hands them out.
#[verifier::external_body]
fn from_value(value: &serde_json::Value) -> (json: Json)
    ensures
        json@ == value_view(*value),
{
    match value {
        serde_json::Value::Null => Json::Null,
        serde_json::Value::Bool(b) => Json::Bool(*b),
        serde_json::Value::Number(n) => n.as_i64().map_or(Json::Number, Json::Int),
        serde_json::Value::String(s) => Json::Str(s.clone()),
        serde_json::Value::Array(items) => Json::Array(items.iter().map(from_value).collect()),
        serde_json::Value::Object(members) => Json::Object(
            members.iter().map(|(name, member)| (name.clone(), from_value(member))).collect(),
        ),
    }
}

impl Json {
    /// Reads a text as JSON.
    pub fn parse(text: &str) -> (json: Option<Json>)
        ensures
            json.deep_view() == parsed_json(text@),
    {
        match parse_value(text) {
            Some(value) => Some(from_value(&value)),
            None => None,
        }
    }
}

} // verus!

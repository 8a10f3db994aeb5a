//! JSON documents: the tree the library reads, its mathematical value, and
//! the calls into `serde_json` that produce it.

use crate::models::ParseError;
use vstd::prelude::*;

verus! {

/// A JSON document held as plain values. The members of an object keep the
/// order in which the parser hands them out.
#[derive(Debug)]
pub enum Json {
    Null,
    Bool(bool),
    /// A number, as its JSON text.
    Number(String),
    Text(String),
    Array(Vec<Json>),
    Object(Vec<Member>),
}

/// One member of a JSON object.
#[derive(Debug)]
pub struct Member {
    pub name: String,
    pub value: Json,
}

/// The mathematical value of a JSON document.
pub enum JsonValue {
    Null,
    Bool(bool),
    Number(Seq<char>),
    Text(Seq<char>),
    Array(Seq<JsonValue>),
    Object(Seq<MemberValue>),
}

/// The mathematical value of one member of a JSON object.
pub struct MemberValue {
    pub name: Seq<char>,
    pub value: JsonValue,
}

impl View for Json {
    type V = JsonValue;

    open spec fn view(&self) -> JsonValue
        decreases self,
    {
        match self {
            Json::Null => JsonValue::Null,
            Json::Bool(b) => JsonValue::Bool(*b),
            Json::Number(n) => JsonValue::Number(n@),
            Json::Text(t) => JsonValue::Text(t@),
            Json::Array(items) => JsonValue::Array(
                Seq::new(
                    items@.len(),
                    |i: int|
                        if 0 <= i < items@.len() {
                            items@[i]@
                        } else {
                            JsonValue::Null
                        },
                ),
            ),
            Json::Object(members) => JsonValue::Object(
                Seq::new(
                    members@.len(),
                    |i: int|
                        if 0 <= i < members@.len() {
                            MemberValue { name: members@[i].name@, value: members@[i].value@ }
                        } else {
                            MemberValue { name: Seq::empty(), value: JsonValue::Null }
                        },
                ),
            ),
        }
    }
}

/// The value of the first member named `key`, if there is one.
pub open spec fn lookup(members: Seq<MemberValue>, key: Seq<char>) -> Option<JsonValue>
    decreases members.len(),
{
    if members.len() == 0 {
        None
    } else if members[0].name == key {
        Some(members[0].value)
    } else {
        lookup(members.drop_first(), key)
    }
}

impl JsonValue {
    /// The member `key` of an object; `None` for anything but an object
    /// that has such a member.
    pub open spec fn member(self, key: Seq<char>) -> Option<JsonValue> {
        match self {
            JsonValue::Object(members) => lookup(members, key),
            _ => None,
        }
    }

    /// The element `i` of an array; `None` for anything but an array that
    /// is long enough.
    pub open spec fn element(self, i: int) -> Option<JsonValue> {
        match self {
            JsonValue::Array(items) => if 0 <= i < items.len() {
                Some(items[i])
            } else {
                None
            },
            _ => None,
        }
    }

    /// The member `key` of an object, `Null` where there is none: what
    /// indexing by a name gives.
    pub open spec fn get(self, key: Seq<char>) -> JsonValue {
        match self.member(key) {
            Some(v) => v,
            None => JsonValue::Null,
        }
    }

    /// The element `i` of an array, `Null` where there is none: what
    /// indexing by a number gives.
    pub open spec fn at(self, i: int) -> JsonValue {
        match self.element(i) {
            Some(v) => v,
            None => JsonValue::Null,
        }
    }

    /// The text of a string; `None` for anything else.
    pub open spec fn as_text(self) -> Option<Seq<char>> {
        match self {
            JsonValue::Text(t) => Some(t),
            _ => None,
        }
    }

    /// The members of an object, in order; `None` for anything else.
    pub open spec fn as_object(self) -> Option<Seq<MemberValue>> {
        match self {
            JsonValue::Object(members) => Some(members),
            _ => None,
        }
    }
}

/// `serde_json::Value`, carried through as it is; nothing inside it is
/// read but by `json_of_value`.
#[verifier::external_type_specification]
#[verifier::external_body]
pub struct ExValue(serde_json::Value);

/// `serde_json::Error`, carried through as it is.
#[verifier::external_type_specification]
#[verifier::external_body]
pub struct ExJsonError(serde_json::Error);

/// What a `serde_json::Value` holds: its tree, with the members of each
/// object in the order in which its map hands them out.
pub uninterp spec fn value_model(v: serde_json::Value) -> JsonValue;

/// The document that `serde_json::from_str` reads from a text; `None` where
/// it rejects the text.
pub uninterp spec fn json_document(text: Seq<char>) -> Option<JsonValue>;

/// Calls `serde_json::from_str` for a `serde_json::Value`. The contract
/// says nothing of JSON itself: it names the document read from a text,
/// so that the same text always stands for the same document, and ties a
/// rejection to the absence of one.
#[verifier::external_body]
fn value_from_str(text: &str) -> (r: Result<serde_json::Value, serde_json::Error>)
    ensures
        match r {
            Ok(v) => json_document(text@) == Some(value_model(v)),
            Err(_) => json_document(text@) is None,
        },
{
    serde_json::from_str::<serde_json::Value>(text)
}

/// Copies a `serde_json::Value` into a `Json`, variant by variant: a
/// number as the text `serde_json` prints for it, an array element by
/// element, an object member by member in the order of `Map::iter`. The
/// contract claims that the copy has the value the tree holds.
#[verifier::external_body]
fn json_of_value(v: &serde_json::Value) -> (r: Json)
    ensures
        r@ == value_model(*v),
{
    match v {
        serde_json::Value::Null => Json::Null,
        serde_json::Value::Bool(b) => Json::Bool(*b),
        serde_json::Value::Number(n) => Json::Number(n.to_string()),
        serde_json::Value::String(s) => Json::Text(s.clone()),
        serde_json::Value::Array(a) => Json::Array(a.iter().map(json_of_value).collect()),
        serde_json::Value::Object(m) => Json::Object(
            m.iter().map(|(k, x)| Member { name: k.clone(), value: json_of_value(x) }).collect(),
        ),
    }
}

/// The tree of the `serde_json::Value` that a document is copied into:
/// its numbers as `serde_json` reads and prints them, the members of each
/// object as its map keeps them. `None` where a number of the document is
/// none to `serde_json`.
pub uninterp spec fn written_tree(doc: JsonValue) -> Option<JsonValue>;

/// The text that `serde_json::to_string_pretty` prints for a tree; `None`
/// where it prints none.
pub uninterp spec fn pretty_text(tree: JsonValue) -> Option<Seq<char>>;

/// The indented JSON text of a document; `None` where it has none.
pub open spec fn written_text(doc: JsonValue) -> Option<Seq<char>> {
    match written_tree(doc) {
        Some(tree) => pretty_text(tree),
        None => None,
    }
}

/// Copies a `Json` into a `serde_json::Value`, variant by variant: a
/// number through `serde_json::Number`'s `from_str`, an array element by
/// element, an object member by member into a `serde_json::Map`. The
/// contract names the tree that the copy holds and ties a failure to the
/// absence of one.
#[verifier::external_body]
fn value_of_json(doc: &Json) -> (r: Result<serde_json::Value, serde_json::Error>)
    ensures
        match r {
            Ok(v) => written_tree(doc@) == Some(value_model(v)),
            Err(_) => written_tree(doc@) is None,
        },
{
    Ok(match doc {
        Json::Null => serde_json::Value::Null,
        Json::Bool(b) => serde_json::Value::Bool(*b),
        Json::Number(n) => serde_json::Value::Number(n.parse()?),
        Json::Text(t) => serde_json::Value::String(t.clone()),
        Json::Array(a) => serde_json::Value::Array(
            a.iter().map(value_of_json).collect::<Result<_, _>>()?,
        ),
        Json::Object(m) => serde_json::Value::Object(
            m.iter().map(|x| Ok((x.name.clone(), value_of_json(&x.value)?))).collect::<Result<_, serde_json::Error>>()?,
        ),
    })
}

/// Calls `serde_json::to_string_pretty` on a `serde_json::Value`. The
/// contract names the text printed for the tree that the value holds, and
/// ties a failure to the absence of one; it says nothing of how JSON is
/// written.
#[verifier::external_body]
fn text_of_value(v: &serde_json::Value) -> (r: Result<String, serde_json::Error>)
    ensures
        match r {
            Ok(t) => pretty_text(value_model(*v)) == Some(t@),
            Err(_) => pretty_text(value_model(*v)) is None,
        },
{
    serde_json::to_string_pretty(v)
}

impl Json {
    /// The document as an indented JSON text; `None` where it has none.
    pub fn to_text(&self) -> (r: Option<String>)
        ensures
            match r {
                Some(t) => written_text(self@) == Some(t@),
                None => written_text(self@) is None,
            },
    {
        match value_of_json(self) {
            Ok(v) => match text_of_value(&v) {
                Ok(t) => Some(t),
                Err(_) => None,
            },
            Err(_) => None,
        }
    }

    /// Reads a JSON text. Fails with `DecodeError` exactly where the text
    /// is no JSON document.
    pub fn parse(text: &str) -> (r: Result<Json, ParseError>)
        ensures
            match r {
                Ok(j) => json_document(text@) == Some(j@),
                Err(e) => e == ParseError::DecodeError && json_document(text@) is None,
            },
    {
        match value_from_str(text) {
            Ok(v) => Ok(json_of_value(&v)),
            Err(_) => Err(ParseError::DecodeError),
        }
    }

    /// The member `key` of an object.
    pub fn member(&self, key: &str) -> (r: Option<&Json>)
        ensures
            match r {
                Some(j) => self@.member(key@) == Some(j@),
                None => self@.member(key@) is None,
            },
    {
        match self {
            Json::Object(members) => {
                let wanted = key.to_owned();
                let ghost all = members_view(members@);
                proof {
                    lemma_object_view(*self);
                }
                assert(all.subrange(0, all.len() as int) =~= all);
                let mut i: usize = 0;
                while i < members.len()
                    invariant
                        i <= members.len(),
                        wanted@ == key@,
                        all.len() == members@.len(),
                        all == members_view(members@),
                        self@ == JsonValue::Object(all),
                        lookup(all, key@) == lookup(all.subrange(i as int, all.len() as int), key@),
                    decreases members.len() - i,
                {
                    proof {
                        let rest = all.subrange(i as int, all.len() as int);
                        assert(rest[0] == all[i as int]);
                        assert(all[i as int].name == members@[i as int].name@);
                        assert(all[i as int].value == members@[i as int].value@);
                        assert(rest.drop_first() =~= all.subrange(i + 1, all.len() as int));
                    }
                    if members[i].name == wanted {
                        return Some(&members[i].value);
                    }
                    i += 1;
                }
                None
            },
            _ => None,
        }
    }

    /// The element `i` of an array.
    pub fn element(&self, i: usize) -> (r: Option<&Json>)
        ensures
            match r {
                Some(j) => self@.element(i as int) == Some(j@),
                None => self@.element(i as int) is None,
            },
    {
        match self {
            Json::Array(items) => {
                proof {
                    lemma_array_view(*self);
                }
                if i < items.len() {
                    Some(&items[i])
                } else {
                    None
                }
            },
            _ => None,
        }
    }

    /// The text of a string.
    pub fn as_str(&self) -> (r: Option<&str>)
        ensures
            match r {
                Some(t) => self@.as_text() == Some(t@),
                None => self@.as_text() is None,
            },
    {
        match self {
            Json::Text(t) => Some(t.as_str()),
            _ => None,
        }
    }

    /// The members of an object, in order.
    pub fn as_object(&self) -> (r: Option<&Vec<Member>>)
        ensures
            match r {
                Some(members) => self@.as_object() == Some(members_view(members@)),
                None => self@.as_object() is None,
            },
    {
        match self {
            Json::Object(members) => {
                proof {
                    lemma_object_view(*self);
                }
                Some(members)
            },
            _ => None,
        }
    }
}

/// The values of the members of an object, in order.
pub open spec fn members_view(members: Seq<Member>) -> Seq<MemberValue> {
    Seq::new(
        members.len(),
        |i: int| MemberValue { name: members[i].name@, value: members[i].value@ },
    )
}

/// The values of the elements of an array, in order.
pub open spec fn items_view(items: Seq<Json>) -> Seq<JsonValue> {
    Seq::new(items.len(), |i: int| items[i]@)
}

/// The value of an object is the object of its members' values.
pub proof fn lemma_object_view(j: Json)
    requires
        j is Object,
    ensures
        j@ == JsonValue::Object(members_view(j->Object_0@)),
{
    match j {
        Json::Object(members) => {
            let s = j@->Object_0;
            assert(s.len() == members@.len());
            assert(s =~= members_view(members@));
        },
        _ => {},
    }
}

/// The value of an array is the array of its elements' values.
pub proof fn lemma_array_view(j: Json)
    requires
        j is Array,
    ensures
        j@ == JsonValue::Array(items_view(j->Array_0@)),
{
    match j {
        Json::Array(items) => {
            let s = j@->Array_0;
            assert(s.len() == items@.len());
            assert(s =~= items_view(items@));
        },
        _ => {},
    }
}

} // verus!

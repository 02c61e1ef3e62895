//! JSON documents as plain values: what is sent to the registry is built as one, and what the
//! registry answers is read as one.

use vstd::prelude::*;

use crate::text::same_text;

verus! {

/// A JSON document.
#[derive(Debug)]
pub enum Json {
    Null,
    Bool(bool),
    /// A number, as far as it is an unsigned integer of sixty-four bits.
    Number(Option<u64>),
    Text(String),
    List(Vec<Json>),
    /// The members of an object. Where a name occurs twice, the last one counts.
    Object(Vec<(String, Json)>),
}

/// The mathematical form of a JSON document.
pub enum JsonTree {
    Null,
    Bool(bool),
    Number(Option<u64>),
    Text(Seq<char>),
    List(Seq<JsonTree>),
    Object(Seq<(Seq<char>, JsonTree)>),
}

/// The member called `key`, the last of them; null where there is none.
pub open spec fn lookup(members: Seq<(Seq<char>, JsonTree)>, key: Seq<char>) -> JsonTree
    decreases members.len(),
{
    if members.len() == 0 {
        JsonTree::Null
    } else if members.last().0 == key {
        members.last().1
    } else {
        lookup(members.drop_last(), key)
    }
}

impl JsonTree {
    /// The member called `key` of an object; null where there is none or this is no object.
    pub open spec fn member(self, key: Seq<char>) -> JsonTree {
        match self {
            JsonTree::Object(members) => lookup(members, key),
            _ => JsonTree::Null,
        }
    }

    /// The text of a string.
    pub open spec fn text(self) -> Option<Seq<char>> {
        match self {
            JsonTree::Text(text) => Some(text),
            _ => None,
        }
    }

    /// The value of an unsigned integer.
    pub open spec fn unsigned(self) -> Option<u64> {
        match self {
            JsonTree::Number(number) => number,
            _ => None,
        }
    }

    /// The items of an array.
    pub open spec fn items(self) -> Option<Seq<JsonTree>> {
        match self {
            JsonTree::List(items) => Some(items),
            _ => None,
        }
    }
}

/// `serde_json::Value`, a parsed document.
#[verifier::external_type_specification]
#[verifier::external_body]
pub struct ExValue(serde_json::Value);

/// `serde_json::Error`, what is wrong with a text that is no document.
#[verifier::external_type_specification]
#[verifier::external_body]
pub struct ExError(serde_json::Error);

/// What a parsed document holds. Its members are in the order in which the parser keeps them.
pub uninterp spec fn value_tree(value: serde_json::Value) -> JsonTree;

/// The document that the bytes are the text of.
pub uninterp spec fn json_document(bytes: Seq<u8>) -> Option<JsonTree>;

/// One level of a parsed document.
enum Level<'a> {
    Null,
    Bool(bool),
    Number(Option<u64>),
    Text(String),
    List(&'a Vec<serde_json::Value>),
    Object(Vec<(String, &'a serde_json::Value)>),
}

/// `serde_json::from_slice`, into a `serde_json::Value`.
#[verifier::external_body]
fn outside_from_slice(bytes: &[u8]) -> (parsed: Result<serde_json::Value, serde_json::Error>)
    ensures
        match parsed {
            Ok(value) => json_document(bytes@) == Some(value_tree(value)),
            Err(_) => json_document(bytes@) is None,
        },
{
    serde_json::from_slice(bytes)
}

/// The variants of `serde_json::Value`, a number read by `Number::as_u64` and the members of an
/// object listed by `Map::iter`.
#[verifier::external_body]
fn outside_level(value: &serde_json::Value) -> (level: Level<'_>)
    ensures
        value_tree(*value) == (match level {
            Level::Null => JsonTree::Null,
            Level::Bool(value) => JsonTree::Bool(value),
            Level::Number(number) => JsonTree::Number(number),
            Level::Text(text) => JsonTree::Text(text@),
            Level::List(items) => JsonTree::List(
                Seq::new(items@.len(), |i: int| value_tree(items@[i])),
            ),
            Level::Object(members) => JsonTree::Object(
                Seq::new(members@.len(), |i: int| (members@[i].0@, value_tree(*members@[i].1))),
            ),
        }),
{
    match value {
        serde_json::Value::Null => Level::Null,
        serde_json::Value::Bool(value) => Level::Bool(*value),
        serde_json::Value::Number(number) => Level::Number(number.as_u64()),
        serde_json::Value::String(text) => Level::Text(text.clone()),
        serde_json::Value::Array(items) => Level::List(items),
        serde_json::Value::Object(members) => Level::Object(
            members.iter().map(|(name, value)| (name.clone(), value)).collect(),
        ),
    }
}

/// The plain form of a parsed document.
fn plain(value: &serde_json::Value) -> (json: Json)
    ensures
        json.tree() == value_tree(*value),
    decreases value_tree(*value),
{
    match outside_level(value) {
        Level::Null => Json::Null,
        Level::Bool(value) => Json::Bool(value),
        Level::Number(number) => Json::Number(number),
        Level::Text(text) => Json::Text(text),
        Level::List(items) => {
            let mut list: Vec<Json> = Vec::new();
            let ghost trees = value_tree(*value)->List_0;
            for i in 0..items.len()
                invariant
                    value_tree(*value) == JsonTree::List(trees),
                    trees == Seq::new(items@.len(), |i: int| value_tree(items@[i])),
                    list@.len() == i,
                    forall|k: int| 0 <= k < i ==> (#[trigger] list@[k]).tree() == trees[k],
            {
                proof {
                    assert(value_tree(items@[i as int]) == trees[i as int]);
                    assert(decreases_to!(value_tree(*value) => value_tree(*value)->List_0));
                    assert(decreases_to!(trees => trees[i as int]));
                }
                list.push(plain(&items[i]));
            }
            let json = Json::List(list);
            assert(json.tree()->List_0 =~= trees);
            json
        },
        Level::Object(members) => {
            let mut list: Vec<(String, Json)> = Vec::new();
            let ghost trees = value_tree(*value)->Object_0;
            for i in 0..members.len()
                invariant
                    value_tree(*value) == JsonTree::Object(trees),
                    trees == Seq::new(
                        members@.len(),
                        |i: int| (members@[i].0@, value_tree(*members@[i].1)),
                    ),
                    list@.len() == i,
                    forall|k: int|
                        0 <= k < i ==> ((#[trigger] list@[k]).0@, list@[k].1.tree()) == trees[k],
            {
                proof {
                    assert(trees[i as int] == (
                        members@[i as int].0@,
                        value_tree(*members@[i as int].1),
                    ));
                    assert(decreases_to!(value_tree(*value) => value_tree(*value)->Object_0));
                    assert(decreases_to!(trees => trees[i as int]));
                    assert(decreases_to!(trees[i as int] => trees[i as int].1));
                }
                list.push((members[i].0.clone(), plain(members[i].1)));
            }
            let json = Json::Object(list);
            assert(json.tree()->Object_0 =~= trees);
            json
        },
    }
}

/// Parses a JSON document.
pub fn parse_json(bytes: &[u8]) -> (json: Option<Json>)
    ensures
        match json {
            Some(json) => json_document(bytes@) == Some(json.tree()),
            None => json_document(bytes@) is None,
        },
{
    match outside_from_slice(bytes) {
        Ok(value) => Some(plain(&value)),
        Err(_) => None,
    }
}

impl Json {
    /// The mathematical form of the document.
    pub open spec fn tree(self) -> JsonTree
        decreases self,
    {
        match self {
            Json::Null => JsonTree::Null,
            Json::Bool(value) => JsonTree::Bool(value),
            Json::Number(number) => JsonTree::Number(number),
            Json::Text(text) => JsonTree::Text(text@),
            Json::List(items) => JsonTree::List(
                Seq::new(
                    items@.len(),
                    |i: int|
                        if 0 <= i < items@.len() {
                            items@[i].tree()
                        } else {
                            JsonTree::Null
                        },
                ),
            ),
            Json::Object(members) => JsonTree::Object(
                Seq::new(
                    members@.len(),
                    |i: int|
                        if 0 <= i < members@.len() {
                            (members@[i].0@, members@[i].1.tree())
                        } else {
                            (Seq::<char>::empty(), JsonTree::Null)
                        },
                ),
            ),
        }
    }

    /// The member called `key` of an object.
    pub fn member(&self, key: &str) -> (found: Option<&Json>)
        ensures
            match found {
                Some(json) => json.tree() == self.tree().member(key@),
                None => self.tree().member(key@) == JsonTree::Null,
            },
    {
        match self {
            Json::Object(members) => {
                let ghost all = self.tree()->Object_0;
                let mut i: usize = members.len();
                assert(all.take(i as int) =~= all);
                while i > 0
                    invariant
                        i <= members.len(),
                        self == Json::Object(*members),
                        all == self.tree()->Object_0,
                        all.len() == members.len(),
                        lookup(all, key@) == lookup(all.take(i as int), key@),
                    decreases i,
                {
                    i = i - 1;
                    proof {
                        assert(all.take(i + 1).drop_last() =~= all.take(i as int));
                        assert(all[i as int] == (members@[i as int].0@, members@[i as int].1.tree()));
                    }
                    if same_text(members[i].0.as_str(), key) {
                        return Some(&members[i].1);
                    }
                }
                None
            },
            _ => None,
        }
    }

    /// The text of a string.
    pub fn text(&self) -> (text: Option<&str>)
        ensures
            match text {
                Some(text) => self.tree().text() == Some(text@),
                None => self.tree().text() is None,
            },
    {
        match self {
            Json::Text(text) => Some(text.as_str()),
            _ => None,
        }
    }

    /// The value of an unsigned integer.
    pub fn unsigned(&self) -> (number: Option<u64>)
        ensures
            number == self.tree().unsigned(),
    {
        match self {
            Json::Number(number) => *number,
            _ => None,
        }
    }

    /// The items of an array.
    pub fn items(&self) -> (items: Option<&Vec<Json>>)
        ensures
            match items {
                Some(items) => self.tree().items() == Some(
                    Seq::new(items@.len(), |i: int| items@[i].tree()),
                ),
                None => self.tree().items() is None,
            },
    {
        match self {
            Json::List(items) => {
                assert(self.tree()->List_0 =~= Seq::new(items@.len(), |i: int| items@[i].tree()));
                Some(items)
            },
            _ => None,
        }
    }
}

} // verus!

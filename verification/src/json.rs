//! JSON values, as far as an answer of the balance service is read.

use vstd::prelude::*;

use crate::error::{outcome, view_option, AuthError, ErrorKind};

verus! {

/// A JSON value. Of a number only its value as a `u64` is kept, where it has one.
#[derive(Debug)]
pub enum Json {
    Null,
    Bool(bool),
    Number(Option<u64>),
    Text(String),
    List(Vec<Json>),
    /// The fields of an object, each by its key.
    Object(Vec<(String, Json)>),
}

/// What a [`Json`] holds.
pub enum JsonTree {
    Null,
    Bool(bool),
    Number(Option<u64>),
    Text(Seq<char>),
    List(Seq<JsonTree>),
    Object(Seq<(Seq<char>, JsonTree)>),
}

/// The first of the fields with a key.
pub open spec fn field_of(fields: Seq<(Seq<char>, JsonTree)>, key: Seq<char>) -> Option<JsonTree>
    decreases fields.len(),
{
    if fields.len() == 0 {
        None
    } else if fields[0].0 == key {
        Some(fields[0].1)
    } else {
        field_of(fields.drop_first(), key)
    }
}

impl JsonTree {
    /// The field of an object; anything else has none.
    pub open spec fn field(self, key: Seq<char>) -> Option<JsonTree> {
        match self {
            JsonTree::Object(fields) => field_of(fields, key),
            _ => None,
        }
    }

    /// The items of a list.
    pub open spec fn items(self) -> Option<Seq<JsonTree>> {
        match self {
            JsonTree::List(items) => Some(items),
            _ => None,
        }
    }

    /// The characters of a text.
    pub open spec fn characters(self) -> Option<Seq<char>> {
        match self {
            JsonTree::Text(characters) => Some(characters),
            _ => None,
        }
    }

    /// The value of a number that is a `u64`.
    pub open spec fn number(self) -> Option<u64> {
        match self {
            JsonTree::Number(number) => number,
            _ => None,
        }
    }
}

impl Json {
    /// What the value holds.
    pub open spec fn tree(self) -> JsonTree
        decreases self,
    {
        match self {
            Json::Null => JsonTree::Null,
            Json::Bool(b) => JsonTree::Bool(b),
            Json::Number(number) => JsonTree::Number(number),
            Json::Text(text) => JsonTree::Text(text@),
            Json::List(items) => JsonTree::List(
                Seq::new(
                    items@.len(),
                    |i: int|
                        if 0 <= i < items@.len() {
                            items@[i].tree()
                        } else {
                            JsonTree::Null
                        },
                ),
            ),
            Json::Object(fields) => JsonTree::Object(
                Seq::new(
                    fields@.len(),
                    |i: int|
                        if 0 <= i < fields@.len() {
                            (fields@[i].0@, fields@[i].1.tree())
                        } else {
                            (Seq::<char>::empty(), JsonTree::Null)
                        },
                ),
            ),
        }
    }
}

impl View for Json {
    type V = JsonTree;

    open spec fn view(&self) -> JsonTree {
        self.tree()
    }
}

impl Json {
    /// The field of an object under a key.
    pub fn get(&self, key: &str) -> (field: Option<&Json>)
        ensures
            view_option(field) == self@.field(key@),
    {
        match self {
            Json::Object(fields) => {
                let key_string = key.to_owned();
                let ghost all = self@->Object_0;
                let mut i: usize = 0;
                assert(all.skip(0) == all);
                while i < fields.len()
                    invariant
                        self == Json::Object(*fields),
                        self@ == JsonTree::Object(all),
                        all.len() == fields@.len(),
                        key_string@ == key@,
                        i <= fields@.len(),
                        field_of(all, key@) == field_of(all.skip(i as int), key@),
                    decreases fields@.len() - i,
                {
                    assert(all[i as int] == (fields@[i as int].0@, fields@[i as int].1@));
                    assert(all.skip(i as int)[0] == all[i as int]);
                    assert(all.skip(i as int).drop_first() == all.skip(i + 1));
                    if fields[i].0 == key_string {
                        return Some(&fields[i].1);
                    }
                    i = i + 1;
                }
                None
            },
            _ => None,
        }
    }

    /// The characters of a text.
    pub fn as_str(&self) -> (text: Option<&str>)
        ensures
            view_option(text) == self@.characters(),
    {
        match self {
            Json::Text(text) => Some(text.as_str()),
            _ => None,
        }
    }

    /// The value of a number that is a `u64`.
    pub fn as_u64(&self) -> (number: Option<u64>)
        ensures
            number == self@.number(),
    {
        match self {
            Json::Number(number) => *number,
            _ => None,
        }
    }
}

/// A JSON value of `serde_json`.
#[verifier::external_type_specification]
#[verifier::external_body]
pub struct ExValue(serde_json::Value);

/// What a JSON value of `serde_json` holds.
pub uninterp spec fn value_tree(value: serde_json::Value) -> JsonTree;

/// What a text holds, read as JSON, where it is JSON.
pub uninterp spec fn json_tree(text: Seq<char>) -> Option<JsonTree>;

/// `serde_json::from_str` reads a text into a value of `serde_json`. Trusted: whether it can, and
/// what the value then holds, depends on the text alone.
#[verifier::external_body]
fn read_value(text: &str) -> (result: Result<serde_json::Value, serde_json::Error>)
    ensures
        match result {
            Ok(value) => json_tree(text@) == Some(value_tree(value)),
            Err(_) => json_tree(text@) is None,
        },
{
    serde_json::from_str(text)
}

/// The variants of `serde_json::Value`. What a list or an object holds is still of `serde_json`.
enum ValueNode {
    Null,
    Bool(bool),
    Number(Option<u64>),
    Text(String),
    List(Vec<serde_json::Value>),
    Object(Vec<(String, serde_json::Value)>),
}

impl ValueNode {
    /// What the value holds.
    spec fn tree(self) -> JsonTree {
        match self {
            ValueNode::Null => JsonTree::Null,
            ValueNode::Bool(b) => JsonTree::Bool(b),
            ValueNode::Number(number) => JsonTree::Number(number),
            ValueNode::Text(text) => JsonTree::Text(text@),
            ValueNode::List(items) => JsonTree::List(
                items@.map_values(|item: serde_json::Value| value_tree(item)),
            ),
            ValueNode::Object(fields) => JsonTree::Object(
                fields@.map_values(
                    |field: (String, serde_json::Value)| (field.0@, value_tree(field.1)),
                ),
            ),
        }
    }
}

/// The variants of `serde_json::Value`, one for one, with `Number::as_u64` for the value of a
/// number, and the fields of an object as `serde_json::Map` hands them out. Trusted: what a value
/// holds is what its variant carries.
#[verifier::external_body]
fn open_value(value: serde_json::Value) -> (node: ValueNode)
    ensures
        value_tree(value) == node.tree(),
{
    match value {
        serde_json::Value::Null => ValueNode::Null,
        serde_json::Value::Bool(b) => ValueNode::Bool(b),
        serde_json::Value::Number(number) => ValueNode::Number(number.as_u64()),
        serde_json::Value::String(text) => ValueNode::Text(text),
        serde_json::Value::Array(items) => ValueNode::List(items),
        serde_json::Value::Object(fields) => ValueNode::Object(fields.into_iter().collect()),
    }
}

/// A variant holds what it carries: every item of a list and every field of an object, in their
/// order.
proof fn lemma_node_is_seen_as_it_is(node: ValueNode)
    ensures
        match node {
            ValueNode::Null => node.tree() == JsonTree::Null,
            ValueNode::Bool(b) => node.tree() == JsonTree::Bool(b),
            ValueNode::Number(number) => node.tree() == JsonTree::Number(number),
            ValueNode::Text(text) => node.tree() == JsonTree::Text(text@),
            ValueNode::List(items) => node.tree() matches JsonTree::List(seen) && seen.len()
                == items@.len() && forall|i: int|
                0 <= i < items@.len() ==> (#[trigger] seen[i]) == value_tree(items@[i]),
            ValueNode::Object(fields) => node.tree() matches JsonTree::Object(seen) && seen.len()
                == fields@.len() && forall|i: int|
                0 <= i < fields@.len() ==> (#[trigger] seen[i]) == (
                    fields@[i].0@,
                    value_tree(fields@[i].1),
                ),
        },
{
}

/// Takes a value of `serde_json` over, with all that it holds.
fn json_of_value(value: serde_json::Value) -> (json: Json)
    ensures
        json@ == value_tree(value),
    decreases value_tree(value),
{
    let ghost whole = value_tree(value);
    let node = open_value(value);
    proof {
        lemma_node_is_seen_as_it_is(node);
    }
    match node {
        ValueNode::Null => Json::Null,
        ValueNode::Bool(b) => Json::Bool(b),
        ValueNode::Number(number) => Json::Number(number),
        ValueNode::Text(text) => Json::Text(text),
        ValueNode::List(items) => {
            let ghost all = whole->List_0;
            // Values leave from the end, so `back` holds what was taken over in reverse.
            let mut rest = items;
            let mut back: Vec<Json> = Vec::new();
            while rest.len() > 0
                invariant
                    whole == value_tree(value),
                    whole == JsonTree::List(all),
                    rest@.len() + back@.len() == all.len(),
                    forall|i: int| 0 <= i < rest@.len() ==> value_tree(#[trigger] rest@[i]) == all[i],
                    forall|i: int|
                        0 <= i < back@.len() ==> (#[trigger] back@[i])@ == all[all.len() - 1 - i],
                decreases rest@.len(),
            {
                let ghost i = rest@.len() - 1;
                assert(value_tree(rest@[i]) == all[i]);
                assert(decreases_to!(whole => whole->List_0[i]));
                let item = rest.pop().unwrap();
                back.push(json_of_value(item));
            }
            let mut list: Vec<Json> = Vec::new();
            while back.len() > 0
                invariant
                    whole == JsonTree::List(all),
                    list@.len() + back@.len() == all.len(),
                    forall|i: int| 0 <= i < list@.len() ==> (#[trigger] list@[i])@ == all[i],
                    forall|i: int|
                        0 <= i < back@.len() ==> (#[trigger] back@[i])@ == all[all.len() - 1 - i],
                decreases back@.len(),
            {
                list.push(back.pop().unwrap());
            }
            let json = Json::List(list);
            assert(json@->List_0 =~= all);
            json
        },
        ValueNode::Object(fields) => {
            let ghost all = whole->Object_0;
            // Fields leave from the end, so `back` holds what was taken over in reverse.
            let mut rest = fields;
            let mut back: Vec<(String, Json)> = Vec::new();
            while rest.len() > 0
                invariant
                    whole == value_tree(value),
                    whole == JsonTree::Object(all),
                    rest@.len() + back@.len() == all.len(),
                    forall|i: int|
                        0 <= i < rest@.len() ==> ((#[trigger] rest@[i]).0@, value_tree(rest@[i].1))
                            == all[i],
                    forall|i: int|
                        0 <= i < back@.len() ==> ((#[trigger] back@[i]).0@, back@[i].1@)
                            == all[all.len() - 1 - i],
                decreases rest@.len(),
            {
                let ghost i = rest@.len() - 1;
                assert((rest@[i].0@, value_tree(rest@[i].1)) == all[i]);
                assert(decreases_to!(whole => whole->Object_0[i].1));
                let (key, field) = rest.pop().unwrap();
                back.push((key, json_of_value(field)));
            }
            let mut list: Vec<(String, Json)> = Vec::new();
            while back.len() > 0
                invariant
                    whole == JsonTree::Object(all),
                    list@.len() + back@.len() == all.len(),
                    forall|i: int|
                        0 <= i < list@.len() ==> ((#[trigger] list@[i]).0@, list@[i].1@) == all[i],
                    forall|i: int|
                        0 <= i < back@.len() ==> ((#[trigger] back@[i]).0@, back@[i].1@)
                            == all[all.len() - 1 - i],
                decreases back@.len(),
            {
                list.push(back.pop().unwrap());
            }
            let json = Json::Object(list);
            assert(json@->Object_0 =~= all);
            json
        },
    }
}

/// Reads a text as JSON.
pub fn parse_json(text: &str) -> (result: Result<Json, AuthError>)
    ensures
        outcome(result) == match json_tree(text@) {
            Some(tree) => Ok(tree),
            None => Err(ErrorKind::InvalidReply),
        },
{
    match read_value(text) {
        Ok(value) => Ok(json_of_value(value)),
        Err(error) => Err(AuthError::InvalidReply(error)),
    }
}

/// A key of an object gives the first field that has it, wherever the field stands, and nothing
/// where no field has it.
pub proof fn first_field_of_a_key_is_given(
    fields: Seq<(Seq<char>, JsonTree)>,
    key: Seq<char>,
    k: int,
)
    requires
        0 <= k <= fields.len(),
        k < fields.len() ==> fields[k].0 == key,
        forall|j: int| 0 <= j < k ==> (#[trigger] fields[j]).0 != key,
    ensures
        JsonTree::Object(fields).field(key) == if k < fields.len() {
            Some(fields[k].1)
        } else {
            None
        },
    decreases fields.len(),
{
    if k > 0 {
        let rest = fields.drop_first();
        assert(fields[0].0 != key);
        assert forall|j: int| 0 <= j < k - 1 implies (#[trigger] rest[j]).0 != key by {
            assert(rest[j] == fields[j + 1]);
        }
        first_field_of_a_key_is_given(rest, key, k - 1);
    }
}

/// Only an object has fields, only a list items, only a text characters, and only a number a value;
/// each gives what it holds.
pub proof fn values_give_what_they_hold(tree: JsonTree, key: Seq<char>)
    ensures
        !(tree is Object) ==> tree.field(key) is None,
        tree.items() == match tree {
            JsonTree::List(items) => Some(items),
            _ => None,
        },
        tree.characters() == match tree {
            JsonTree::Text(characters) => Some(characters),
            _ => None,
        },
        tree.number() == match tree {
            JsonTree::Number(number) => number,
            _ => None,
        },
{
}

/// A value is seen with all that it holds: every item of a list and every field of an object, in
/// their order.
pub proof fn json_is_seen_as_it_is(json: Json)
    ensures
        match json {
            Json::Null => json@ == JsonTree::Null,
            Json::Bool(b) => json@ == JsonTree::Bool(b),
            Json::Number(number) => json@ == JsonTree::Number(number),
            Json::Text(text) => json@ == JsonTree::Text(text@),
            Json::List(items) => json@ matches JsonTree::List(seen) && seen.len() == items@.len()
                && forall|i: int| 0 <= i < items@.len() ==> (#[trigger] seen[i]) == items@[i]@,
            Json::Object(fields) => json@ matches JsonTree::Object(seen) && seen.len()
                == fields@.len() && forall|i: int|
                0 <= i < fields@.len() ==> (#[trigger] seen[i]) == (
                    fields@[i].0@,
                    fields@[i].1@,
                ),
        },
{
}

} // verus!

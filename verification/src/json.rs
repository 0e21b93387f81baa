//! JSON documents.

use vstd::prelude::*;

use crate::text::same_text;

verus! {

/// What a JSON document says. A number is given by its text, and an object by
/// its fields in the order of their keys.
pub enum JsonTree {
    Null,
    Bool(bool),
    Number(Seq<char>),
    Text(Seq<char>),
    Array(Seq<JsonTree>),
    Object(Seq<(Seq<char>, JsonTree)>),
}

/// A JSON document.
pub enum Json {
    Null,
    Bool(bool),
    Number(String),
    Text(String),
    Array(Vec<Json>),
    Object(Vec<JsonField>),
}

/// A field of a JSON object.
pub struct JsonField {
    pub key: String,
    pub value: Json,
}

/// What a document says.
pub open spec fn tree_of(value: Json) -> JsonTree
    decreases value,
{
    match value {
        Json::Null => JsonTree::Null,
        Json::Bool(flag) => JsonTree::Bool(flag),
        Json::Number(text) => JsonTree::Number(text@),
        Json::Text(text) => JsonTree::Text(text@),
        Json::Array(items) => JsonTree::Array(trees_of(items@)),
        Json::Object(fields) => JsonTree::Object(fields_of(fields@)),
    }
}

/// What the items of an array say.
pub open spec fn trees_of(items: Seq<Json>) -> Seq<JsonTree>
    decreases items,
{
    if items.len() == 0 {
        seq![]
    } else {
        trees_of(items.drop_last()).push(tree_of(items.last()))
    }
}

/// What the fields of an object say.
pub open spec fn fields_of(fields: Seq<JsonField>) -> Seq<(Seq<char>, JsonTree)>
    decreases fields,
{
    if fields.len() == 0 {
        seq![]
    } else {
        fields_of(fields.drop_last()).push((fields.last().key@, tree_of(fields.last().value)))
    }
}

/// A value of the crate that reads JSON.
#[verifier::external_type_specification]
#[verifier::external_body]
pub struct ExValue(serde_json::Value);

/// An error of the crate that reads JSON.
#[verifier::external_type_specification]
#[verifier::external_body]
pub struct ExError(serde_json::Error);

/// What a `serde_json::Value` says.
pub uninterp spec fn value_tree(value: serde_json::Value) -> JsonTree;

/// What the text `bytes` says as a JSON document; `None` where it is none.
pub uninterp spec fn parsed_tree(bytes: Seq<u8>) -> Option<JsonTree>;

/// One level of a `serde_json::Value`.
pub enum JsonNode {
    Null,
    Bool(bool),
    Number(String),
    Text(String),
    Array(Vec<serde_json::Value>),
    Object(Vec<(String, serde_json::Value)>),
}

/// What a value with this first level says.
pub open spec fn node_tree(node: JsonNode) -> JsonTree {
    match node {
        JsonNode::Null => JsonTree::Null,
        JsonNode::Bool(flag) => JsonTree::Bool(flag),
        JsonNode::Number(text) => JsonTree::Number(text@),
        JsonNode::Text(text) => JsonTree::Text(text@),
        JsonNode::Array(items) => JsonTree::Array(
            Seq::new(items@.len(), |i: int| value_tree(items@[i])),
        ),
        JsonNode::Object(fields) => JsonTree::Object(
            Seq::new(fields@.len(), |i: int| (fields@[i].0@, value_tree(fields@[i].1))),
        ),
    }
}

/// `serde_json::from_slice`, which reads a `Value` from the text of a JSON
/// document or fails: what it reads depends on the text alone.
#[verifier::external_body]
fn read_value(bytes: &[u8]) -> (r: Result<serde_json::Value, serde_json::Error>)
    ensures
        parsed_tree(bytes@) == (match r {
            Ok(value) => Some(value_tree(value)),
            Err(_) => None,
        }),
{
    serde_json::from_slice(bytes)
}

/// The variants of `serde_json::Value`, one for one: an array gives its items
/// in order, an object its fields in the order of its map, and a number the
/// text that `Display` writes for it.
#[verifier::external_body]
fn open_value(value: serde_json::Value) -> (r: JsonNode)
    ensures
        value_tree(value) == node_tree(r),
{
    match value {
        serde_json::Value::Null => JsonNode::Null,
        serde_json::Value::Bool(flag) => JsonNode::Bool(flag),
        serde_json::Value::Number(number) => JsonNode::Number(number.to_string()),
        serde_json::Value::String(text) => JsonNode::Text(text),
        serde_json::Value::Array(items) => JsonNode::Array(items),
        serde_json::Value::Object(fields) => JsonNode::Object(fields.into_iter().collect()),
    }
}

/// A `serde_json::Value` as a document of this library.
fn json_from_value(value: serde_json::Value) -> (r: Json)
    ensures
        tree_of(r) == value_tree(value),
    decreases value_tree(value),
{
    let ghost tree = value_tree(value);
    match open_value(value) {
        JsonNode::Null => Json::Null,
        JsonNode::Bool(flag) => Json::Bool(flag),
        JsonNode::Number(text) => Json::Number(text),
        JsonNode::Text(text) => Json::Text(text),
        JsonNode::Array(items) => {
            let ghost whole = tree->Array_0;
            let mut list: Vec<Json> = Vec::new();
            assert(trees_of(list@) =~= whole.take(0));
            for item in iter: items
                invariant
                    iter.seq() == items@,
                    tree == JsonTree::Array(whole),
                    tree == value_tree(value),
                    whole == Seq::new(items@.len(), |i: int| value_tree(items@[i])),
                    trees_of(list@) == whole.take(iter.index() as int),
            {
                let ghost before = list@;
                let ghost i = iter.index() as int;
                assert(value_tree(item) == whole[i]);
                assert(decreases_to!(tree => tree->Array_0));
                assert(decreases_to!(whole => whole[i]));
                list.push(json_from_value(item));
                assert(list@.drop_last() =~= before);
                assert(whole.take(i + 1) =~= whole.take(i).push(whole[i]));
            }
            assert(whole.take(whole.len() as int) =~= whole);
            Json::Array(list)
        },
        JsonNode::Object(fields) => {
            let ghost whole = tree->Object_0;
            let mut list: Vec<JsonField> = Vec::new();
            assert(fields_of(list@) =~= whole.take(0));
            for field in iter: fields
                invariant
                    iter.seq() == fields@,
                    tree == JsonTree::Object(whole),
                    tree == value_tree(value),
                    whole == Seq::new(
                        fields@.len(),
                        |i: int| (fields@[i].0@, value_tree(fields@[i].1)),
                    ),
                    fields_of(list@) == whole.take(iter.index() as int),
            {
                let ghost before = list@;
                let ghost i = iter.index() as int;
                let (key, inner) = field;
                assert(value_tree(inner) == whole[i].1);
                assert(decreases_to!(tree => tree->Object_0));
                assert(decreases_to!(whole => whole[i]));
                assert(decreases_to!(whole[i] => whole[i].1));
                list.push(JsonField { key, value: json_from_value(inner) });
                assert(list@.drop_last() =~= before);
                assert(whole.take(i + 1) =~= whole.take(i).push(whole[i]));
            }
            assert(whole.take(whole.len() as int) =~= whole);
            Json::Object(list)
        },
    }
}

/// The document that the text `bytes` is; `None` where it is none.
pub fn parse_json(bytes: &[u8]) -> (r: Option<Json>)
    ensures
        match r {
            Some(value) => parsed_tree(bytes@) == Some(tree_of(value)),
            None => parsed_tree(bytes@) is None,
        },
{
    match read_value(bytes) {
        Ok(value) => Some(json_from_value(value)),
        Err(_) => None,
    }
}

/// The index of the first field with the key `key`, or the number of fields.
pub open spec fn field_index(fields: Seq<(Seq<char>, JsonTree)>, key: Seq<char>, from: int) -> int
    decreases fields.len() - from,
{
    if from >= fields.len() {
        fields.len() as int
    } else if fields[from].0 == key {
        from
    } else {
        field_index(fields, key, from + 1)
    }
}

/// The value of the field `key`; only objects have fields.
pub open spec fn field_of(tree: JsonTree, key: Seq<char>) -> Option<JsonTree> {
    match tree {
        JsonTree::Object(fields) => {
            let k = field_index(fields, key, 0);
            if 0 <= k < fields.len() {
                Some(fields[k].1)
            } else {
                None
            }
        },
        _ => None,
    }
}

/// The trees of a list stand where its items stand.
pub proof fn lemma_trees_of(items: Seq<Json>)
    ensures
        trees_of(items).len() == items.len(),
        forall|i: int| 0 <= i < items.len() ==> #[trigger] trees_of(items)[i] == tree_of(items[i]),
    decreases items.len(),
{
    if items.len() > 0 {
        lemma_trees_of(items.drop_last());
    }
}

/// The trees of fields stand where the fields stand.
pub proof fn lemma_fields_of(fields: Seq<JsonField>)
    ensures
        fields_of(fields).len() == fields.len(),
        forall|i: int|
            0 <= i < fields.len() ==> #[trigger] fields_of(fields)[i] == (
                fields[i].key@,
                tree_of(fields[i].value),
            ),
    decreases fields.len(),
{
    if fields.len() > 0 {
        lemma_fields_of(fields.drop_last());
    }
}

/// The value of the field `key` of an object.
pub fn get_field<'a>(value: &'a Json, key: &str) -> (r: Option<&'a Json>)
    ensures
        match r {
            Some(found) => {
                &&& field_of(tree_of(*value), key@) == Some(tree_of(*found))
                &&& decreases_to!(*value => *found)
            },
            None => field_of(tree_of(*value), key@) is None,
        },
{
    let fields = match value {
        Json::Object(fields) => fields,
        _ => {
            return None;
        },
    };
    let ghost all = fields_of(fields@);
    proof {
        lemma_fields_of(fields@);
    }
    let mut i: usize = 0;
    while i < fields.len()
        invariant
            i <= fields@.len(),
            *value == Json::Object(*fields),
            all == fields_of(fields@),
            all.len() == fields@.len(),
            forall|j: int|
                0 <= j < fields@.len() ==> #[trigger] all[j] == (
                    fields@[j].key@,
                    tree_of(fields@[j].value),
                ),
            field_index(all, key@, 0) == field_index(all, key@, i as int),
        decreases fields@.len() - i,
    {
        assert(all[i as int].0 == fields@[i as int].key@);
        if same_text(fields[i].key.as_str(), key) {
            assert(decreases_to!(*value => *fields));
            assert(decreases_to!(*fields => fields@));
            assert(decreases_to!(fields@ => fields@[i as int]));
            assert(decreases_to!(fields@[i as int] => fields@[i as int].value));
            return Some(&fields[i].value);
        }
        i = i + 1;
    }
    None
}

} // verus!

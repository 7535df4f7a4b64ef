//! JSON documents as trees, and the text form that `serde_json` reads and
//! writes for them.

use crate::names::{distinct, find_key, keys, lookup, names_of};
use vstd::prelude::*;

verus! {

/// A JSON number, kept as `serde_json` holds it. The library never looks
/// inside one: no document of this library contains a number.
#[verifier::external_type_specification]
#[verifier::external_body]
pub struct ExNumber(serde_json::Number);

/// `Clone::clone` of `serde_json::Number`, which the crate derives: the copy
/// equals the number.
pub assume_specification[ <serde_json::Number as Clone>::clone ](
    number: &serde_json::Number,
) -> (copy: serde_json::Number)
    ensures
        copy == *number,
;

/// A JSON value as `serde_json` holds it. It only passes through the two
/// functions that turn it into a [`Json`] tree and back.
#[verifier::external_type_specification]
#[verifier::external_body]
pub struct ExValue(serde_json::Value);

/// A JSON document as a tree. The members of an object are kept in the order
/// in which they stand in the text.
#[derive(Debug)]
pub enum Json {
    Null,
    Bool(bool),
    Number(serde_json::Number),
    Text(String),
    Array(Vec<Json>),
    Object(Vec<(String, Json)>),
}

/// The mathematical value of a [`Json`] tree.
pub enum JsonView {
    Null,
    Bool(bool),
    Number(serde_json::Number),
    Text(Seq<char>),
    Array(Seq<JsonView>),
    Object(Seq<(Seq<char>, JsonView)>),
}

impl View for Json {
    type V = JsonView;

    open spec fn view(&self) -> JsonView {
        tree_view(*self)
    }
}

/// The value of a tree.
pub open spec fn tree_view(tree: Json) -> JsonView
    decreases tree,
{
    match tree {
        Json::Null => JsonView::Null,
        Json::Bool(b) => JsonView::Bool(b),
        Json::Number(n) => JsonView::Number(n),
        Json::Text(s) => JsonView::Text(s@),
        Json::Array(items) => JsonView::Array(items_view(items@)),
        Json::Object(members) => JsonView::Object(members_view(members@)),
    }
}

/// The values of the items of an array.
pub open spec fn items_view(items: Seq<Json>) -> Seq<JsonView>
    decreases items,
{
    Seq::new(
        items.len(),
        |i: int|
            if 0 <= i < items.len() {
                tree_view(items[i])
            } else {
                JsonView::Null
            },
    )
}

/// The values of the members of an object, each under its name.
pub open spec fn members_view(members: Seq<(String, Json)>) -> Seq<(Seq<char>, JsonView)>
    decreases members,
{
    Seq::new(
        members.len(),
        |i: int|
            if 0 <= i < members.len() {
                (members[i].0@, tree_view(members[i].1))
            } else {
                (Seq::empty(), JsonView::Null)
            },
    )
}

/// The first member of an object that stands under `name`.
pub fn member<'a>(members: &'a Vec<(String, Json)>, name: &str) -> (r: Option<&'a Json>)
    ensures
        match r {
            Some(value) => lookup(members_view(members@), name@) == Some(value@),
            None => lookup(members_view(members@), name@) is None,
        },
{
    assert(keys(members@) =~= names_of(members_view(members@)));
    match find_key(members, name) {
        Some(i) => Some(&members[i].1),
        None => None,
    }
}

/// Every object of the tree, at any depth, has each name once.
pub open spec fn unique_keys(tree: JsonView) -> bool
    decreases tree,
{
    match tree {
        JsonView::Array(items) => {
            forall|i: int| 0 <= i < items.len() ==> unique_keys(#[trigger] items[i])
        },
        JsonView::Object(members) => {
            &&& distinct(names_of(members))
            &&& forall|i: int| 0 <= i < members.len() ==> unique_keys((#[trigger] members[i]).1)
        },
        _ => true,
    }
}

/// Below an array without a name twice, each item is without one.
proof fn lemma_array_item_unique_keys(items: Seq<JsonView>, i: int)
    requires
        unique_keys(JsonView::Array(items)),
        0 <= i < items.len(),
    ensures
        unique_keys(items[i]),
{
    let array = JsonView::Array(items);
    assert(array->Array_0 == items);
    assert(unique_keys(array) == (forall|k: int|
        0 <= k < items.len() ==> unique_keys(#[trigger] items[k])));
}

/// The tree that a `serde_json::Value` holds: its variant, and below an
/// array or an object the trees of its items or members, in the order in
/// which the value hands them out.
pub uninterp spec fn value_tree(value: serde_json::Value) -> JsonView;

/// What `serde_json::from_str` makes of a text: the tree of the value it
/// describes, or the parser's message where the text is not JSON.
pub uninterp spec fn json_parse(text: Seq<char>) -> Result<JsonView, Seq<char>>;

/// What `serde_json::to_string_pretty` writes for a value with this tree:
/// its text, or the serializer's message.
pub uninterp spec fn json_pretty(tree: JsonView) -> Result<Seq<char>, Seq<char>>;

/// One level of a `serde_json::Value` that is read: its variant, with the
/// values below it still closed.
enum Opened<'a> {
    Null,
    Bool(bool),
    Number(serde_json::Number),
    Text(&'a String),
    Array(&'a Vec<serde_json::Value>),
    Object(Vec<(&'a String, &'a serde_json::Value)>),
}

/// One level of a `serde_json::Value` that is built: its variant, over
/// values that are built already.
enum Closed {
    Null,
    Bool(bool),
    Number(serde_json::Number),
    Text(String),
    Array(Vec<serde_json::Value>),
    Object(Vec<(String, serde_json::Value)>),
}

impl<'a> Opened<'a> {
    /// The tree of the value that was opened.
    spec fn tree(self) -> JsonView {
        match self {
            Opened::Null => JsonView::Null,
            Opened::Bool(b) => JsonView::Bool(b),
            Opened::Number(n) => JsonView::Number(n),
            Opened::Text(s) => JsonView::Text(s@),
            Opened::Array(items) => JsonView::Array(
                Seq::new(items@.len(), |i: int| value_tree(items@[i])),
            ),
            Opened::Object(members) => JsonView::Object(
                Seq::new(members@.len(), |i: int| (members@[i].0@, value_tree(*members@[i].1))),
            ),
        }
    }
}

impl Closed {
    /// The tree of the value that is built.
    spec fn tree(self) -> JsonView {
        match self {
            Closed::Null => JsonView::Null,
            Closed::Bool(b) => JsonView::Bool(b),
            Closed::Number(n) => JsonView::Number(n),
            Closed::Text(s) => JsonView::Text(s@),
            Closed::Array(items) => JsonView::Array(
                Seq::new(items@.len(), |i: int| value_tree(items@[i])),
            ),
            Closed::Object(members) => JsonView::Object(
                Seq::new(members@.len(), |i: int| (members@[i].0@, value_tree(members@[i].1))),
            ),
        }
    }
}

/// Tells the variants of a `serde_json::Value` apart and hands out what the
/// value holds at its top: a number or a string as it is, the items of an
/// array, the members of an object in the order of `Map::iter`. With the
/// feature `preserve_order` that is the order of the text.
#[verifier::external_body]
fn open_value<'a>(value: &'a serde_json::Value) -> (node: Opened<'a>)
    ensures
        node.tree() == value_tree(*value),
{
    match value {
        serde_json::Value::Null => Opened::Null,
        serde_json::Value::Bool(b) => Opened::Bool(*b),
        serde_json::Value::Number(n) => Opened::Number(n.clone()),
        serde_json::Value::String(s) => Opened::Text(s),
        serde_json::Value::Array(items) => Opened::Array(items),
        serde_json::Value::Object(members) => Opened::Object(members.iter().collect()),
    }
}

/// Builds the `serde_json::Value` of one variant. The members of an object
/// are collected into a `serde_json::Map`, which with the feature
/// `preserve_order` keeps them in their order as long as no name occurs
/// twice.
#[verifier::external_body]
fn close_value(node: Closed) -> (value: serde_json::Value)
    requires
        node matches Closed::Object(members) ==> distinct(keys(members@)),
    ensures
        value_tree(value) == node.tree(),
{
    match node {
        Closed::Null => serde_json::Value::Null,
        Closed::Bool(b) => serde_json::Value::Bool(b),
        Closed::Number(n) => serde_json::Value::Number(n),
        Closed::Text(s) => serde_json::Value::String(s),
        Closed::Array(items) => serde_json::Value::Array(items),
        Closed::Object(members) => serde_json::Value::Object(members.into_iter().collect()),
    }
}

/// Calls `serde_json::from_str` for a `serde_json::Value`. Value and error
/// depend on the text alone: [`json_parse`] names the value's tree and the
/// error's text.
#[verifier::external_body]
fn value_from_text(text: &str) -> (r: Result<serde_json::Value, String>)
    ensures
        match r {
            Ok(value) => json_parse(text@) == Ok::<JsonView, Seq<char>>(value_tree(value)),
            Err(detail) => json_parse(text@) == Err::<JsonView, Seq<char>>(detail@),
        },
{
    match serde_json::from_str::<serde_json::Value>(text) {
        Ok(value) => Ok(value),
        Err(error) => Err(error.to_string()),
    }
}

/// Calls `serde_json::to_string_pretty` on a value. Text and error depend on
/// what the value holds alone: [`json_pretty`] names them.
#[verifier::external_body]
fn text_from_value(value: &serde_json::Value) -> (r: Result<String, String>)
    ensures
        match r {
            Ok(text) => json_pretty(value_tree(*value)) == Ok::<Seq<char>, Seq<char>>(text@),
            Err(detail) => json_pretty(value_tree(*value)) == Err::<Seq<char>, Seq<char>>(
                detail@,
            ),
        },
{
    match serde_json::to_string_pretty(value) {
        Ok(text) => Ok(text),
        Err(error) => Err(error.to_string()),
    }
}

/// Reads the tree that a value holds.
fn tree_from_value(value: &serde_json::Value) -> (tree: Json)
    ensures
        tree@ == value_tree(*value),
    decreases value_tree(*value),
{
    match open_value(value) {
        Opened::Null => Json::Null,
        Opened::Bool(b) => Json::Bool(b),
        Opened::Number(n) => Json::Number(n),
        Opened::Text(s) => Json::Text(s.clone()),
        Opened::Array(items) => {
            let ghost below = Seq::new(items@.len(), |i: int| value_tree(items@[i]));
            let mut read: Vec<Json> = Vec::new();
            let mut i: usize = 0;
            while i < items.len()
                invariant
                    i <= items@.len(),
                    read@.len() == i,
                    value_tree(*value) == JsonView::Array(below),
                    below.len() == items@.len(),
                    forall|j: int| 0 <= j < below.len() ==> below[j] == value_tree(items@[j]),
                    forall|j: int| 0 <= j < i ==> (#[trigger] read@[j])@ == below[j],
                decreases items@.len() - i,
            {
                assert(below[i as int] == value_tree(items@[i as int]));
                assert(decreases_to!(value_tree(*value) => value_tree(*value)->Array_0));
                assert(decreases_to!(value_tree(*value)->Array_0 => value_tree(
                    *value,
                )->Array_0[i as int]));
                read.push(tree_from_value(&items[i]));
                i += 1;
            }
            assert(items_view(read@) =~= below);
            Json::Array(read)
        },
        Opened::Object(members) => {
            let ghost below = Seq::new(
                members@.len(),
                |i: int| (members@[i].0@, value_tree(*members@[i].1)),
            );
            let mut read: Vec<(String, Json)> = Vec::new();
            let mut i: usize = 0;
            while i < members.len()
                invariant
                    i <= members@.len(),
                    read@.len() == i,
                    value_tree(*value) == JsonView::Object(below),
                    below.len() == members@.len(),
                    forall|j: int|
                        0 <= j < below.len() ==> below[j] == (
                            members@[j].0@,
                            value_tree(*members@[j].1),
                        ),
                    forall|j: int| 0 <= j < i ==> (#[trigger] read@[j]).0@ == below[j].0,
                    forall|j: int| 0 <= j < i ==> (#[trigger] read@[j]).1@ == below[j].1,
                decreases members@.len() - i,
            {
                assert(below[i as int].1 == value_tree(*members@[i as int].1));
                assert(decreases_to!(value_tree(*value) => value_tree(*value)->Object_0));
                assert(decreases_to!(value_tree(*value)->Object_0 => value_tree(
                    *value,
                )->Object_0[i as int]));
                assert(decreases_to!(value_tree(*value)->Object_0[i as int] => value_tree(
                    *value,
                )->Object_0[i as int].1));
                let name = members[i].0.clone();
                let below_it = tree_from_value(members[i].1);
                read.push((name, below_it));
                i += 1;
            }
            assert(members_view(read@) =~= below);
            Json::Object(read)
        },
    }
}

/// Builds the value that holds a tree.
fn value_from_tree(tree: &Json) -> (value: serde_json::Value)
    requires
        unique_keys(tree@),
    ensures
        value_tree(value) == tree@,
    decreases tree,
{
    match tree {
        Json::Null => close_value(Closed::Null),
        Json::Bool(b) => close_value(Closed::Bool(*b)),
        Json::Number(n) => close_value(Closed::Number(n.clone())),
        Json::Text(s) => close_value(Closed::Text(s.clone())),
        Json::Array(items) => {
            let mut built: Vec<serde_json::Value> = Vec::new();
            let mut i: usize = 0;
            while i < items.len()
                invariant
                    i <= items@.len(),
                    built@.len() == i,
                    *tree == Json::Array(*items),
                    unique_keys(JsonView::Array(items_view(items@))),
                    forall|j: int| 0 <= j < i ==> value_tree(#[trigger] built@[j]) == items@[j]@,
                decreases items@.len() - i,
            {
                proof {
                    lemma_array_item_unique_keys(items_view(items@), i as int);
                }
                assert(decreases_to!(*tree => tree->Array_0));
                assert(decreases_to!(tree->Array_0 => tree->Array_0@));
                assert(decreases_to!(tree->Array_0@ => tree->Array_0@[i as int]));
                built.push(value_from_tree(&items[i]));
                i += 1;
            }
            let node = Closed::Array(built);
            assert(node.tree()->Array_0 =~= items_view(items@));
            close_value(node)
        },
        Json::Object(members) => {
            let mut built: Vec<(String, serde_json::Value)> = Vec::new();
            let mut i: usize = 0;
            while i < members.len()
                invariant
                    i <= members@.len(),
                    built@.len() == i,
                    *tree == Json::Object(*members),
                    unique_keys(JsonView::Object(members_view(members@))),
                    forall|j: int| 0 <= j < i ==> (#[trigger] built@[j]).0@ == members@[j].0@,
                    forall|j: int|
                        0 <= j < i ==> value_tree((#[trigger] built@[j]).1) == members@[j].1@,
                decreases members@.len() - i,
            {
                assert(unique_keys(members_view(members@)[i as int].1));
                assert(decreases_to!(*tree => tree->Object_0));
                assert(decreases_to!(tree->Object_0 => tree->Object_0@));
                assert(decreases_to!(tree->Object_0@ => tree->Object_0@[i as int]));
                assert(decreases_to!(tree->Object_0@[i as int] => tree->Object_0@[i as int].1));
                built.push((members[i].0.clone(), value_from_tree(&members[i].1)));
                i += 1;
            }
            let node = Closed::Object(built);
            assert(node.tree()->Object_0 =~= members_view(members@));
            assert(keys(built@) =~= names_of(members_view(members@)));
            close_value(node)
        },
    }
}

/// Reads a JSON text into a tree.
pub fn parse_json(text: &str) -> (r: Result<Json, String>)
    ensures
        match r {
            Ok(tree) => json_parse(text@) == Ok::<JsonView, Seq<char>>(tree@),
            Err(detail) => json_parse(text@) == Err::<JsonView, Seq<char>>(detail@),
        },
{
    match value_from_text(text) {
        Ok(value) => Ok(tree_from_value(&value)),
        Err(detail) => Err(detail),
    }
}

/// Writes a tree in which no object has a name twice as pretty-printed JSON
/// text.
pub(crate) fn pretty_json(tree: &Json) -> (r: Result<String, String>)
    requires
        unique_keys(tree@),
    ensures
        match r {
            Ok(text) => json_pretty(tree@) == Ok::<Seq<char>, Seq<char>>(text@),
            Err(detail) => json_pretty(tree@) == Err::<Seq<char>, Seq<char>>(detail@),
        },
{
    let value = value_from_tree(tree);
    text_from_value(&value)
}

} // verus!

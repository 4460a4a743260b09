//! The crossing between [`Json`] and `serde_json`, and JSON text as `serde_json` writes it.

use crate::json;
use crate::json::{Json, JsonView};
use vstd::prelude::*;

verus! {

/// A value of `serde_json`.
#[verifier::external_type_specification]
#[verifier::external_body]
pub struct ExValue(serde_json::Value);

/// The members of an object of `serde_json`.
#[verifier::external_type_specification]
#[verifier::external_body]
#[verifier::reject_recursive_types(K)]
#[verifier::reject_recursive_types(V)]
pub struct ExMap<K, V>(serde_json::Map<K, V>);

/// A failure of `serde_json`.
#[verifier::external_type_specification]
#[verifier::external_body]
pub struct ExError(serde_json::Error);

/// The tree that a `serde_json::Value` holds.
pub uninterp spec fn value_tree(value: serde_json::Value) -> JsonView;

/// The members that a `serde_json::Map` holds.
pub uninterp spec fn map_members(
    members: serde_json::Map<String, serde_json::Value>,
) -> Map<Seq<char>, JsonView>;

/// The text that `serde_json::to_string` writes for a value that holds the tree.
pub uninterp spec fn json_text(tree: JsonView) -> Seq<char>;

/// The trees of a list of values.
pub open spec fn values_tree(values: Seq<serde_json::Value>) -> Seq<JsonView> {
    values.map_values(|value: serde_json::Value| value_tree(value))
}

/// The members that a list of named values spells out.
pub open spec fn pairs_tree(pairs: Seq<(String, serde_json::Value)>) -> Map<Seq<char>, JsonView>
    decreases pairs.len(),
{
    if pairs.len() == 0 {
        Map::empty()
    } else {
        pairs_tree(pairs.drop_last()).insert(pairs.last().0@, value_tree(pairs.last().1))
    }
}

/// Whether no name stands twice in a list of named values.
pub open spec fn distinct_names(pairs: Seq<(String, serde_json::Value)>) -> bool {
    forall|i: int, j: int| 0 <= i < j < pairs.len() ==> pairs[i].0@ != pairs[j].0@
}

/// One level of a `serde_json::Value`, taken apart.
pub enum ValueNode {
    Null,
    Bool(bool),
    Number(serde_json::Number),
    String(String),
    Array(Vec<serde_json::Value>),
    Object(Vec<(String, serde_json::Value)>),
}

/// The tree of a value that was taken apart.
pub open spec fn node_tree(node: ValueNode) -> JsonView {
    match node {
        ValueNode::Null => JsonView::Null,
        ValueNode::Bool(b) => JsonView::Bool(b),
        ValueNode::Number(n) => JsonView::Number(n),
        ValueNode::String(s) => JsonView::String(s@),
        ValueNode::Array(values) => JsonView::Array(values_tree(values@)),
        ValueNode::Object(pairs) => JsonView::Object(pairs_tree(pairs@)),
    }
}

/// The variants of `serde_json::Value`, one for one: the parts hold the tree that the value held.
/// The members of an object come out of `serde_json::Map::into_iter`, which hands out each name
/// once.
#[verifier::external_body]
fn take_apart(value: serde_json::Value) -> (r: ValueNode)
    ensures
        value_tree(value) == node_tree(r),
        r matches ValueNode::Object(pairs) ==> distinct_names(pairs@),
{
    match value {
        serde_json::Value::Null => ValueNode::Null,
        serde_json::Value::Bool(b) => ValueNode::Bool(b),
        serde_json::Value::Number(n) => ValueNode::Number(n),
        serde_json::Value::String(s) => ValueNode::String(s),
        serde_json::Value::Array(values) => ValueNode::Array(values),
        serde_json::Value::Object(members) => ValueNode::Object(members.into_iter().collect()),
    }
}

/// The variant `serde_json::Value::Null` holds the tree of null.
#[verifier::external_body]
fn null_value() -> (r: serde_json::Value)
    ensures
        value_tree(r) == JsonView::Null,
{
    serde_json::Value::Null
}

/// The variant `serde_json::Value::Bool` holds the truth value that it is made of.
#[verifier::external_body]
fn bool_value(b: bool) -> (r: serde_json::Value)
    ensures
        value_tree(r) == JsonView::Bool(b),
{
    serde_json::Value::Bool(b)
}

/// The variant `serde_json::Value::Number` holds the number that it is made of.
#[verifier::external_body]
fn number_value(number: serde_json::Number) -> (r: serde_json::Value)
    ensures
        value_tree(r) == JsonView::Number(number),
{
    serde_json::Value::Number(number)
}

/// The variant `serde_json::Value::String` holds the text that it is made of.
#[verifier::external_body]
fn string_value(text: String) -> (r: serde_json::Value)
    ensures
        value_tree(r) == JsonView::String(text@),
{
    serde_json::Value::String(text)
}

/// The variant `serde_json::Value::Array` holds the trees of its values, in order.
#[verifier::external_body]
fn array_value(values: Vec<serde_json::Value>) -> (r: serde_json::Value)
    ensures
        value_tree(r) == JsonView::Array(values_tree(values@)),
{
    serde_json::Value::Array(values)
}

/// The variant `serde_json::Value::Object` holds the members of the map that it is made of.
#[verifier::external_body]
fn object_value(members: serde_json::Map<String, serde_json::Value>) -> (r: serde_json::Value)
    ensures
        value_tree(r) == JsonView::Object(map_members(members)),
{
    serde_json::Value::Object(members)
}

/// `serde_json::Map::new` holds no member.
#[verifier::external_body]
fn no_members() -> (r: serde_json::Map<String, serde_json::Value>)
    ensures
        (map_members(r) == Map::<Seq<char>, JsonView>::empty()),
{
    serde_json::Map::new()
}

/// `serde_json::Map::insert` sets the member of that name and leaves the others alone.
#[verifier::external_body]
fn insert_member(
    members: &mut serde_json::Map<String, serde_json::Value>,
    name: String,
    value: serde_json::Value,
)
    ensures
        map_members(*final(members)) == map_members(*old(members)).insert(
            name@,
            value_tree(value),
        ),
{
    members.insert(name, value);
}

/// `serde_json::to_string` on a `serde_json::Value`. It reports an error only where a value
/// refuses to be serialized or a member's name is no string, and a `Value` does neither; without
/// the feature `preserve_order` a `Map` keeps its members sorted by name, so what it writes depends
/// on the tree alone.
#[verifier::external_body]
fn serialize(value: &serde_json::Value) -> (r: Result<String, serde_json::Error>)
    ensures
        r is Ok,
        r->Ok_0@ == json_text(value_tree(*value)),
{
    serde_json::to_string(value)
}

/// A pair of a list without repeated names is a member of what the list spells out.
pub(crate) proof fn lemma_pair_is_member(pairs: Seq<(String, serde_json::Value)>, i: int)
    requires
        distinct_names(pairs),
        0 <= i < pairs.len(),
    ensures
        pairs_tree(pairs).contains_key(pairs[i].0@),
        pairs_tree(pairs)[pairs[i].0@] == value_tree(pairs[i].1),
    decreases pairs.len(),
{
    if i < pairs.len() - 1 {
        lemma_pair_is_member(pairs.drop_last(), i);
    }
}

/// A list spells out finitely many members.
proof fn lemma_pairs_finite(pairs: Seq<(String, serde_json::Value)>)
    ensures
        pairs_tree(pairs).dom().finite(),
    decreases pairs.len(),
{
    if pairs.len() > 0 {
        lemma_pairs_finite(pairs.drop_last());
    }
}

/// A list with one more named value.
proof fn lemma_pairs_push(
    pairs: Seq<(String, serde_json::Value)>,
    pair: (String, serde_json::Value),
)
    ensures
        pairs_tree(pairs.push(pair)) == pairs_tree(pairs).insert(pair.0@, value_tree(pair.1)),
{
    assert(pairs.push(pair).drop_last() =~= pairs);
}

impl Json {
    /// The `serde_json::Value` that holds the same tree.
    pub fn to_value(&self) -> (r: serde_json::Value)
        ensures
            value_tree(r) == self@,
        decreases self,
    {
        match self {
            Json::Null => null_value(),
            Json::Bool(b) => bool_value(*b),
            Json::Number(n) => number_value(n.clone()),
            Json::String(s) => string_value(s.clone()),
            Json::Array(items) => {
                let mut values: Vec<serde_json::Value> = Vec::new();
                let mut i: usize = 0;
                while i < items.len()
                    invariant
                        i <= items.len(),
                        *self == Json::Array(*items),
                        values_tree(values@) == json::array_tree(items@.take(i as int)),
                    decreases items.len() - i,
                {
                    assert(decreases_to!(*self => items@[i as int])) by {
                        assert(decreases_to!(*self => self->Array_0));
                        assert(decreases_to!(*items => items@));
                        assert(decreases_to!(items@ => items@[i as int]));
                    }
                    let value = items[i].to_value();
                    proof {
                        json::lemma_array_push(items@.take(i as int), items@[i as int]);
                        assert(items@.take(i + 1) =~= items@.take(i as int).push(items@[i as int]));
                        assert(values_tree(values@.push(value)) =~= values_tree(values@).push(
                            value_tree(value),
                        ));
                    }
                    values.push(value);
                    i += 1;
                }
                assert(items@.take(i as int) =~= items@);
                array_value(values)
            },
            Json::Object(members) => {
                let mut map = no_members();
                let mut i: usize = 0;
                assert(members@.take(0) =~= Seq::<(String, Json)>::empty());
                while i < members.len()
                    invariant
                        i <= members.len(),
                        *self == Json::Object(*members),
                        map_members(map) == json::object_tree(members@.take(i as int)),
                    decreases members.len() - i,
                {
                    assert(decreases_to!(*self => members@[i as int].1)) by {
                        assert(decreases_to!(*self => self->Object_0));
                        assert(decreases_to!(*members => members@));
                        assert(decreases_to!(members@ => members@[i as int]));
                        assert(decreases_to!(members@[i as int] => members@[i as int].1));
                    }
                    let value = members[i].1.to_value();
                    insert_member(&mut map, members[i].0.clone(), value);
                    proof {
                        json::lemma_object_push(members@.take(i as int), members@[i as int]);
                        assert(members@.take(i + 1) =~= members@.take(i as int).push(
                            members@[i as int],
                        ));
                    }
                    i += 1;
                }
                assert(members@.take(i as int) =~= members@);
                object_value(map)
            },
        }
    }

    /// The compact JSON text of the tree.
    pub fn to_text(&self) -> (r: String)
        ensures
            r@ == json_text(self@),
    {
        serialize(&self.to_value()).unwrap()
    }

    /// The tree that a `serde_json::Value` holds.
    pub fn from_value(value: serde_json::Value) -> (r: Json)
        ensures
            r@ == value_tree(value),
        decreases value_tree(value),
    {
        let ghost tree = value_tree(value);
        match take_apart(value) {
            ValueNode::Null => Json::Null,
            ValueNode::Bool(b) => Json::Bool(b),
            ValueNode::Number(n) => Json::Number(n),
            ValueNode::String(s) => Json::String(s),
            ValueNode::Array(values) => {
                let ghost all = values@;
                let mut items: Vec<Json> = Vec::new();
                for first in walk: values
                    invariant
                        walk.seq() == all,
                        tree == value_tree(value),
                        tree == JsonView::Array(values_tree(all)),
                        json::array_tree(items@) == values_tree(all.take(walk.index())),
                {
                    let ghost i = walk.index();
                    assert(decreases_to!(tree => value_tree(first))) by {
                        assert(decreases_to!(tree => tree->Array_0));
                        assert(values_tree(all)[i] == value_tree(all[i]));
                        assert(decreases_to!(values_tree(all) => values_tree(all)[i]));
                    }
                    let item = Json::from_value(first);
                    proof {
                        json::lemma_array_push(items@, item);
                        assert(values_tree(all.take(i + 1)) =~= values_tree(all.take(i)).push(
                            value_tree(all[i]),
                        ));
                    }
                    items.push(item);
                }
                assert(all.take(all.len() as int) =~= all);
                Json::Array(items)
            },
            ValueNode::Object(pairs) => {
                let ghost all = pairs@;
                let mut members: Vec<(String, Json)> = Vec::new();
                assert(all.take(0) =~= Seq::<(String, serde_json::Value)>::empty());
                for pair in walk: pairs
                    invariant
                        walk.seq() == all,
                        tree == value_tree(value),
                        tree == JsonView::Object(pairs_tree(all)),
                        distinct_names(all),
                        json::object_tree(members@) == pairs_tree(all.take(walk.index())),
                {
                    let ghost i = walk.index();
                    let (name, first) = pair;
                    assert(decreases_to!(tree => value_tree(first))) by {
                        lemma_pair_is_member(all, i);
                        lemma_pairs_finite(all);
                        assert(decreases_to!(tree => tree->Object_0));
                        assert(decreases_to!(pairs_tree(all) => pairs_tree(all)[name@]));
                    }
                    let member = (name, Json::from_value(first));
                    proof {
                        json::lemma_object_push(members@, member);
                        lemma_pairs_push(all.take(i), all[i]);
                        assert(all.take(i + 1) =~= all.take(i).push(all[i]));
                    }
                    members.push(member);
                }
                assert(all.take(all.len() as int) =~= all);
                Json::Object(members)
            },
        }
    }
}

} // verus!

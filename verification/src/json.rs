//! JSON trees and the lookups that the control protocol makes in them.

use crate::model;
use vstd::prelude::*;

verus! {

/// A JSON number, kept whole: the protocol carries numbers and never reads them.
#[verifier::external_type_specification]
#[verifier::external_body]
pub struct ExNumber(serde_json::Number);

/// A JSON tree.
///
/// An object lists its members as they were written; of two members with the same name the
/// later one counts, as in the view.
#[derive(Debug)]
pub enum Json {
    Null,
    Bool(bool),
    Number(serde_json::Number),
    String(String),
    Array(Vec<Json>),
    Object(Vec<(String, Json)>),
}

/// What a JSON tree means: an object is a map from member names to values.
pub enum JsonView {
    Null,
    Bool(bool),
    Number(serde_json::Number),
    String(Seq<char>),
    Array(Seq<JsonView>),
    Object(Map<Seq<char>, JsonView>),
}

/// The meaning of one tree.
pub open spec fn json_tree(value: Json) -> JsonView
    decreases value,
{
    match value {
        Json::Null => JsonView::Null,
        Json::Bool(b) => JsonView::Bool(b),
        Json::Number(n) => JsonView::Number(n),
        Json::String(s) => JsonView::String(s@),
        Json::Array(items) => JsonView::Array(array_tree(items@)),
        Json::Object(members) => JsonView::Object(object_tree(members@)),
    }
}

/// The meaning of a list of trees.
pub open spec fn array_tree(items: Seq<Json>) -> Seq<JsonView>
    decreases items,
{
    Seq::new(
        items.len(),
        |i: int|
            if 0 <= i < items.len() {
                json_tree(items[i])
            } else {
                JsonView::Null
            },
    )
}

/// The meaning of a list of members: the later of two members with one name counts.
pub open spec fn object_tree(members: Seq<(String, Json)>) -> Map<Seq<char>, JsonView>
    decreases members,
{
    if members.len() == 0 {
        Map::empty()
    } else {
        object_tree(members.drop_last()).insert(members.last().0@, json_tree(members.last().1))
    }
}

impl View for Json {
    type V = JsonView;

    open spec fn view(&self) -> JsonView {
        json_tree(*self)
    }
}

impl JsonView {
    /// The member of an object with the given name; nothing else has members.
    pub open spec fn member(self, name: Seq<char>) -> Option<JsonView> {
        match self {
            JsonView::Object(members) if members.contains_key(name) => Some(members[name]),
            _ => None,
        }
    }

    /// The object without members.
    pub open spec fn object() -> JsonView {
        JsonView::Object(Map::empty())
    }

    /// The member of the member: what the pointer `/outer/inner` leads to.
    pub open spec fn nested(self, outer: Seq<char>, inner: Seq<char>) -> Option<JsonView> {
        match self.member(outer) {
            Some(value) => value.member(inner),
            None => None,
        }
    }

    /// The object with one more member, which counts over an earlier one of that name.
    pub open spec fn with(self, name: Seq<char>, value: JsonView) -> JsonView {
        match self {
            JsonView::Object(members) => JsonView::Object(members.insert(name, value)),
            other => other,
        }
    }

    /// The text of a string.
    pub open spec fn as_text(self) -> Option<Seq<char>> {
        match self {
            JsonView::String(text) => Some(text),
            _ => None,
        }
    }

    /// The text of a member that is a string.
    pub open spec fn text_member(self, name: Seq<char>) -> Option<Seq<char>> {
        match self.member(name) {
            Some(value) => value.as_text(),
            None => None,
        }
    }

    /// A string, or null for no text.
    pub open spec fn optional_text(text: Option<Seq<char>>) -> JsonView {
        match text {
            Some(text) => JsonView::String(text),
            None => JsonView::Null,
        }
    }
}

/// Whether the two texts are the same.
pub fn same_text(left: &str, right: &str) -> (r: bool)
    ensures
        r == (left@ == right@),
{
    left.to_owned() == right.to_owned()
}

/// `serde_json::Number::clone` is derived: a clone of a number is the number.
pub assume_specification[ <serde_json::Number as Clone>::clone ](
    number: &serde_json::Number,
) -> (r: serde_json::Number)
    ensures
        r == *number,
;

impl Clone for Json {
    fn clone(&self) -> (r: Json)
        ensures
            r@ == self@,
        decreases self,
    {
        match self {
            Json::Null => Json::Null,
            Json::Bool(b) => Json::Bool(*b),
            Json::Number(n) => Json::Number(n.clone()),
            Json::String(s) => Json::String(s.clone()),
            Json::Array(items) => {
                let mut copies: Vec<Json> = Vec::new();
                let mut i: usize = 0;
                while i < items.len()
                    invariant
                        i <= items.len(),
                        *self == Json::Array(*items),
                        array_tree(copies@) == array_tree(items@.take(i as int)),
                    decreases items.len() - i,
                {
                    assert(decreases_to!(*self => items@[i as int])) by {
                        assert(decreases_to!(*self => self->Array_0));
                        assert(decreases_to!(*items => items@));
                        assert(decreases_to!(items@ => items@[i as int]));
                    }
                    let copy = items[i].clone();
                    proof {
                        lemma_array_push(copies@, copy);
                        lemma_array_push(items@.take(i as int), items@[i as int]);
                        assert(items@.take(i + 1) =~= items@.take(i as int).push(items@[i as int]));
                    }
                    copies.push(copy);
                    i += 1;
                }
                assert(items@.take(i as int) =~= items@);
                Json::Array(copies)
            },
            Json::Object(members) => {
                let mut copies: Vec<(String, Json)> = Vec::new();
                let mut i: usize = 0;
                while i < members.len()
                    invariant
                        i <= members.len(),
                        *self == Json::Object(*members),
                        object_tree(copies@) == object_tree(members@.take(i as int)),
                    decreases members.len() - i,
                {
                    assert(decreases_to!(*self => members@[i as int].1)) by {
                        assert(decreases_to!(*self => self->Object_0));
                        assert(decreases_to!(*members => members@));
                        assert(decreases_to!(members@ => members@[i as int]));
                        assert(decreases_to!(members@[i as int] => members@[i as int].1));
                    }
                    let copy = (members[i].0.clone(), members[i].1.clone());
                    proof {
                        lemma_object_push(copies@, copy);
                        lemma_object_push(members@.take(i as int), members@[i as int]);
                        assert(members@.take(i + 1) =~= members@.take(i as int).push(
                            members@[i as int],
                        ));
                    }
                    copies.push(copy);
                    i += 1;
                }
                assert(members@.take(i as int) =~= members@);
                Json::Object(copies)
            },
        }
    }
}

/// A list with one more tree.
pub proof fn lemma_array_push(items: Seq<Json>, item: Json)
    ensures
        array_tree(items.push(item)) == array_tree(items).push(item@),
{
    assert(array_tree(items.push(item)) =~= array_tree(items).push(item@));
}

/// A list with one more member.
pub proof fn lemma_object_push(members: Seq<(String, Json)>, member: (String, Json))
    ensures
        object_tree(members.push(member)) == object_tree(members).insert(
            member.0@,
            member.1@,
        ),
{
    assert(members.push(member).drop_last() =~= members);
}

/// The name of every member is a name of the object.
proof fn lemma_member_kept(members: Seq<(String, Json)>, i: int)
    requires
        0 <= i < members.len(),
    ensures
        object_tree(members).contains_key(members[i].0@),
    decreases members.len(),
{
    if i < members.len() - 1 {
        lemma_member_kept(members.drop_last(), i);
    }
}

impl Json {
    /// The text of a string value.
    pub fn as_str(&self) -> (r: Option<&str>)
        ensures
            model::option_view(r) == self@.as_text(),
    {
        match self {
            Json::String(s) => Some(s.as_str()),
            _ => None,
        }
    }

    /// The member of an object with the given name.
    pub fn get(&self, name: &str) -> (r: Option<&Json>)
        ensures
            model::option_view(r) == self@.member(name@),
    {
        match self {
            Json::Object(members) => {
                let mut i: usize = members.len();
                assert(members@.take(i as int) =~= members@);
                while i > 0
                    invariant
                        i <= members.len(),
                        object_tree(members@.take(i as int)).contains_key(name@)
                            == object_tree(members@).contains_key(name@),
                        object_tree(members@.take(i as int)).contains_key(name@)
                            ==> object_tree(members@.take(i as int))[name@]
                            == object_tree(members@)[name@],
                        *self == Json::Object(*members),
                    decreases i,
                {
                    i -= 1;
                    proof {
                        lemma_object_push(members@.take(i as int), members@[i as int]);
                        assert(members@.take(i + 1) =~= members@.take(i as int).push(
                            members@[i as int],
                        ));
                    }
                    if same_text(members[i].0.as_str(), name) {
                        return Some(&members[i].1);
                    }
                }
                None
            },
            _ => None,
        }
    }

    /// What the pointer `/outer/inner` leads to.
    pub fn get_nested(&self, outer: &str, inner: &str) -> (r: Option<&Json>)
        ensures
            model::option_view(r) == self@.nested(outer@, inner@),
    {
        match self.get(outer) {
            Some(value) => value.get(inner),
            None => None,
        }
    }

    /// The text of the member with the given name, when that member is a string.
    pub fn get_str(&self, name: &str) -> (r: Option<&str>)
        ensures
            model::option_view(r) == self@.text_member(name@),
    {
        match self.get(name) {
            Some(value) => value.as_str(),
            None => None,
        }
    }

    /// The name and the value of the member of an object that has no other.
    pub fn only_member(&self) -> (r: Option<(&str, &Json)>)
        ensures
            match r {
                Some((name, value)) => self@ == JsonView::object().with(name@, value@),
                None => forall|name: Seq<char>, value: JsonView|
                    self@ != #[trigger] JsonView::object().with(name, value),
            },
    {
        match self {
            Json::Object(members) if members.len() > 0 => {
                let name = members[0].0.as_str();
                proof {
                    lemma_object_push(members@.take(0), members@[0]);
                    assert(members@.take(1) =~= members@.take(0).push(members@[0]));
                    assert(members@.take(0) =~= Seq::<(String, Json)>::empty());
                }
                let mut i: usize = 1;
                while i < members.len()
                    invariant
                        1 <= i <= members.len(),
                        *self == Json::Object(*members),
                        name@ == members@[0].0@,
                        object_tree(members@.take(i as int)) == Map::<
                            Seq<char>,
                            JsonView,
                        >::empty().insert(name@, members@[i - 1].1@),
                    decreases members.len() - i,
                {
                    proof {
                        lemma_object_push(members@.take(i as int), members@[i as int]);
                        assert(members@.take(i + 1) =~= members@.take(i as int).push(
                            members@[i as int],
                        ));
                    }
                    if !same_text(members[i].0.as_str(), name) {
                        proof {
                            lemma_member_kept(members@, 0);
                            lemma_member_kept(members@, i as int);
                            assert forall|key: Seq<char>, value: JsonView|
                                self@ != #[trigger] JsonView::object().with(key, value) by {
                                let single = Map::<Seq<char>, JsonView>::empty().insert(key, value);
                                assert(!(single.contains_key(name@) && single.contains_key(
                                    members@[i as int].0@,
                                )));
                            }
                        }
                        return None;
                    }
                    assert(object_tree(members@.take(i + 1)) =~= Map::<
                        Seq<char>,
                        JsonView,
                    >::empty().insert(name@, members@[i as int].1@));
                    i += 1;
                }
                assert(members@.take(i as int) =~= members@);
                Some((name, &members[i - 1].1))
            },
            _ => {
                proof {
                    assert forall|key: Seq<char>, value: JsonView|
                        self@ != #[trigger] JsonView::object().with(key, value) by {
                        assert(JsonView::object().with(key, value).member(key) == Some(value));
                    }
                }
                None
            },
        }
    }

    /// A string value, or null for no text.
    pub fn optional_text(s: Option<&str>) -> (r: Json)
        ensures
            r@ == JsonView::optional_text(model::option_view(s)),
    {
        match s {
            Some(text) => Json::text(text),
            None => Json::Null,
        }
    }

    /// A string value.
    pub fn text(s: &str) -> (r: Json)
        ensures
            r@ == JsonView::String(s@),
    {
        Json::String(s.to_owned())
    }

    /// An object without members.
    pub fn object() -> (r: Json)
        ensures
            r@ == JsonView::object(),
    {
        Json::Object(Vec::new())
    }

    /// The object with one more member, which counts over an earlier one of that name.
    /// Anything but an object is left as it is.
    pub fn with(self, name: &str, value: Json) -> (r: Json)
        ensures
            r@ == self@.with(name@, value@),
    {
        match self {
            Json::Object(members) => {
                let mut members = members;
                let member = (name.to_owned(), value);
                proof {
                    lemma_object_push(members@, member);
                }
                members.push(member);
                Json::Object(members)
            },
            other => other,
        }
    }
}

} // verus!

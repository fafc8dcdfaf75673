//! JSON values.
use vstd::prelude::*;

use crate::search;
use crate::text;

verus! {

/// A JSON value.
#[derive(Debug)]
pub enum Json {
    Null,
    Bool(bool),
    /// A number, in the form that the parser gives it back in.
    Number(String),
    Text(String),
    Array(Vec<Json>),
    Object(Vec<(String, Json)>),
}

/// What a JSON value holds.
pub enum JsonTree {
    Null,
    Bool(bool),
    Number(Seq<char>),
    Text(Seq<char>),
    Array(Seq<JsonTree>),
    Object(Seq<(Seq<char>, JsonTree)>),
}

impl Json {
    /// What the value holds.
    pub open spec fn tree(self) -> JsonTree
        decreases self,
    {
        match self {
            Json::Null => JsonTree::Null,
            Json::Bool(b) => JsonTree::Bool(b),
            Json::Number(n) => JsonTree::Number(n@),
            Json::Text(s) => JsonTree::Text(s@),
            Json::Array(v) => JsonTree::Array(
                Seq::new(
                    v@.len(),
                    |i: int|
                        if 0 <= i < v@.len() {
                            v@[i].tree()
                        } else {
                            arbitrary()
                        },
                ),
            ),
            Json::Object(v) => JsonTree::Object(
                Seq::new(
                    v@.len(),
                    |i: int|
                        if 0 <= i < v@.len() {
                            (v@[i].0@, v@[i].1.tree())
                        } else {
                            arbitrary()
                        },
                ),
            ),
        }
    }
}

/// What an optional JSON value holds.
pub open spec fn opt_tree(value: Option<Json>) -> Option<JsonTree> {
    match value {
        Some(v) => Some(v.tree()),
        None => None,
    }
}

/// The position of the first member of an object that has this name.
pub open spec fn member_at(members: Seq<(Seq<char>, JsonTree)>, name: Seq<char>) -> Option<int> {
    search::first(members, has_name(name))
}

/// Whether a member of an object has this name.
pub open spec fn has_name(name: Seq<char>) -> spec_fn((Seq<char>, JsonTree)) -> bool {
    |m: (Seq<char>, JsonTree)| m.0 == name
}

impl JsonTree {
    /// The member of this name; null where the value is no object or has no such member.
    pub open spec fn member(self, name: Seq<char>) -> JsonTree {
        match self {
            JsonTree::Object(members) => match member_at(members, name) {
                Some(i) => members[i].1,
                None => JsonTree::Null,
            },
            _ => JsonTree::Null,
        }
    }

    /// The text that the value is, where it is one.
    pub open spec fn text(self) -> Option<Seq<char>> {
        match self {
            JsonTree::Text(s) => Some(s),
            _ => None,
        }
    }

    /// The values that the value lists; none where it is no array.
    pub open spec fn items(self) -> Seq<JsonTree> {
        match self {
            JsonTree::Array(v) => v,
            _ => Seq::empty(),
        }
    }
}

/// The position of a member of an object.
fn find_member(members: &Vec<(String, Json)>, name: &str) -> (r: Option<usize>)
    ensures
        match r {
            Some(i) => i < members@.len() && member_at(
                Json::Object(*members).tree()->Object_0,
                name@,
            ) == Some(i as int),
            None => member_at(Json::Object(*members).tree()->Object_0, name@) is None,
        },
{
    let ghost seen = Json::Object(*members).tree()->Object_0;
    let ghost named = has_name(name@);
    let mut i: usize = 0;
    while i < members.len()
        invariant
            i <= members.len(),
            seen == Json::Object(*members).tree()->Object_0,
            seen.len() == members@.len(),
            named == has_name(name@),
            forall|j: int| 0 <= j < i ==> !named(#[trigger] seen[j]),
        decreases members.len() - i,
    {
        assert(seen[i as int].0 == members@[i as int].0@);
        if text::same(members[i].0.as_str(), name) {
            proof {
                search::first_is(seen, named, i as int);
            }
            return Some(i);
        }
        i += 1;
    }
    proof {
        search::first_holds(seen, named);
    }
    None
}

impl Json {
    /// The member of this name. What is no object has no members.
    pub fn member(&self, name: &str) -> (r: Option<&Json>)
        ensures
            match r {
                Some(value) => self.tree() is Object && member_at(
                    self.tree()->Object_0,
                    name@,
                ) is Some && self.tree().member(name@) == value.tree(),
                None => self.tree() is Object ==> member_at(
                    self.tree()->Object_0,
                    name@,
                ) is None,
            },
    {
        match self {
            Json::Object(members) => match find_member(members, name) {
                Some(i) => Some(&members[i].1),
                None => None,
            },
            _ => None,
        }
    }

    /// The text that the value is.
    pub fn as_text(&self) -> (r: Option<&String>)
        ensures
            match r {
                Some(s) => self.tree().text() == Some(s@),
                None => self.tree().text() is None,
            },
    {
        match self {
            Json::Text(s) => Some(s),
            _ => None,
        }
    }

    /// The text that the member of this name is.
    pub fn member_text(&self, name: &str) -> (r: Option<String>)
        ensures
            text::opt_text(r) == self.tree().member(name@).text(),
    {
        match self.member(name) {
            Some(value) => match value.as_text() {
                Some(s) => Some(s.clone()),
                None => None,
            },
            None => None,
        }
    }

    /// The values that the value lists.
    pub fn as_array(&self) -> (r: Option<&Vec<Json>>)
        ensures
            match r {
                Some(v) => self == Json::Array(*v),
                None => self.tree().items().len() == 0,
            },
    {
        match self {
            Json::Array(v) => Some(v),
            _ => None,
        }
    }
}

/// A member of an object is found by its name, wherever it stands; of two with one name the
/// first counts. What is no object, or has no member of that name, has null there.
pub proof fn law_members_are_found_by_name(
    members: Seq<(Seq<char>, JsonTree)>,
    other: JsonTree,
    name: Seq<char>,
    i: int,
)
    requires
        !(other is Object),
    ensures
        0 <= i < members.len() && members[i].0 == name && (forall|j: int|
            0 <= j < i ==> (#[trigger] members[j]).0 != name) ==> JsonTree::Object(members).member(
            name,
        ) == members[i].1,
        (forall|j: int| 0 <= j < members.len() ==> (#[trigger] members[j]).0 != name)
            ==> JsonTree::Object(members).member(name) == JsonTree::Null,
        other.member(name) == JsonTree::Null,
{
    search::first_holds(members, has_name(name));
    if 0 <= i < members.len() && members[i].0 == name && (forall|j: int|
        0 <= j < i ==> (#[trigger] members[j]).0 != name) {
        search::first_is(members, has_name(name), i);
    }
}

/// Only a text is read as a text, and only an array lists values: all of them, in their order.
pub proof fn law_values_are_read_by_their_kind(value: JsonTree, s: Seq<char>, items: Seq<JsonTree>)
    ensures
        value.text() == Some(s) <==> value == JsonTree::Text(s),
        value.text() is None <==> !(value is Text),
        JsonTree::Array(items).items() == items,
        !(value is Array) ==> value.items().len() == 0,
{
}

} // verus!

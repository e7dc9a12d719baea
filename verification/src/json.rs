//! A JSON document tree, built by the library and handed to the JSON
//! serializer at the process boundary.
use vstd::prelude::*;

use crate::text::to_owned_string;

verus! {

/// A JSON value. Object members keep the order in which they were added.
#[derive(Debug, PartialEq)]
pub enum Json {
    Null,
    Bool(bool),
    Number(u64),
    Str(String),
    Array(Vec<Json>),
    Object(Vec<(String, Json)>),
}

/// The mathematical content of a `Json` value.
#[verifier::ext_equal]
pub enum JsonView {
    Null,
    Bool(bool),
    Number(nat),
    Str(Seq<char>),
    Array(Seq<JsonView>),
    Object(Seq<(Seq<char>, JsonView)>),
}

/// The content of `j`.
pub open spec fn json_view(j: Json) -> JsonView
    decreases j,
{
    match j {
        Json::Null => JsonView::Null,
        Json::Bool(b) => JsonView::Bool(b),
        Json::Number(n) => JsonView::Number(n as nat),
        Json::Str(s) => JsonView::Str(s@),
        Json::Array(items) => JsonView::Array(
            Seq::new(
                items@.len(),
                |i: int|
                    if 0 <= i < items@.len() {
                        json_view(items@[i])
                    } else {
                        JsonView::Null
                    },
            ),
        ),
        Json::Object(fields) => JsonView::Object(
            Seq::new(
                fields@.len(),
                |i: int|
                    if 0 <= i < fields@.len() {
                        (fields@[i].0@, json_view(fields@[i].1))
                    } else {
                        (Seq::empty(), JsonView::Null)
                    },
            ),
        ),
    }
}

/// The value of the first member named `key` of an object's members.
pub open spec fn member(fields: Seq<(Seq<char>, JsonView)>, key: Seq<char>) -> Option<JsonView>
    decreases fields.len(),
{
    if fields.len() == 0 {
        None
    } else if fields[0].0 == key {
        Some(fields[0].1)
    } else {
        member(fields.drop_first(), key)
    }
}

/// The first member named `key` stands at `i`.
pub proof fn lemma_member_at(fields: Seq<(Seq<char>, JsonView)>, key: Seq<char>, i: int)
    requires
        0 <= i < fields.len(),
        fields[i].0 == key,
        forall|j: int| 0 <= j < i ==> fields[j].0 != key,
    ensures
        member(fields, key) == Some(fields[i].1),
    decreases i,
{
    if i > 0 {
        lemma_member_at(fields.drop_first(), key, i - 1);
    }
}

/// No member is named `key`.
pub proof fn lemma_member_absent(fields: Seq<(Seq<char>, JsonView)>, key: Seq<char>)
    requires
        forall|j: int| 0 <= j < fields.len() ==> fields[j].0 != key,
    ensures
        member(fields, key) is None,
    decreases fields.len(),
{
    if fields.len() > 0 {
        lemma_member_absent(fields.drop_first(), key);
    }
}

/// The member `key` of `j`, where `j` is an object that has one.
pub open spec fn get_key(j: Option<JsonView>, key: Seq<char>) -> Option<JsonView> {
    match j {
        Some(JsonView::Object(fields)) => member(fields, key),
        _ => None,
    }
}

/// The element at `i` of `j`, where `j` is an array that long.
pub open spec fn get_index(j: Option<JsonView>, i: int) -> Option<JsonView> {
    match j {
        Some(JsonView::Array(items)) => if 0 <= i < items.len() {
            Some(items[i])
        } else {
            None
        },
        _ => None,
    }
}

/// The JSON string holding `s`.
pub fn json_str(s: &str) -> (r: Json)
    ensures
        json_view(r) == JsonView::Str(s@),
{
    Json::Str(to_owned_string(s))
}

/// An array under construction.
pub struct ArrayBuilder {
    items: Vec<Json>,
}

impl ArrayBuilder {
    pub closed spec fn items(&self) -> Seq<JsonView> {
        Seq::new(self.items@.len(), |i: int| json_view(self.items@[i]))
    }

    pub fn new() -> (r: ArrayBuilder)
        ensures
            r.items() == Seq::<JsonView>::empty(),
    {
        let r = ArrayBuilder { items: Vec::new() };
        assert(r.items() =~= Seq::<JsonView>::empty());
        r
    }

    pub fn push(&mut self, j: Json)
        ensures
            final(self).items() == old(self).items().push(json_view(j)),
    {
        let ghost j0 = j;
        self.items.push(j);
        assert(self.items() =~= old(self).items().push(json_view(j0)));
    }

    pub fn build(self) -> (r: Json)
        ensures
            json_view(r) == JsonView::Array(self.items()),
    {
        let r = Json::Array(self.items);
        assert(json_view(r)->Array_0 =~= self.items());
        r
    }
}

/// An object under construction; members keep insertion order.
pub struct ObjectBuilder {
    fields: Vec<(String, Json)>,
}

impl ObjectBuilder {
    pub closed spec fn fields(&self) -> Seq<(Seq<char>, JsonView)> {
        Seq::new(self.fields@.len(), |i: int| (self.fields@[i].0@, json_view(self.fields@[i].1)))
    }

    pub fn new() -> (r: ObjectBuilder)
        ensures
            r.fields() == Seq::<(Seq<char>, JsonView)>::empty(),
    {
        let r = ObjectBuilder { fields: Vec::new() };
        assert(r.fields() =~= Seq::<(Seq<char>, JsonView)>::empty());
        r
    }

    pub fn insert(&mut self, key: &str, j: Json)
        ensures
            final(self).fields() == old(self).fields().push((key@, json_view(j))),
    {
        let ghost j0 = j;
        self.fields.push((to_owned_string(key), j));
        assert(self.fields() =~= old(self).fields().push((key@, json_view(j0))));
    }

    pub fn build(self) -> (r: Json)
        ensures
            json_view(r) == JsonView::Object(self.fields()),
    {
        let r = Json::Object(self.fields);
        assert(json_view(r)->Object_0 =~= self.fields());
        r
    }
}

} // verus!

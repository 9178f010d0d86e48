//! JSON values as the service sends them.

use vstd::prelude::*;

verus! {

/// A JSON value. Members keep their order, and a name may occur twice.
#[derive(Debug, PartialEq, Eq)]
pub enum Value {
    Null,
    Bool(bool),
    Integer(i64),
    Unsigned(u64),
    /// A finite number in double precision, by its bits.
    Real(u64),
    Text(String),
    Array(Vec<Value>),
    Object(Vec<(String, Value)>),
}

/// What a [`Value`] holds.
pub enum Json {
    Null,
    Bool(bool),
    Integer(i64),
    Unsigned(u64),
    Real(u64),
    Text(Seq<char>),
    Array(Seq<Json>),
    Object(Seq<(Seq<char>, Json)>),
}

impl Value {
    pub open spec fn view(&self) -> Json
        decreases self,
    {
        match self {
            Value::Null => Json::Null,
            Value::Bool(value) => Json::Bool(*value),
            Value::Integer(value) => Json::Integer(*value),
            Value::Unsigned(value) => Json::Unsigned(*value),
            Value::Real(bits) => Json::Real(*bits),
            Value::Text(text) => Json::Text(text@),
            Value::Array(items) => Json::Array(
                Seq::new(
                    items@.len(),
                    |i: int|
                        if 0 <= i < items@.len() {
                            items@[i].view()
                        } else {
                            Json::Null
                        },
                ),
            ),
            Value::Object(members) => Json::Object(
                Seq::new(
                    members@.len(),
                    |i: int|
                        if 0 <= i < members@.len() {
                            (members@[i].0@, members@[i].1.view())
                        } else {
                            (Seq::empty(), Json::Null)
                        },
                ),
            ),
        }
    }
}

/// What the items of an array hold.
pub open spec fn items_view(items: Seq<Value>) -> Seq<Json> {
    Seq::new(items.len(), |i: int| items[i].view())
}

/// What the members of an object hold.
pub open spec fn members_view(members: Seq<(String, Value)>) -> Seq<(Seq<char>, Json)> {
    Seq::new(members.len(), |i: int| (members[i].0@, members[i].1.view()))
}

/// An array of `items`.
pub fn array(items: Vec<Value>) -> (value: Value)
    ensures
        value.view() == Json::Array(items_view(items@)),
{
    let value = Value::Array(items);
    assert(value.view()->Array_0 =~= items_view(items@));
    value
}

/// An object of `members`.
pub fn object(members: Vec<(String, Value)>) -> (value: Value)
    ensures
        value.view() == Json::Object(members_view(members@)),
{
    let value = Value::Object(members);
    assert(value.view()->Object_0 =~= members_view(members@));
    value
}

/// Adds an item to those of an array.
pub fn push_item(items: &mut Vec<Value>, value: Value)
    ensures
        items_view(final(items)@) == items_view(old(items)@).push(value.view()),
{
    items.push(value);
    assert(items_view(items@) =~= items_view(old(items)@).push(value.view()));
}

/// Adds a member to those of an object.
pub fn push_member(members: &mut Vec<(String, Value)>, name: &str, value: Value)
    ensures
        members_view(final(members)@) == members_view(old(members)@).push((name@, value.view())),
{
    members.push((name.to_owned(), value));
    assert(members_view(members@) =~= members_view(old(members)@).push((name@, value.view())));
}

} // verus!

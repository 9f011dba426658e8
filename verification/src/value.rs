//! The values that a store holds.

use crate::entries::distinct;
use vstd::prelude::*;

verus! {

/// Any value that a store can hold, whatever format its file is written in.
///
/// A `Float` holds the IEEE 754 binary64 bit pattern of its number. An `Object`
/// keeps its members in insertion order.
#[derive(Debug, PartialEq)]
pub enum Value {
    Null,
    Bool(bool),
    Int(i64),
    Uint(u64),
    Float(u64),
    String(String),
    Array(Vec<Value>),
    Object(Vec<(String, Value)>),
}

/// The mathematical tree that a [`Value`] stands for.
pub enum ValueView {
    Null,
    Bool(bool),
    Int(i64),
    Uint(u64),
    Float(u64),
    String(Seq<char>),
    Array(Seq<ValueView>),
    Object(Seq<(Seq<char>, ValueView)>),
}

/// The tree of a value.
pub open spec fn tree(value: Value) -> ValueView
    decreases value,
{
    match value {
        Value::Null => ValueView::Null,
        Value::Bool(b) => ValueView::Bool(b),
        Value::Int(i) => ValueView::Int(i),
        Value::Uint(u) => ValueView::Uint(u),
        Value::Float(bits) => ValueView::Float(bits),
        Value::String(s) => ValueView::String(s@),
        Value::Array(items) => ValueView::Array(
            Seq::new(
                items.len() as nat,
                |i: int| if 0 <= i < items.len() { tree(items[i]) } else { ValueView::Null },
            ),
        ),
        Value::Object(members) => ValueView::Object(
            Seq::new(
                members.len() as nat,
                |i: int|
                    if 0 <= i < members.len() {
                        (members[i].0@, tree(members[i].1))
                    } else {
                        (Seq::empty(), ValueView::Null)
                    },
            ),
        ),
    }
}

impl View for Value {
    type V = ValueView;

    open spec fn view(&self) -> ValueView {
        tree(*self)
    }
}

/// The trees of a sequence of values.
pub open spec fn items_view(items: Seq<Value>) -> Seq<ValueView> {
    Seq::new(items.len(), |i: int| items[i]@)
}

/// The names and trees of a sequence of members.
pub open spec fn members_view(members: Seq<(String, Value)>) -> Seq<(Seq<char>, ValueView)> {
    Seq::new(members.len(), |i: int| (members[i].0@, members[i].1@))
}

/// The tree of an array is made of the trees of its items.
pub proof fn array_view(items: Vec<Value>)
    ensures
        Value::Array(items)@ == ValueView::Array(items_view(items@)),
{
    let left = Value::Array(items)@;
    assert(left is Array);
    let f = |i: int| if 0 <= i < items.len() { items[i]@ } else { ValueView::Null };
    let right = Seq::new(items.len() as nat, f);
    assert(right.len() == items@.len());
    assert(left->Array_0.len() == items@.len());
    assert(left->Array_0 =~= items_view(items@));
}

/// The tree of an object is made of its members' names and trees.
pub proof fn object_view(members: Vec<(String, Value)>)
    ensures
        Value::Object(members)@ == ValueView::Object(members_view(members@)),
{
    assert(Value::Object(members)@->Object_0 =~= members_view(members@));
}

/// Recursion from an array to one of its items goes down.
pub proof fn item_is_smaller(value: Value, i: int)
    requires
        value is Array,
        0 <= i < value->Array_0.len(),
    ensures
        decreases_to!(value => value->Array_0[i]),
{
    assert(decreases_to!(value => value->Array_0));
    assert(decreases_to!(value->Array_0 => value->Array_0@));
    assert(decreases_to!(value->Array_0@ => value->Array_0@[i]));
}

/// Recursion from an object to what one of its members holds goes down.
pub proof fn member_is_smaller(value: Value, i: int)
    requires
        value is Object,
        0 <= i < value->Object_0.len(),
    ensures
        decreases_to!(value => value->Object_0[i].1),
{
    assert(decreases_to!(value => value->Object_0));
    assert(decreases_to!(value->Object_0 => value->Object_0@));
    assert(decreases_to!(value->Object_0@ => value->Object_0@[i]));
    assert(decreases_to!(value->Object_0@[i] => value->Object_0@[i].1));
}

impl ValueView {
    /// No object anywhere in the tree has two members of one name.
    pub open spec fn well_formed(self) -> bool
        decreases self,
    {
        match self {
            ValueView::Array(items) => forall|i: int|
                0 <= i < items.len() ==> (#[trigger] items[i]).well_formed(),
            ValueView::Object(members) => {
                &&& distinct(members)
                &&& forall|i: int|
                    0 <= i < members.len() ==> (#[trigger] members[i]).1.well_formed()
            },
            _ => true,
        }
    }
}

impl Clone for Value {
    /// A value of the same tree.
    fn clone(&self) -> (r: Self)
        ensures
            r@ == self@,
        decreases self,
    {
        match self {
            Value::Null => Value::Null,
            Value::Bool(b) => Value::Bool(*b),
            Value::Int(i) => Value::Int(*i),
            Value::Uint(u) => Value::Uint(*u),
            Value::Float(bits) => Value::Float(*bits),
            Value::String(s) => Value::String(s.clone()),
            Value::Array(items) => {
                let mut copy: Vec<Value> = Vec::new();
                let mut i: usize = 0;
                while i < items.len()
                    invariant
                        i <= items.len(),
                        *self == Value::Array(*items),
                        copy.len() == i,
                        forall|j: int| 0 <= j < i ==> copy[j]@ == items[j]@,
                    decreases items.len() - i,
                {
                    proof {
                        item_is_smaller(*self, i as int);
                    }
                    copy.push(items[i].clone());
                    i += 1;
                }
                proof {
                    array_view(copy);
                    array_view(*items);
                    assert(items_view(copy@) =~= items_view(items@));
                }
                Value::Array(copy)
            },
            Value::Object(members) => {
                let mut copy: Vec<(String, Value)> = Vec::new();
                let mut i: usize = 0;
                while i < members.len()
                    invariant
                        i <= members.len(),
                        *self == Value::Object(*members),
                        copy.len() == i,
                        forall|j: int|
                            0 <= j < i ==> copy[j].0@ == members[j].0@ && copy[j].1@
                                == members[j].1@,
                    decreases members.len() - i,
                {
                    proof {
                        member_is_smaller(*self, i as int);
                    }
                    copy.push((members[i].0.clone(), members[i].1.clone()));
                    i += 1;
                }
                proof {
                    object_view(copy);
                    object_view(*members);
                    assert(members_view(copy@) =~= members_view(members@));
                }
                Value::Object(copy)
            },
        }
    }
}

impl Value {
    /// Whether the value is an object.
    pub fn is_object(&self) -> (r: bool)
        ensures
            r == (self@ is Object),
    {
        self.as_object().is_some()
    }

    /// The members of an object, in order; nothing for any other value.
    pub fn as_object(&self) -> (r: Option<&Vec<(String, Value)>>)
        ensures
            r is Some == (self@ is Object),
            r matches Some(members) ==> *self == Value::Object(*members) && self@
                == ValueView::Object(members_view(members@)),
    {
        match self {
            Value::Object(members) => {
                proof {
                    object_view(*members);
                }
                Some(members)
            },
            _ => None,
        }
    }
}

} // verus!

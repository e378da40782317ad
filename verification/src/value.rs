//! JSON values as plain data: the parameters, configurations and results that
//! actions are called with.

use vstd::prelude::*;

verus! {

/// A JSON value. A number is an integer that is not negative, one that is, or
/// the text of a number that is not an integer. The members of an object stand
/// in the order of their keys.
#[derive(Debug, PartialEq)]
pub enum Value {
    Null,
    Bool(bool),
    UInt(u64),
    NegInt(i64),
    Float(String),
    Str(String),
    Array(Vec<Value>),
    Object(Vec<(String, Value)>),
}

/// A JSON value as mathematics.
#[verifier::ext_equal]
pub enum Json {
    Null,
    Bool(bool),
    UInt(u64),
    NegInt(i64),
    Float(Seq<char>),
    Str(Seq<char>),
    Array(Seq<Json>),
    Object(Seq<(Seq<char>, Json)>),
}

pub open spec fn items(v: Seq<Value>) -> Seq<Json> {
    Seq::new(v.len(), |i: int| v[i]@)
}

pub open spec fn members(m: Seq<(String, Value)>) -> Seq<(Seq<char>, Json)> {
    Seq::new(m.len(), |i: int| (m[i].0@, m[i].1@))
}

pub open spec fn opt_json(v: Option<&Value>) -> Option<Json> {
    match v {
        Some(x) => Some(x@),
        None => None,
    }
}

pub open spec fn opt_value(v: Option<Value>) -> Option<Json> {
    match v {
        Some(x) => Some(x@),
        None => None,
    }
}

impl Value {
    pub open spec fn view(&self) -> Json
        decreases self,
    {
        match self {
            Value::Null => Json::Null,
            Value::Bool(b) => Json::Bool(*b),
            Value::UInt(n) => Json::UInt(*n),
            Value::NegInt(n) => Json::NegInt(*n),
            Value::Float(t) => Json::Float(t@),
            Value::Str(s) => Json::Str(s@),
            Value::Array(v) => Json::Array(
                Seq::new(
                    v@.len(),
                    |i: int|
                        if 0 <= i < v@.len() {
                            v@[i].view()
                        } else {
                            Json::Null
                        },
                ),
            ),
            Value::Object(m) => Json::Object(
                Seq::new(
                    m@.len(),
                    |i: int|
                        if 0 <= i < m@.len() {
                            (m@[i].0@, m@[i].1.view())
                        } else {
                            (Seq::empty(), Json::Null)
                        },
                ),
            ),
        }
    }
}

/// The view of an array is the array of the views of its items.
pub broadcast proof fn lemma_array_view(v: Vec<Value>)
    ensures
        #[trigger] Value::Array(v)@ == Json::Array(items(v@)),
{
    match Value::Array(v)@ {
        Json::Array(s) => {
            assert(s =~= items(v@));
        },
        _ => {},
    }
}

/// The view of an object is the object of the views of its members.
pub broadcast proof fn lemma_object_view(m: Vec<(String, Value)>)
    ensures
        #[trigger] Value::Object(m)@ == Json::Object(members(m@)),
{
    match Value::Object(m)@ {
        Json::Object(s) => {
            assert(s =~= members(m@));
        },
        _ => {},
    }
}

pub broadcast group group_value_views {
    lemma_array_view,
    lemma_object_view,
}

} // verus!

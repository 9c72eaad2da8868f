//! The primitive values that an object can carry.

use crate::compiled_code::Float;
use crate::object_pointer::ObjectPointer;
use vstd::prelude::*;

verus! {

/// The payload of an object: one of a fixed set of primitive values.
#[derive(Debug)]
pub enum ObjectValue {
    /// No payload.
    Empty,
    Integer(i64),
    Float(Float),
    String(String),
    Array(Vec<ObjectPointer>),
}

/// The mathematical value of an [`ObjectValue`].
pub ghost enum ObjectValueView {
    Empty,
    Integer(i64),
    Float(u64),
    String(Seq<char>),
    Array(Seq<ObjectPointer>),
}

impl View for ObjectValue {
    type V = ObjectValueView;

    open spec fn view(&self) -> ObjectValueView {
        match *self {
            ObjectValue::Empty => ObjectValueView::Empty,
            ObjectValue::Integer(value) => ObjectValueView::Integer(value),
            ObjectValue::Float(value) => ObjectValueView::Float(value.bits),
            ObjectValue::String(value) => ObjectValueView::String(value@),
            ObjectValue::Array(value) => ObjectValueView::Array(value@),
        }
    }
}

impl ObjectValue {
    /// Whether there is no payload.
    pub fn is_none(&self) -> (answer: bool)
        ensures
            answer == (self@ is Empty),
    {
        match self {
            ObjectValue::Empty => true,
            _ => false,
        }
    }

    /// Whether the payload is a string.
    pub fn is_string(&self) -> (answer: bool)
        ensures
            answer == (self@ is String),
    {
        match self {
            ObjectValue::String(_) => true,
            _ => false,
        }
    }

    /// The string that this value holds.
    pub fn as_string(&self) -> (string: Option<&String>)
        ensures
            match string {
                Some(string) => self@ == ObjectValueView::String(string@),
                None => !(self@ is String),
            },
    {
        match self {
            ObjectValue::String(value) => Some(value),
            _ => None,
        }
    }

    /// The integer that this value holds.
    pub fn as_integer(&self) -> (integer: Option<i64>)
        ensures
            match integer {
                Some(integer) => self@ == ObjectValueView::Integer(integer),
                None => !(self@ is Integer),
            },
    {
        match self {
            ObjectValue::Integer(value) => Some(*value),
            _ => None,
        }
    }
}

/// No payload.
pub fn none() -> (value: ObjectValue)
    ensures
        value@ == ObjectValueView::Empty,
{
    ObjectValue::Empty
}

/// An integer as a payload.
pub fn integer(number: i64) -> (value: ObjectValue)
    ensures
        value@ == ObjectValueView::Integer(number),
{
    ObjectValue::Integer(number)
}

/// A double as a payload.
pub fn float(number: Float) -> (value: ObjectValue)
    ensures
        value@ == ObjectValueView::Float(number.bits),
{
    ObjectValue::Float(number)
}

/// A string as a payload.
pub fn string(text: String) -> (value: ObjectValue)
    ensures
        value@ == ObjectValueView::String(text@),
{
    ObjectValue::String(text)
}

/// An array of pointers as a payload.
pub fn array(items: Vec<ObjectPointer>) -> (value: ObjectValue)
    ensures
        value@ == ObjectValueView::Array(items@),
{
    ObjectValue::Array(items)
}

} // verus!

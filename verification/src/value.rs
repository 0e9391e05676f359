//! The value stored under a key.

use crate::float::F64Bits;
use vstd::prelude::*;
use vstd::std_specs::convert::FromSpecImpl;

verus! {

/// The one kind of data that a `Value` holds.
#[derive(Clone, Debug, PartialEq, PartialOrd)]
pub enum Ev {
    String(String),
    Binary(Vec<u8>),
    Integer(i64),
    /// A floating-point number, kept as the bit pattern of its `f64`.
    Float(F64Bits),
    Bool(bool),
}

/// A stored value; `ev` is `None` for the empty value.
#[derive(Clone, Debug, PartialEq, PartialOrd)]
pub struct Value {
    pub ev: Option<Ev>,
}

/// What an `Ev` holds, as mathematical values.
pub enum EvView {
    String(Seq<char>),
    Binary(Seq<u8>),
    Integer(i64),
    Float(u64),
    Bool(bool),
}

impl View for Ev {
    type V = EvView;

    open spec fn view(&self) -> EvView {
        match self {
            Ev::String(s) => EvView::String(s@),
            Ev::Binary(b) => EvView::Binary(b@),
            Ev::Integer(i) => EvView::Integer(*i),
            Ev::Float(f) => EvView::Float(f.0),
            Ev::Bool(b) => EvView::Bool(*b),
        }
    }
}

/// What a `Value` holds: `None` for the empty value.
pub type ValueView = Option<EvView>;

impl View for Value {
    type V = ValueView;

    open spec fn view(&self) -> ValueView {
        match self.ev {
            Some(e) => Some(e@),
            None => None,
        }
    }
}

/// The empty value, which a read of a missing key gives.
pub open spec fn empty_value() -> Value {
    Value { ev: None }
}

impl Value {
    /// A floating-point value from the bit pattern of its `f64`.
    pub fn from_f64_bits(bits: u64) -> (v: Value)
        ensures
            v == (Value { ev: Some(Ev::Float(F64Bits(bits))) }),
    {
        Value { ev: Some(Ev::Float(F64Bits(bits))) }
    }
}

impl Default for Value {
    fn default() -> (v: Value)
        ensures
            v == empty_value(),
    {
        Value { ev: None }
    }
}

impl From<String> for Value {
    fn from(value: String) -> (v: Value) {
        Value { ev: Some(Ev::String(value)) }
    }
}

impl FromSpecImpl<String> for Value {
    open spec fn obeys_from_spec() -> bool {
        true
    }

    open spec fn from_spec(v: String) -> Value {
        Value { ev: Some(Ev::String(v)) }
    }
}

impl From<Vec<u8>> for Value {
    fn from(value: Vec<u8>) -> (v: Value) {
        Value { ev: Some(Ev::Binary(value)) }
    }
}

impl FromSpecImpl<Vec<u8>> for Value {
    open spec fn obeys_from_spec() -> bool {
        true
    }

    open spec fn from_spec(v: Vec<u8>) -> Value {
        Value { ev: Some(Ev::Binary(v)) }
    }
}

impl From<i64> for Value {
    fn from(value: i64) -> (v: Value) {
        Value { ev: Some(Ev::Integer(value)) }
    }
}

impl FromSpecImpl<i64> for Value {
    open spec fn obeys_from_spec() -> bool {
        true
    }

    open spec fn from_spec(v: i64) -> Value {
        Value { ev: Some(Ev::Integer(v)) }
    }
}

impl<'a> From<&'a str> for Value {
    fn from(value: &'a str) -> (v: Value)
        ensures
            v.ev matches Some(Ev::String(s)) && s@ == value@,
    {
        Value { ev: Some(Ev::String(value.to_owned())) }
    }
}

impl<'a> FromSpecImpl<&'a str> for Value {
    /// A `String` cannot be built in a specification, so the text that the
    /// result holds is stated by the `ensures` of `from` itself.
    open spec fn obeys_from_spec() -> bool {
        false
    }

    open spec fn from_spec(v: &'a str) -> Value {
        empty_value()
    }
}

impl<'a> From<&'a [u8]> for Value {
    fn from(value: &'a [u8]) -> (v: Value)
        ensures
            v.ev matches Some(Ev::Binary(b)) && b@ == value@,
    {
        Value { ev: Some(Ev::Binary(vstd::slice::slice_to_vec(value))) }
    }
}

impl<'a> FromSpecImpl<&'a [u8]> for Value {
    /// A `Vec` cannot be built in a specification, so the bytes that the
    /// result holds are stated by the `ensures` of `from` itself.
    open spec fn obeys_from_spec() -> bool {
        false
    }

    open spec fn from_spec(v: &'a [u8]) -> Value {
        empty_value()
    }
}

} // verus!

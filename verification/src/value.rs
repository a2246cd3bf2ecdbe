//! A tagged runtime value. The machine computes with numbers alone; this
//! type is for the values of a fuller language.

use vstd::prelude::*;

verus! {

/// A number is a double, held as the 64 bits of its IEEE 754 encoding.
#[derive(Clone, Copy, Debug, PartialEq, Eq, Structural)]
pub enum ValueType {
    Bool(bool),
    Number(u64),
    Nil,
}

/// A value of the language.
#[derive(Clone, Copy, Debug, PartialEq, Eq, Structural)]
pub struct Value {
    pub value: ValueType,
}

/// What asking a value for the wrong kind answers.
pub open spec fn wrong_kind() -> Seq<char> {
    "something went wrong"@
}

impl Value {
    /// The value `nil`.
    pub fn new() -> (v: Self)
        ensures
            v.value == ValueType::Nil,
    {
        Self { value: ValueType::Nil }
    }

    /// A truth value.
    pub fn from_bool(value: bool) -> (v: Self)
        ensures
            v.value == ValueType::Bool(value),
    {
        Self { value: ValueType::Bool(value) }
    }

    /// A number, given by the bits of the double.
    pub fn from_float(value: u64) -> (v: Self)
        ensures
            v.value == ValueType::Number(value),
    {
        Self { value: ValueType::Number(value) }
    }

    /// The truth value, where the value is one.
    pub fn as_bool(&self) -> (r: Result<bool, &'static str>)
        ensures
            match self.value {
                ValueType::Bool(b) => r == Ok::<bool, &'static str>(b),
                _ => r is Err && r->Err_0@ == wrong_kind(),
            },
    {
        if let ValueType::Bool(b) = self.value {
            return Ok(b);
        } else {
            return Err("something went wrong")
        }
    }

    /// The number, where the value is one.
    pub fn as_float(&self) -> (r: Result<u64, &'static str>)
        ensures
            match self.value {
                ValueType::Number(n) => r == Ok::<u64, &'static str>(n),
                _ => r is Err && r->Err_0@ == wrong_kind(),
            },
    {
        if let ValueType::Number(n) = self.value {
            return Ok(n);
        } else {
            return Err("something went wrong")
        }
    }
}

} // verus!

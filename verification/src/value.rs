//! The values that a field of a measurement can hold.

use vstd::prelude::*;
use vstd::string::StringExecFns;

use crate::text::decimal;
use crate::text::push_decimal;

verus! {

/// A floating point number, held as the bit pattern of its IEEE 754 double
/// and the decimal text that stands for it on the wire. The library carries
/// both through and computes with neither.
#[derive(Debug, Clone, PartialEq, Eq)]
pub struct Float {
    pub bits: u64,
    pub text: String,
}

impl Float {
    /// A floating point number from its bit pattern and its decimal text.
    pub fn new(bits: u64, text: String) -> (f: Float)
        ensures
            f.bits == bits,
            f.text == text,
    {
        Float { bits, text }
    }
}

/// The value of one field.
#[derive(Debug, Clone, PartialEq, Eq)]
pub enum Value {
    Integer(i64),
    Float(Float),
    String(String),
    Boolean(bool),
}

impl Value {
    /// The text of the value in line protocol: integers as bare decimals,
    /// floating point numbers by their decimal text, strings as they are,
    /// booleans as `true` and `false`.
    pub open spec fn text(&self) -> Seq<char> {
        match self {
            Value::Integer(v) => decimal(*v as int),
            Value::Float(v) => v.text@,
            Value::String(v) => v@,
            Value::Boolean(v) => if *v {
                "true"@
            } else {
                "false"@
            },
        }
    }

    /// Appends the text of the value to `out`.
    pub fn push_text(&self, out: &mut String)
        ensures
            final(out)@ == old(out)@ + self.text(),
    {
        match self {
            Value::Integer(v) => push_decimal(out, *v as i128),
            Value::Float(v) => out.append(v.text.as_str()),
            Value::String(v) => out.append(v.as_str()),
            Value::Boolean(v) => if *v {
                out.append("true")
            } else {
                out.append("false")
            },
        }
    }

    /// The text of the value in line protocol.
    pub fn to_string(&self) -> (s: String)
        ensures
            s@ == self.text(),
    {
        let mut s = String::new();
        self.push_text(&mut s);
        s
    }
}

impl From<i64> for Value {
    fn from(other: i64) -> (v: Value) {
        Value::Integer(other)
    }
}

impl vstd::std_specs::convert::FromSpecImpl<i64> for Value {
    open spec fn obeys_from_spec() -> bool {
        true
    }

    open spec fn from_spec(other: i64) -> Value {
        Value::Integer(other)
    }
}

impl From<Float> for Value {
    fn from(other: Float) -> (v: Value) {
        Value::Float(other)
    }
}

impl vstd::std_specs::convert::FromSpecImpl<Float> for Value {
    open spec fn obeys_from_spec() -> bool {
        true
    }

    open spec fn from_spec(other: Float) -> Value {
        Value::Float(other)
    }
}

impl From<String> for Value {
    fn from(other: String) -> (v: Value) {
        Value::String(other)
    }
}

impl vstd::std_specs::convert::FromSpecImpl<String> for Value {
    open spec fn obeys_from_spec() -> bool {
        true
    }

    open spec fn from_spec(other: String) -> Value {
        Value::String(other)
    }
}

impl From<bool> for Value {
    fn from(other: bool) -> (v: Value) {
        Value::Boolean(other)
    }
}

impl vstd::std_specs::convert::FromSpecImpl<bool> for Value {
    open spec fn obeys_from_spec() -> bool {
        true
    }

    open spec fn from_spec(other: bool) -> Value {
        Value::Boolean(other)
    }
}

} // verus!

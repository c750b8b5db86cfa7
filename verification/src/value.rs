//! SQL values, as the engine holds them and as the protocol carries them.
//!
//! A floating-point value is held by the 64 bits of its IEEE 754 form, so
//! that it passes through unchanged.

use vstd::prelude::*;
use vstd::slice::*;

verus! {

/// The mathematical content of a value.
pub enum ValueView {
    Null,
    Integer(i64),
    Real(u64),
    Text(Seq<char>),
    Blob(Seq<u8>),
}

/// A value of the SQL engine.
#[derive(Debug, PartialEq, Eq)]
pub enum Value {
    Null,
    Integer(i64),
    /// The bits of a 64-bit float.
    Real(u64),
    Text(String),
    Blob(Vec<u8>),
}

impl View for Value {
    type V = ValueView;

    open spec fn view(&self) -> ValueView {
        match self {
            Value::Null => ValueView::Null,
            Value::Integer(value) => ValueView::Integer(*value),
            Value::Real(bits) => ValueView::Real(*bits),
            Value::Text(value) => ValueView::Text(value@),
            Value::Blob(value) => ValueView::Blob(value@),
        }
    }
}

/// A value as the protocol carries it.
#[derive(Debug, PartialEq, Eq)]
#[allow(inconsistent_fields)]
pub enum ProtoValue {
    Null,
    Integer { value: i64 },
    /// The bits of a 64-bit float.
    Float { value: u64 },
    Text { value: String },
    Blob { value: Vec<u8> },
}

impl View for ProtoValue {
    type V = ValueView;

    open spec fn view(&self) -> ValueView {
        match self {
            ProtoValue::Null => ValueView::Null,
            ProtoValue::Integer { value } => ValueView::Integer(*value),
            ProtoValue::Float { value } => ValueView::Real(*value),
            ProtoValue::Text { value } => ValueView::Text(value@),
            ProtoValue::Blob { value } => ValueView::Blob(value@),
        }
    }
}

/// The engine's value for a value of the protocol.
pub open spec fn value_of_proto(proto_value: ProtoValue) -> Value {
    match proto_value {
        ProtoValue::Null => Value::Null,
        ProtoValue::Integer { value } => Value::Integer(value),
        ProtoValue::Float { value } => Value::Real(value),
        ProtoValue::Text { value } => Value::Text(value),
        ProtoValue::Blob { value } => Value::Blob(value),
    }
}

/// The protocol's value for a value of the engine.
pub open spec fn proto_of_value(value: Value) -> ProtoValue {
    match value {
        Value::Null => ProtoValue::Null,
        Value::Integer(value) => ProtoValue::Integer { value },
        Value::Real(value) => ProtoValue::Float { value },
        Value::Text(value) => ProtoValue::Text { value },
        Value::Blob(value) => ProtoValue::Blob { value },
    }
}

/// The engine's value for a value of the protocol: the same variant with the
/// same content.
pub fn proto_value_to_value(proto_value: &ProtoValue) -> (value: Value)
    ensures
        value@ == value_of_proto(*proto_value)@,
        value@ == proto_value@,
{
    match proto_value {
        ProtoValue::Null => Value::Null,
        ProtoValue::Integer { value } => Value::Integer(*value),
        ProtoValue::Float { value } => Value::Real(*value),
        ProtoValue::Text { value } => Value::Text(value.clone()),
        ProtoValue::Blob { value } => Value::Blob(slice_to_vec(value.as_slice())),
    }
}

/// The protocol's value for a value of the engine: the same variant with the
/// same content.
pub fn proto_value_from_value(value: Value) -> (proto_value: ProtoValue)
    ensures
        proto_value == proto_of_value(value),
        proto_value@ == value@,
{
    match value {
        Value::Null => ProtoValue::Null,
        Value::Integer(value) => ProtoValue::Integer { value },
        Value::Real(value) => ProtoValue::Float { value },
        Value::Text(value) => ProtoValue::Text { value },
        Value::Blob(value) => ProtoValue::Blob { value },
    }
}

/// A value that goes to the protocol and comes back is the value it was, and
/// so is one that comes from the protocol and goes back, whatever the
/// variant, the bytes of a blob or the size of an integer.
pub proof fn lemma_value_round_trip(value: Value, proto_value: ProtoValue)
    ensures
        value_of_proto(proto_of_value(value)) == value,
        proto_of_value(value_of_proto(proto_value)) == proto_value,
        proto_of_value(value)@ == value@,
        value_of_proto(proto_value)@ == proto_value@,
{
}

} // verus!

//! Values on the wire: an integer goes as its decimal text and a blob as
//! base64 text, so that every client reads them alike.

use vstd::prelude::*;
use vstd::slice::*;
use vstd::string::*;
use vstd::utf8::{encode_utf8, is_ascii_chars_encode_utf8};
use crate::text::{
    ascii_bytes, decimal, integer_of, lemma_decimal_round_trip, parse_decimal, to_decimal,
};
use crate::value::{ProtoValue, ValueView};

verus! {

/// The base64 text of bytes.
pub uninterp spec fn blob_text(bytes: Seq<u8>) -> Seq<char>;

/// The bytes that a base64 text stands for, if it stands for any.
pub uninterp spec fn blob_bytes(text: Seq<char>) -> Option<Seq<u8>>;

/// `Engine::encode` of the `base64` crate, with the standard alphabet and
/// without padding: the text form of the bytes, which decodes to them again.
/// The length of the text overflows only from three quarters of `usize::MAX`
/// bytes on, which no slice holds.
#[verifier::external_body]
fn encode_blob(bytes: &[u8]) -> (text: String)
    ensures
        text@ == blob_text(bytes@),
        blob_bytes(text@) == Some(bytes@),
{
    base64::Engine::encode(&base64::engine::general_purpose::STANDARD_NO_PAD, bytes)
}

/// `Engine::decode` of the `base64` crate, with the standard alphabet and
/// without padding: the bytes that the text stands for, or nothing where it
/// stands for none.
#[verifier::external_body]
fn decode_blob(text: &str) -> (bytes: Option<Vec<u8>>)
    ensures
        bytes is Some <==> blob_bytes(text@) is Some,
        bytes matches Some(b) ==> blob_bytes(text@) == Some(b@),
{
    base64::Engine::decode(&base64::engine::general_purpose::STANDARD_NO_PAD, text).ok()
}

/// A value as the wire carries it.
#[derive(Debug, PartialEq, Eq)]
#[allow(inconsistent_fields)]
pub enum WireValue {
    Null,
    /// The integer in decimal.
    Integer { value: String },
    /// The bits of a 64-bit float.
    Float { value: u64 },
    Text { value: String },
    /// The blob in base64.
    Blob { base64: String },
}

/// The mathematical content of a value on the wire.
pub enum WireView {
    Null,
    Integer(Seq<char>),
    Float(u64),
    Text(Seq<char>),
    Blob(Seq<char>),
}

impl View for WireValue {
    type V = WireView;

    open spec fn view(&self) -> WireView {
        match self {
            WireValue::Null => WireView::Null,
            WireValue::Integer { value } => WireView::Integer(value@),
            WireValue::Float { value } => WireView::Float(*value),
            WireValue::Text { value } => WireView::Text(value@),
            WireValue::Blob { base64 } => WireView::Blob(base64@),
        }
    }
}

/// Why a value on the wire is no value.
#[derive(Clone, Copy, Debug, PartialEq, Eq, Structural)]
pub enum WireError {
    /// The text of an integer is no decimal number that 64 bits hold.
    InvalidInteger,
    /// The text of a blob is no base64.
    InvalidBase64,
}

/// The wire form of a value.
pub open spec fn wire_of(value: ValueView) -> WireView {
    match value {
        ValueView::Null => WireView::Null,
        ValueView::Integer(v) => WireView::Integer(decimal(v as int)),
        ValueView::Real(bits) => WireView::Float(bits),
        ValueView::Text(text) => WireView::Text(text),
        ValueView::Blob(bytes) => WireView::Blob(blob_text(bytes)),
    }
}

/// The value that a wire form stands for.
pub open spec fn value_of_wire(wire: WireView) -> Result<ValueView, WireError> {
    match wire {
        WireView::Null => Ok(ValueView::Null),
        WireView::Integer(text) => match integer_of(encode_utf8(text)) {
            Some(v) => Ok(ValueView::Integer(v)),
            None => Err(WireError::InvalidInteger),
        },
        WireView::Float(bits) => Ok(ValueView::Real(bits)),
        WireView::Text(text) => Ok(ValueView::Text(text)),
        WireView::Blob(text) => match blob_bytes(text) {
            Some(bytes) => Ok(ValueView::Blob(bytes)),
            None => Err(WireError::InvalidBase64),
        },
    }
}

/// The decimal text of an integer is read as that integer again, also at
/// the ends of the range.
pub proof fn lemma_integer_round_trip(v: i64)
    ensures
        value_of_wire(wire_of(ValueView::Integer(v))) == Ok::<ValueView, WireError>(
            ValueView::Integer(v),
        ),
{
    lemma_decimal_round_trip(v);
    is_ascii_chars_encode_utf8(decimal(v as int));
    assert(encode_utf8(decimal(v as int)) =~= ascii_bytes(decimal(v as int)));
}

/// A value that is no blob is read from its wire form as the value it was.
pub proof fn lemma_wire_round_trip(value: ValueView)
    requires
        !(value is Blob),
    ensures
        value_of_wire(wire_of(value)) == Ok::<ValueView, WireError>(value),
{
    if let ValueView::Integer(v) = value {
        lemma_integer_round_trip(v);
    }
}

/// Puts a value in its wire form. The wire form is read as the value again,
/// whatever the variant.
pub fn value_to_wire(value: &ProtoValue) -> (wire: WireValue)
    ensures
        wire@ == wire_of(value@),
        value_of_wire(wire@) == Ok::<ValueView, WireError>(value@),
{
    match value {
        ProtoValue::Null => WireValue::Null,
        ProtoValue::Integer { value } => {
            proof {
                lemma_integer_round_trip(*value);
            }
            WireValue::Integer { value: to_decimal(*value) }
        },
        ProtoValue::Float { value } => WireValue::Float { value: *value },
        ProtoValue::Text { value } => WireValue::Text { value: value.clone() },
        ProtoValue::Blob { value } => WireValue::Blob { base64: encode_blob(value.as_slice()) },
    }
}

/// Reads a value from its wire form.
pub fn value_from_wire(wire: &WireValue) -> (r: Result<ProtoValue, WireError>)
    ensures
        r matches Ok(value) ==> value_of_wire(wire@) == Ok::<ValueView, WireError>(value@),
        r matches Err(e) ==> value_of_wire(wire@) == Err::<ValueView, WireError>(e),
{
    match wire {
        WireValue::Null => Ok(ProtoValue::Null),
        WireValue::Integer { value } => match parse_decimal(value.as_str()) {
            Some(v) => Ok(ProtoValue::Integer { value: v }),
            None => Err(WireError::InvalidInteger),
        },
        WireValue::Float { value } => Ok(ProtoValue::Float { value: *value }),
        WireValue::Text { value } => Ok(ProtoValue::Text { value: value.clone() }),
        WireValue::Blob { base64 } => match decode_blob(base64.as_str()) {
            Some(bytes) => Ok(ProtoValue::Blob { value: bytes }),
            None => Err(WireError::InvalidBase64),
        },
    }
}

} // verus!

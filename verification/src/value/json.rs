//! Values on the wire: untagged JSON scalars.

use vstd::prelude::*;
use vstd::string::*;

use crate::error::{ErrorKind, MyError};
use crate::value::datetime_iso8601::{naive_text, serialize, serialize_zoned, zoned_text};
use crate::value::{hyphenated_char, parsed, quoted, uuid_format, uuid_text, Value, ValueView};

verus! {

/// What stands at a value site of a JSON document. Numbers are told apart as
/// a JSON reader tells them: non-negative integers, negative integers, and
/// the rest as floats. Of an array or an object only the shape is kept.
#[derive(Debug, Clone, PartialEq, Eq)]
pub enum Json {
    Null,
    Bool(bool),
    Unsigned(u64),
    Signed(i64),
    /// A 64-bit float as its IEEE 754 bit pattern.
    Float(u64),
    Text(String),
    Array,
    Object,
}

/// The mathematical content of a [`Json`].
pub ghost enum JsonView {
    Null,
    Bool(bool),
    Unsigned(u64),
    Signed(i64),
    Float(u64),
    Text(Seq<char>),
    Array,
    Object,
}

impl View for Json {
    type V = JsonView;

    open spec fn view(&self) -> JsonView {
        match *self {
            Json::Null => JsonView::Null,
            Json::Bool(b) => JsonView::Bool(b),
            Json::Unsigned(u) => JsonView::Unsigned(u),
            Json::Signed(i) => JsonView::Signed(i),
            Json::Float(f) => JsonView::Float(f),
            Json::Text(s) => JsonView::Text(s@),
            Json::Array => JsonView::Array,
            Json::Object => JsonView::Object,
        }
    }
}

/// Whether a bit pattern is a finite float: its exponent is not all ones.
pub open spec fn finite(bits: u64) -> bool {
    (bits >> 52u64) & 0x7ffu64 != 0x7ffu64
}

/// The value that a JSON scalar decodes to; nothing for an unsigned number
/// beyond the signed 64-bit range and for null, arrays and objects.
pub open spec fn decoded(json: JsonView) -> Option<ValueView> {
    match json {
        JsonView::Bool(b) => Some(ValueView::Bool(b)),
        JsonView::Unsigned(u) => if u <= i64::MAX {
            Some(ValueView::Int(u as i64))
        } else {
            None
        },
        JsonView::Signed(i) => Some(ValueView::Int(i)),
        JsonView::Float(f) => Some(ValueView::Float(f)),
        JsonView::Text(s) => Some(parsed(s)),
        JsonView::Null | JsonView::Array | JsonView::Object => None,
    }
}

/// The JSON scalar that a value encodes to; nothing for date-time fields
/// that are no date-time. A float that is not finite encodes to null.
pub open spec fn encoded(value: ValueView) -> Option<JsonView> {
    match value {
        ValueView::Bool(b) => Some(JsonView::Bool(b)),
        ValueView::Uuid(u) => Some(JsonView::Text(uuid_text(u))),
        ValueView::Int(i) => Some(
            if i >= 0 {
                JsonView::Unsigned(i as u64)
            } else {
                JsonView::Signed(i)
            },
        ),
        ValueView::Float(f) => Some(
            if finite(f) {
                JsonView::Float(f)
            } else {
                JsonView::Null
            },
        ),
        ValueView::DateTimeTz(z) => match zoned_text(z) {
            Some(text) => Some(JsonView::Text(text)),
            None => None,
        },
        ValueView::DateTime(d) => match naive_text(d) {
            Some(text) => Some(JsonView::Text(text)),
            None => None,
        },
        ValueView::String(s) => Some(JsonView::Text(s)),
    }
}

/// The values that come back unchanged from their encoding: booleans,
/// integers, UUIDs and finite floats always; a string or a date-time where
/// the text written for it is read as that same value again.
pub open spec fn faithful(value: ValueView) -> bool {
    match value {
        ValueView::Bool(_) | ValueView::Int(_) | ValueView::Uuid(_) => true,
        ValueView::Float(f) => finite(f),
        ValueView::String(s) => parsed(s) == value,
        ValueView::DateTimeTz(z) => zoned_text(z) is Some && parsed(zoned_text(z).unwrap()) == value,
        ValueView::DateTime(d) => naive_text(d) is Some && parsed(naive_text(d).unwrap()) == value,
    }
}

impl Value {
    /// Decodes the scalar at a value site. Booleans and numbers keep their
    /// type, an integer must fit in 64 signed bits, a text has its type
    /// inferred, and null, arrays and objects are refused.
    pub fn from_json(json: &Json) -> (r: Result<Value, MyError>)
        ensures
            match decoded(json@) {
                Some(v) => r is Ok && r->Ok_0@ == v,
                None => r is Err && r->Err_0.kind == ErrorKind::TypeCoercion,
            },
    {
        match json {
            Json::Bool(b) => Ok(Value::Bool(*b)),
            Json::Unsigned(u) => {
                if *u <= 0x7fff_ffff_ffff_ffffu64 {
                    Ok(Value::Int(*u as i64))
                } else {
                    Err(MyError::new(ErrorKind::TypeCoercion, "value is larger then i64::MAX"))
                }
            },
            Json::Signed(i) => Ok(Value::Int(*i)),
            Json::Float(f) => Ok(Value::Float(*f)),
            Json::Text(s) => Ok(Value::parse_str(s.as_str())),
            _ => Err(MyError::new(ErrorKind::TypeCoercion, "invalid type: expected json like data")),
        }
    }

    /// Encodes the value as a JSON scalar: booleans, numbers and strings as
    /// themselves, a UUID and the date-times as text. Decoding the result
    /// gives the value back where the value is [`faithful`], and only there.
    pub fn to_json(&self) -> (r: Result<Json, MyError>)
        ensures
            match encoded(self@) {
                Some(j) => r is Ok && r->Ok_0@ == j,
                None => r is Err && r->Err_0.kind == ErrorKind::TypeCoercion,
            },
            r is Ok ==> (decoded(r->Ok_0@) == Some(self@) <==> faithful(self@)),
    {
        match self {
            Value::Bool(b) => Ok(Json::Bool(*b)),
            Value::Uuid(u) => {
                let text = uuid_format(*u);
                proof {
                    assert(hyphenated_char(text@[0]));
                    assert(!quoted(text@));
                }
                Ok(Json::Text(text))
            },
            Value::Int(i) => {
                if *i >= 0 {
                    Ok(Json::Unsigned(*i as u64))
                } else {
                    Ok(Json::Signed(*i))
                }
            },
            Value::Float(f) => {
                if (*f >> 52u64) & 0x7ffu64 != 0x7ffu64 {
                    Ok(Json::Float(*f))
                } else {
                    Ok(Json::Null)
                }
            },
            Value::DateTimeTz(z) => match serialize_zoned(z) {
                Ok(text) => Ok(Json::Text(text)),
                Err(e) => Err(e),
            },
            Value::DateTime(d) => match serialize(d) {
                Ok(text) => Ok(Json::Text(text)),
                Err(e) => Err(e),
            },
            Value::String(s) => Ok(Json::Text(s.clone())),
        }
    }
}

} // verus!

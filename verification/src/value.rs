//! The typed value: a closed union that bridges loosely typed JSON input,
//! bound SQL parameters and decoded database columns.

use vstd::prelude::*;
use vstd::string::*;

pub mod datetime_iso8601;
pub mod json;
pub mod column;
pub mod map;

pub use column::OptionalJsonMapWrapper;
use datetime_iso8601::{naive_parsed, zoned_parsed, NaiveDateTime, ZonedDateTime};

verus! {

/// What `uuid::Uuid::try_parse` makes of a text: the UUID as a 128-bit
/// big-endian number, or nothing where the text is no UUID.
pub uninterp spec fn uuid_parsed(text: Seq<char>) -> Option<u128>;

/// The text that `uuid` writes for a UUID in its hyphenated form.
pub uninterp spec fn uuid_text(uuid: u128) -> Seq<char>;

/// A character of a hyphenated UUID: a lower-case hexadecimal digit or a hyphen.
pub open spec fn hyphenated_char(c: char) -> bool {
    ('0' <= c && c <= '9') || ('a' <= c && c <= 'f') || c == '-'
}

/// A typed value. The variants stand in the order in which an untyped text
/// is tried against them; that order is part of the contract.
#[derive(Debug, Clone, PartialEq, Eq)]
pub enum Value {
    Bool(bool),
    /// A UUID as its 128-bit big-endian number.
    Uuid(u128),
    Int(i64),
    /// A 64-bit float as its IEEE 754 bit pattern.
    Float(u64),
    DateTimeTz(ZonedDateTime),
    DateTime(NaiveDateTime),
    String(String),
}

/// Column names with a value each: the input of an insert.
pub type JsonMap = map::ColumnMap<Value>;

/// Column names with a value each or none for SQL NULL: a row that a query
/// returned.
pub type OptionalJsonMap = map::ColumnMap<Option<Value>>;

/// The mathematical content of a [`Value`].
pub ghost enum ValueView {
    Bool(bool),
    Uuid(u128),
    Int(i64),
    Float(u64),
    DateTimeTz(ZonedDateTime),
    DateTime(NaiveDateTime),
    String(Seq<char>),
}

impl View for Value {
    type V = ValueView;

    open spec fn view(&self) -> ValueView {
        match *self {
            Value::Bool(b) => ValueView::Bool(b),
            Value::Uuid(u) => ValueView::Uuid(u),
            Value::Int(i) => ValueView::Int(i),
            Value::Float(f) => ValueView::Float(f),
            Value::DateTimeTz(z) => ValueView::DateTimeTz(z),
            Value::DateTime(d) => ValueView::DateTime(d),
            Value::String(s) => ValueView::String(s@),
        }
    }
}

/// The SQL type that a value is bound as.
#[derive(Debug, Clone, Copy, PartialEq, Eq, Structural)]
pub enum SqlType {
    Bool,
    Uuid,
    BigInt,
    Double,
    TimestampTz,
    Timestamp,
    Text,
}

/// Whether a text of at least two characters begins and ends with a double quote.
pub open spec fn quoted(s: Seq<char>) -> bool {
    s.len() >= 2 && s.first() == '"' && s.last() == '"'
}

/// A text without its surrounding double quotes, however many layers there are.
pub open spec fn unquoted(s: Seq<char>) -> Seq<char>
    decreases s.len(),
{
    if quoted(s) {
        unquoted(s.subrange(1, s.len() - 1))
    } else {
        s
    }
}

/// The value that an unquoted text stands for: a UUID first, then a date-time
/// without zone, then one with a zone, and a plain string where none fits.
pub open spec fn sniffed(s: Seq<char>) -> ValueView {
    match uuid_parsed(s) {
        Some(u) => ValueView::Uuid(u),
        None => match naive_parsed(s) {
            Some(d) => ValueView::DateTime(d),
            None => match zoned_parsed(s) {
                Some(z) => ValueView::DateTimeTz(z),
                None => ValueView::String(s),
            },
        },
    }
}

/// The value that an untyped text stands for.
pub open spec fn parsed(s: Seq<char>) -> ValueView {
    sniffed(unquoted(s))
}

/// Whether a text matches none of the recognised UUID and date-time patterns.
pub open spec fn plain(s: Seq<char>) -> bool {
    uuid_parsed(s) is None && naive_parsed(s) is None && zoned_parsed(s) is None
}

/// Calls `uuid::Uuid::try_parse` and hands the UUID back as the number that
/// `Uuid::as_u128` gives. Trusted: the result is the one that `uuid_parsed`
/// names for this text.
#[verifier::external_body]
fn uuid_try_parse(text: &str) -> (r: Option<u128>)
    ensures
        r == uuid_parsed(text@),
{
    match uuid::Uuid::try_parse(text) {
        Ok(uuid) => Some(uuid.as_u128()),
        Err(_) => None,
    }
}

/// Writes a UUID with `uuid::Uuid::hyphenated`. Trusted: the text is the one
/// that `uuid_text` names; it has 36 characters, each a lower-case hexadecimal
/// digit or a hyphen; and `Uuid::try_parse` reads the same UUID back from it.
#[verifier::external_body]
pub(crate) fn uuid_format(uuid: u128) -> (s: String)
    ensures
        s@ == uuid_text(uuid),
        s@.len() == 36,
        forall|i: int| 0 <= i < s@.len() ==> hyphenated_char(#[trigger] s@[i]),
        uuid_parsed(s@) == Some(uuid),
{
    uuid::Uuid::from_u128(uuid).hyphenated().to_string()
}

impl Value {
    /// Infers the type of an untyped text. Surrounding double quotes are
    /// stripped; what is left is a UUID if it parses as one, else a date-time
    /// without zone, else a date-time with zone, else the text itself.
    pub fn parse_str(value: &str) -> (v: Value)
        ensures
            v@ == parsed(value@),
    {
        let mut inner = value;
        let mut n = inner.unicode_len();
        while n >= 2 && inner.get_char(0) == '"' && inner.get_char(n - 1) == '"'
            invariant
                n == inner@.len(),
                unquoted(inner@) == unquoted(value@),
            decreases n,
        {
            inner = inner.substring_char(1, n - 1);
            n = inner.unicode_len();
        }
        if let Some(uuid) = uuid_try_parse(inner) {
            return Value::Uuid(uuid);
        }
        if let Ok(dt) = datetime_iso8601::parse_datetime(inner) {
            return Value::DateTime(dt);
        }
        if let Some(dt) = datetime_iso8601::parse_zoned(inner) {
            return Value::DateTimeTz(dt);
        }
        Value::String(String::from_str(inner))
    }

    /// The SQL type under which the value is bound as a statement parameter.
    pub fn sql_type(&self) -> (t: SqlType)
        ensures
            t == match self@ {
                ValueView::Bool(_) => SqlType::Bool,
                ValueView::Uuid(_) => SqlType::Uuid,
                ValueView::Int(_) => SqlType::BigInt,
                ValueView::Float(_) => SqlType::Double,
                ValueView::DateTimeTz(_) => SqlType::TimestampTz,
                ValueView::DateTime(_) => SqlType::Timestamp,
                ValueView::String(_) => SqlType::Text,
            },
    {
        match self {
            Value::Bool(_) => SqlType::Bool,
            Value::Uuid(_) => SqlType::Uuid,
            Value::Int(_) => SqlType::BigInt,
            Value::Float(_) => SqlType::Double,
            Value::DateTimeTz(_) => SqlType::TimestampTz,
            Value::DateTime(_) => SqlType::Timestamp,
            Value::String(_) => SqlType::Text,
        }
    }

    /// A copy with the same content.
    pub fn duplicate(&self) -> (v: Value)
        ensures
            v@ == self@,
    {
        match self {
            Value::Bool(b) => Value::Bool(*b),
            Value::Uuid(u) => Value::Uuid(*u),
            Value::Int(i) => Value::Int(*i),
            Value::Float(f) => Value::Float(*f),
            Value::DateTimeTz(z) => Value::DateTimeTz(*z),
            Value::DateTime(d) => Value::DateTime(*d),
            Value::String(s) => Value::String(s.clone()),
        }
    }
}

/// A text that is not quoted and matches no recognised pattern stands for
/// itself: it is parsed to the string it is.
pub proof fn lemma_plain_text_is_string(s: Seq<char>)
    requires
        !quoted(s),
        plain(s),
    ensures
        parsed(s) == ValueView::String(s),
{
}

/// Under its quotes, a text that matches no recognised pattern is parsed to
/// the string that the quotes surround.
pub proof fn lemma_quoted_plain_text_is_string(s: Seq<char>)
    requires
        plain(unquoted(s)),
    ensures
        parsed(s) == ValueView::String(unquoted(s)),
{
}

/// Recognition goes before plain text: an unquoted text that parses as a
/// UUID is never a string.
pub proof fn lemma_uuid_precedes_string(s: Seq<char>)
    requires
        !quoted(s),
        uuid_parsed(s) is Some,
    ensures
        parsed(s) == ValueView::Uuid(uuid_parsed(s).unwrap()),
        !(parsed(s) is String),
{
}

} // verus!

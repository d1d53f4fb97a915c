//! Date-times as plain calendar fields, and their ISO 8601 text.

use vstd::prelude::*;
use vstd::string::*;

use crate::error::{ErrorKind, MyError};

verus! {

/// A date and a time of day without a zone.
#[derive(Debug, Clone, Copy, PartialEq, Eq, Structural)]
pub struct NaiveDateTime {
    pub year: i32,
    /// 1 for January to 12 for December.
    pub month: u8,
    pub day: u8,
    pub hour: u8,
    pub minute: u8,
    pub second: u8,
    pub nanosecond: u32,
}

/// A date and a time of day as a clock shows them at the given offset from UTC.
#[derive(Debug, Clone, Copy, PartialEq, Eq, Structural)]
pub struct ZonedDateTime {
    pub local: NaiveDateTime,
    /// Seconds east of UTC.
    pub offset_seconds: i32,
}

/// The failure of `time` to parse a text, carried from the call to the
/// place where it becomes a failure of this library.
#[verifier::external_type_specification]
#[verifier::external_body]
pub struct ExParse(time::error::Parse);

/// What `time::PrimitiveDateTime::parse` makes of a text under a format
/// description: the date-time, or nothing where the text does not match the
/// description or the description is not one.
pub uninterp spec fn naive_parsed_with(format: Seq<char>, text: Seq<char>) -> Option<NaiveDateTime>;

/// What `time::OffsetDateTime::parse` makes of a text under the well-known
/// ISO 8601 format: the date-time, or nothing where the text does not match.
pub uninterp spec fn zoned_parsed(text: Seq<char>) -> Option<ZonedDateTime>;

/// The text that `time` writes for a date-time without zone in ISO 8601, or
/// nothing where the fields are no date-time that `time` accepts.
pub uninterp spec fn naive_text(datetime: NaiveDateTime) -> Option<Seq<char>>;

/// The text that `time` writes for a date-time with zone in the ISO 8601
/// form of its serde support, or nothing where the fields are no date-time
/// that `time` accepts.
pub uninterp spec fn zoned_text(datetime: ZonedDateTime) -> Option<Seq<char>>;

/// The format of a date-time without zone: `YYYY-MM-DDTHH:MM:SS`.
pub open spec fn naive_format() -> Seq<char> {
    "[year]-[month]-[day]T[hour]:[minute]:[second]"@
}

/// What a text is as a date-time without zone.
pub open spec fn naive_parsed(text: Seq<char>) -> Option<NaiveDateTime> {
    naive_parsed_with(naive_format(), text)
}

/// Calls `time::PrimitiveDateTime::parse` with the description that
/// `time::format_description::parse_borrowed` reads from `format` (an empty
/// one where `format` is no description), and hands the date-time back as
/// calendar fields. Trusted: success and the fields are those that
/// `naive_parsed_with` names for the two texts.
#[verifier::external_body]
fn primitive_parse(value: &str, format: &str) -> (r: Result<NaiveDateTime, time::error::Parse>)
    ensures
        r.is_ok() == naive_parsed_with(format@, value@).is_some(),
        r.is_ok() ==> r.unwrap() == naive_parsed_with(format@, value@).unwrap(),
{
    let items = time::format_description::parse_borrowed::<2>(format).unwrap_or_default();
    let dt = time::PrimitiveDateTime::parse(value, &items)?;
    Ok(NaiveDateTime {
        year: dt.year(),
        month: dt.month().into(),
        day: dt.day(),
        hour: dt.hour(),
        minute: dt.minute(),
        second: dt.second(),
        nanosecond: dt.nanosecond(),
    })
}

/// Writes the message of a `time::error::Parse` with its `Display`.
/// Nothing is claimed of the text.
#[verifier::external_body]
fn parse_failure_text(failure: &time::error::Parse) -> (s: String) {
    failure.to_string()
}

/// Calls `time::OffsetDateTime::parse` with `Iso8601::DEFAULT` and hands the
/// date-time back as calendar fields and offset. Trusted: the result is the
/// one that `zoned_parsed` names for the text.
#[verifier::external_body]
pub(crate) fn parse_zoned(value: &str) -> (r: Option<ZonedDateTime>)
    ensures
        r == zoned_parsed(value@),
{
    let format = time::format_description::well_known::Iso8601::DEFAULT;
    let dt = time::OffsetDateTime::parse(value, &format).ok()?;
    let local = NaiveDateTime {
        year: dt.year(),
        month: dt.month().into(),
        day: dt.day(),
        hour: dt.hour(),
        minute: dt.minute(),
        second: dt.second(),
        nanosecond: dt.nanosecond(),
    };
    Some(ZonedDateTime { local, offset_seconds: dt.offset().whole_seconds() })
}

/// Calls `time::PrimitiveDateTime::format` with `Iso8601::DATE_TIME` on the
/// date-time that `time` builds from the fields. Trusted: the text is the one
/// that `naive_text` names for the fields, and there is none where it names none.
#[verifier::external_body]
fn primitive_format(datetime: &NaiveDateTime) -> (r: Option<String>)
    ensures
        r.is_some() == naive_text(*datetime).is_some(),
        r.is_some() ==> r.unwrap()@ == naive_text(*datetime).unwrap(),
{
    let month = time::Month::try_from(datetime.month).ok()?;
    let date = time::Date::from_calendar_date(datetime.year, month, datetime.day).ok()?;
    let time =
        time::Time::from_hms_nano(datetime.hour, datetime.minute, datetime.second, datetime.nanosecond).ok()?;
    let format = time::format_description::well_known::Iso8601::DATE_TIME;
    time::PrimitiveDateTime::new(date, time).format(&format).ok()
}

/// Calls `time::serde::iso8601::serialize` on the date-time that `time`
/// builds from the fields and the offset, with `serde_json`'s value
/// serializer, and takes the text out. Trusted: the text is the one that
/// `zoned_text` names for the fields, and there is none where it names none.
#[verifier::external_body]
fn offset_format(datetime: &ZonedDateTime) -> (r: Option<String>)
    ensures
        r.is_some() == zoned_text(*datetime).is_some(),
        r.is_some() ==> r.unwrap()@ == zoned_text(*datetime).unwrap(),
{
    let local = &datetime.local;
    let month = time::Month::try_from(local.month).ok()?;
    let date = time::Date::from_calendar_date(local.year, month, local.day).ok()?;
    let time = time::Time::from_hms_nano(local.hour, local.minute, local.second, local.nanosecond).ok()?;
    let offset = time::UtcOffset::from_whole_seconds(datetime.offset_seconds).ok()?;
    let dt = time::OffsetDateTime::new_in_offset(date, time, offset);
    match time::serde::iso8601::serialize(&dt, serde_json::value::Serializer) {
        Ok(serde_json::Value::String(text)) => Some(text),
        _ => None,
    }
}

/// Reads a date-time without zone, written as `YYYY-MM-DDTHH:MM:SS`.
pub fn parse_datetime(value: &str) -> (r: Result<NaiveDateTime, MyError>)
    ensures
        match naive_parsed(value@) {
            Some(dt) => r == Ok::<NaiveDateTime, MyError>(dt),
            None => r is Err && r->Err_0.kind == ErrorKind::Parse,
        },
{
    match primitive_parse(value, "[year]-[month]-[day]T[hour]:[minute]:[second]") {
        Ok(dt) => Ok(dt),
        Err(failure) => Err(MyError { kind: ErrorKind::Parse, message: parse_failure_text(&failure) }),
    }
}

/// Writes a date-time without zone as ISO 8601 text, with no offset. Fields
/// that are no date-time are a failure.
pub fn serialize(datetime: &NaiveDateTime) -> (r: Result<String, MyError>)
    ensures
        match naive_text(*datetime) {
            Some(text) => r is Ok && r->Ok_0@ == text,
            None => r is Err && r->Err_0.kind == ErrorKind::TypeCoercion,
        },
{
    match primitive_format(datetime) {
        Some(text) => Ok(text),
        None => Err(MyError::new(ErrorKind::TypeCoercion, "not a date and time of day")),
    }
}

/// Writes a date-time with zone as ISO 8601 text that carries the offset.
/// Fields that are no date-time are a failure.
pub fn serialize_zoned(datetime: &ZonedDateTime) -> (r: Result<String, MyError>)
    ensures
        match zoned_text(*datetime) {
            Some(text) => r is Ok && r->Ok_0@ == text,
            None => r is Err && r->Err_0.kind == ErrorKind::TypeCoercion,
        },
{
    match offset_format(datetime) {
        Some(text) => Ok(text),
        None => Err(MyError::new(ErrorKind::TypeCoercion, "not a date and time of day with offset")),
    }
}

/// Reads a date-time without zone from the text that stands for it in JSON.
pub fn deserialize(text: &str) -> (r: Result<NaiveDateTime, MyError>)
    ensures
        match naive_parsed(text@) {
            Some(dt) => r == Ok::<NaiveDateTime, MyError>(dt),
            None => r is Err && r->Err_0.kind == ErrorKind::Parse,
        },
{
    parse_datetime(text)
}

} // verus!

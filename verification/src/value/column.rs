//! Decoding database columns by the type name that the database reports.

use vstd::prelude::*;
use vstd::string::*;

use crate::text::same_text;
use crate::value::datetime_iso8601::{NaiveDateTime, ZonedDateTime};
use crate::value::map::ColumnMap;
use crate::value::{OptionalJsonMap, Value, ValueView};

verus! {

/// The way a column is read, chosen by its type name.
#[derive(Debug, Clone, Copy, PartialEq, Eq, Structural)]
pub enum ColumnKind {
    Bool,
    Int2,
    Int4,
    Int8,
    Float4,
    Float8,
    Timestamp,
    TimestampTz,
    Uuid,
    /// Any other type: read as text.
    Other,
}

/// The kind that a type name selects.
pub open spec fn kind_of(sql_name: Seq<char>) -> ColumnKind {
    if sql_name == "BOOL"@ || sql_name == "BOOLEAN"@ {
        ColumnKind::Bool
    } else if sql_name == "INT2"@ {
        ColumnKind::Int2
    } else if sql_name == "INT4"@ {
        ColumnKind::Int4
    } else if sql_name == "INT8"@ {
        ColumnKind::Int8
    } else if sql_name == "FLOAT4"@ {
        ColumnKind::Float4
    } else if sql_name == "FLOAT8"@ {
        ColumnKind::Float8
    } else if sql_name == "TIMESTAMP"@ {
        ColumnKind::Timestamp
    } else if sql_name == "TIMESTAMPTZ"@ {
        ColumnKind::TimestampTz
    } else if sql_name == "UUID"@ {
        ColumnKind::Uuid
    } else {
        ColumnKind::Other
    }
}

/// Chooses how to read a column from the type name that the database reports.
pub fn column_kind(sql_name: &str) -> (k: ColumnKind)
    ensures
        k == kind_of(sql_name@),
{
    if same_text(sql_name, "BOOL") || same_text(sql_name, "BOOLEAN") {
        ColumnKind::Bool
    } else if same_text(sql_name, "INT2") {
        ColumnKind::Int2
    } else if same_text(sql_name, "INT4") {
        ColumnKind::Int4
    } else if same_text(sql_name, "INT8") {
        ColumnKind::Int8
    } else if same_text(sql_name, "FLOAT4") {
        ColumnKind::Float4
    } else if same_text(sql_name, "FLOAT8") {
        ColumnKind::Float8
    } else if same_text(sql_name, "TIMESTAMP") {
        ColumnKind::Timestamp
    } else if same_text(sql_name, "TIMESTAMPTZ") {
        ColumnKind::TimestampTz
    } else if same_text(sql_name, "UUID") {
        ColumnKind::Uuid
    } else {
        ColumnKind::Other
    }
}

/// What was read from one column of one row, in the column's own width.
#[derive(Debug, Clone, PartialEq, Eq)]
pub enum Cell {
    Bool(bool),
    Int2(i16),
    Int4(i32),
    Int8(i64),
    /// A 32- or 64-bit float column as the bit pattern of the 64-bit float.
    Float(u64),
    Timestamp(NaiveDateTime),
    TimestampTz(ZonedDateTime),
    Uuid(u128),
    Text(String),
}

/// The value of a cell, integers widened to 64 bits.
pub open spec fn cell_value(cell: Cell) -> ValueView {
    match cell {
        Cell::Bool(b) => ValueView::Bool(b),
        Cell::Int2(i) => ValueView::Int(i as i64),
        Cell::Int4(i) => ValueView::Int(i as i64),
        Cell::Int8(i) => ValueView::Int(i),
        Cell::Float(f) => ValueView::Float(f),
        Cell::Timestamp(d) => ValueView::DateTime(d),
        Cell::TimestampTz(z) => ValueView::DateTimeTz(z),
        Cell::Uuid(u) => ValueView::Uuid(u),
        Cell::Text(s) => ValueView::String(s@),
    }
}

/// The value of a column that may hold SQL NULL.
pub open spec fn cell_view(cell: Option<Cell>) -> Option<ValueView> {
    match cell {
        Some(cell) => Some(cell_value(cell)),
        None => None,
    }
}

/// The content of an optional value.
pub open spec fn optional_view(value: Option<Value>) -> Option<ValueView> {
    match value {
        Some(value) => Some(value@),
        None => None,
    }
}

/// Decodes one column: SQL NULL is an absent value, never a failure, and
/// narrower integers are widened.
pub fn decode_cell(cell: &Option<Cell>) -> (v: Option<Value>)
    ensures
        optional_view(v) == cell_view(*cell),
{
    match cell {
        None => None,
        Some(Cell::Bool(b)) => Some(Value::Bool(*b)),
        Some(Cell::Int2(i)) => Some(Value::Int(*i as i64)),
        Some(Cell::Int4(i)) => Some(Value::Int(*i as i64)),
        Some(Cell::Int8(i)) => Some(Value::Int(*i)),
        Some(Cell::Float(f)) => Some(Value::Float(*f)),
        Some(Cell::Timestamp(d)) => Some(Value::DateTime(*d)),
        Some(Cell::TimestampTz(z)) => Some(Value::DateTimeTz(*z)),
        Some(Cell::Uuid(u)) => Some(Value::Uuid(*u)),
        Some(Cell::Text(s)) => Some(Value::String(s.clone())),
    }
}

/// One column of one row as the database returned it: its name, and what
/// was read from it, nothing for SQL NULL.
#[derive(Debug, Clone, PartialEq, Eq)]
pub struct Column {
    pub name: String,
    pub cell: Option<Cell>,
}

/// A decoded row.
#[derive(Debug, PartialEq, Eq)]
pub struct OptionalJsonMapWrapper(pub OptionalJsonMap);

/// The content of a decoded row: each name with the content of its value.
pub open spec fn row_view(row: Map<Seq<char>, Option<Value>>) -> Map<Seq<char>, Option<ValueView>> {
    Map::new(|k: Seq<char>| row.contains_key(k), |k: Seq<char>| optional_view(row[k]))
}

/// The row that a list of columns decodes to: an entry for every column,
/// absent where the column holds SQL NULL; of two columns with one name the
/// later one stays.
pub open spec fn decoded_row(columns: Seq<Column>) -> Map<Seq<char>, Option<ValueView>>
    decreases columns.len(),
{
    if columns.len() == 0 {
        Map::empty()
    } else {
        decoded_row(columns.drop_last()).insert(columns.last().name@, cell_view(columns.last().cell))
    }
}

impl OptionalJsonMapWrapper {
    /// Decodes a row column by column. No column is dropped: each has an
    /// entry in the result, and SQL NULL is an entry without a value.
    pub fn from_row(columns: &Vec<Column>) -> (row: OptionalJsonMapWrapper)
        ensures
            row_view(row.0@) == decoded_row(columns@),
            forall|i: int| 0 <= i < columns@.len() ==> row.0@.contains_key(#[trigger] columns@[i].name@),
    {
        let mut data: OptionalJsonMap = ColumnMap::new();
        let mut i: usize = 0;
        assert(row_view(data@) =~= decoded_row(columns@.take(0)));
        while i < columns.len()
            invariant
                0 <= i <= columns.len(),
                row_view(data@) == decoded_row(columns@.take(i as int)),
                forall|j: int| 0 <= j < i ==> data@.contains_key(#[trigger] columns@[j].name@),
            decreases columns.len() - i,
        {
            let ghost before = data@;
            let value = decode_cell(&columns[i].cell);
            data.insert(columns[i].name.clone(), value);
            proof {
                assert(columns@.take(i + 1).drop_last() =~= columns@.take(i as int));
                assert(columns@.take(i + 1).last() == columns@[i as int]);
                assert(row_view(data@) =~= row_view(before).insert(
                    columns@[i as int].name@,
                    optional_view(value),
                ));
            }
            i = i + 1;
        }
        assert(columns@.take(columns.len() as int) =~= columns@);
        OptionalJsonMapWrapper(data)
    }
}

} // verus!

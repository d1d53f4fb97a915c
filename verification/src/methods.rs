//! The statements of the three record operations, and what is made of the
//! rows that come back. Running a statement is the caller's part.

use vstd::prelude::*;
use vstd::string::*;

pub mod sql;

use crate::error::{ErrorKind, MyError};
use crate::text::{decimal, join, join_strings, render_decimal, strictly_sorted, views};
use crate::value::map::sorted_columns;
use crate::value::{parsed, JsonMap, OptionalJsonMap, Value};
use sql::{format_params_ast, query_text, unsupported, Ast, CompiledQuery};

verus! {

/// The body of an insert request: one record, or a list of records.
#[derive(Debug, PartialEq, Eq)]
pub enum InsertBody {
    One(JsonMap),
    Many(Vec<JsonMap>),
}

impl InsertBody {
    /// The one record of the body. A list of records is refused: inserting
    /// several records at once is not supported.
    pub fn single(self) -> (r: Result<JsonMap, MyError>)
        ensures
            match self {
                InsertBody::One(data) => r == Ok::<JsonMap, MyError>(data),
                InsertBody::Many(_) => r is Err && r->Err_0.kind == ErrorKind::TypeCoercion,
            },
    {
        match self {
            InsertBody::One(data) => Ok(data),
            InsertBody::Many(_) => Err(
                MyError::new(ErrorKind::TypeCoercion, "inserting a list of records is not supported"),
            ),
        }
    }
}

/// The text of the lookup of one record by its id.
pub open spec fn get_text(table: Seq<char>) -> Seq<char> {
    "SELECT * FROM "@ + table + " WHERE id = $1"@
}

/// The placeholders `$1` to `$n`.
pub open spec fn placeholders(n: nat) -> Seq<Seq<char>> {
    Seq::new(n, |i: int| "$"@ + decimal((i + 1) as nat))
}

/// The text of the insert of one record with the given columns.
pub open spec fn insert_text(table: Seq<char>, columns: Seq<Seq<char>>) -> Seq<char> {
    "INSERT INTO "@ + table + " ("@ + join(columns, ", "@) + ") VALUES ("@ + join(
        placeholders(columns.len()),
        ", "@,
    ) + ") RETURNING *"@
}

/// The statement that looks one record up by its id. The id is bound as the
/// value that its text stands for.
pub fn get_statement(table_name: &str, record_id: &str) -> (q: CompiledQuery)
    ensures
        q.sql@ == get_text(table_name@),
        q.params@.len() == 1,
        q.params@[0]@ == parsed(record_id@),
{
    let mut sql = String::from_str("SELECT * FROM ");
    sql.append(table_name);
    sql.append(" WHERE id = $1");
    let mut params: Vec<Value> = Vec::new();
    params.push(Value::parse_str(record_id));
    CompiledQuery { sql, params }
}

/// The statement that lists the records of a table in the shape that the
/// descriptor asks for. No order is added to the descriptor's own.
pub fn list_statement(table_name: &str, params: Ast) -> (r: Result<CompiledQuery, MyError>)
    ensures
        match query_text(params, table_name@) {
            Some(text) => r is Ok && r->Ok_0.sql@ == text && r->Ok_0.params@.len() == 0,
            None => r is Err && unsupported(r->Err_0),
        },
{
    format_params_ast(params, table_name)
}

/// The statement that inserts one record and returns it. The columns stand
/// in lexicographic order, whatever the order in which the map was filled,
/// and the value of the i-th column is bound to the i-th placeholder.
pub fn insert_statement(table_name: &str, data: &JsonMap) -> (q: CompiledQuery)
    ensures
        q.sql@ == insert_text(table_name@, sorted_columns(data@.dom())),
        strictly_sorted(sorted_columns(data@.dom())),
        sorted_columns(data@.dom()).to_set() == data@.dom(),
        q.params@.len() == sorted_columns(data@.dom()).len(),
        forall|i: int|
            0 <= i < q.params@.len() ==> data@.contains_key(sorted_columns(data@.dom())[i]) && (
            #[trigger] q.params@[i])@ == data@[sorted_columns(data@.dom())[i]]@,
{
    let columns = data.sorted_names();
    let ghost names = sorted_columns(data@.dom());
    let mut values: Vec<Value> = Vec::new();
    let mut marks: Vec<String> = Vec::new();
    let mut i: usize = 0;
    while i < columns.len()
        invariant
            0 <= i <= columns.len(),
            views(columns@) == names,
            names == sorted_columns(data@.dom()),
            names.to_set() == data@.dom(),
            values@.len() == i,
            marks@.len() == i,
            forall|j: int|
                0 <= j < i ==> data@.contains_key(names[j]) && (#[trigger] values@[j])@ == data@[names[j]]@,
            forall|j: int| 0 <= j < i ==> (#[trigger] marks@[j])@ == placeholders(columns@.len() as nat)[j],
        decreases columns.len() - i,
    {
        assert(views(columns@)[i as int] == columns@[i as int]@);
        // each of the sorted names is a key of the map
        assert(names.to_set().contains(names[i as int]));
        if let Some(value) = data.get(columns[i].as_str()) {
            values.push(value.duplicate());
        }
        let mut mark = String::from_str("$");
        let number = render_decimal(i + 1);
        mark.append(number.as_str());
        marks.push(mark);
        i = i + 1;
    }
    assert(views(marks@) =~= placeholders(names.len()));
    let columns_text = join_strings(&columns, ", ");
    let values_placeholders = join_strings(&marks, ", ");
    let mut sql = String::from_str("INSERT INTO ");
    sql.append(table_name);
    sql.append(" (");
    sql.append(columns_text.as_str());
    sql.append(") VALUES (");
    sql.append(values_placeholders.as_str());
    sql.append(") RETURNING *");
    CompiledQuery { sql, params: values }
}

/// The insert of a record does not depend on the order in which its columns
/// were put into the map: either order gives the same map, and so the same
/// columns in the same places.
pub proof fn lemma_insert_ignores_fill_order(
    table: Seq<char>,
    data: Map<Seq<char>, Value>,
    a: Seq<char>,
    x: Value,
    b: Seq<char>,
    y: Value,
)
    requires
        a != b,
    ensures
        data.insert(a, x).insert(b, y) == data.insert(b, y).insert(a, x),
        insert_text(table, sorted_columns(data.insert(a, x).insert(b, y).dom())) == insert_text(
            table,
            sorted_columns(data.insert(b, y).insert(a, x).dom()),
        ),
{
    assert(data.insert(a, x).insert(b, y) =~= data.insert(b, y).insert(a, x));
}

/// The record that an insert returned: the last row, and a failure where
/// there is no row.
pub fn single_row(rows: Vec<OptionalJsonMap>) -> (r: Result<OptionalJsonMap, MyError>)
    ensures
        rows@.len() == 0 ==> r is Err && r->Err_0.kind == ErrorKind::EmptyResult,
        rows@.len() > 0 ==> r == Ok::<OptionalJsonMap, MyError>(rows@.last()),
{
    let mut rows = rows;
    match rows.pop() {
        Some(row) => Ok(row),
        None => Err(MyError::new(ErrorKind::EmptyResult, "invalid return statement")),
    }
}

} // verus!

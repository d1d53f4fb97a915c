//! The compiler from a query descriptor to SQL text.
//!
//! Table and column names are spliced into the text as they are given: the
//! caller vouches for them.

use vstd::prelude::*;
use vstd::string::*;

use crate::error::{ErrorKind, MyError};
use crate::text::{decimal, join, join_strings, render_decimal, views};
use crate::value::Value;

verus! {

/// A column of a selection, with the name it is given in the output.
#[derive(Debug, Clone, PartialEq, Eq)]
pub struct FieldKey {
    pub column: String,
    pub alias: Option<String>,
}

/// One field of a selection.
#[derive(Debug, PartialEq, Eq)]
pub enum Field {
    /// A plain column.
    Key(FieldKey),
    /// The expansion of a related table: its inner selection.
    Nested(FieldKey, Select),
    /// A path into a JSON column; not compiled.
    Json(FieldKey),
    /// A path into a binary JSON column; not compiled.
    BinaryJson(FieldKey),
}

/// The requested fields, in the order in which they were asked for.
#[derive(Debug, PartialEq, Eq)]
pub struct Select {
    pub fields: Vec<Field>,
}

/// The direction of one sort key.
#[derive(Debug, Clone, Copy, PartialEq, Eq, Structural)]
pub enum Operator {
    Asc,
    Desc,
}

/// Where rows without a value for the sort key go.
#[derive(Debug, Clone, Copy, PartialEq, Eq, Structural)]
pub enum NullOption {
    First,
    Last,
}

/// One sort key.
#[derive(Debug, Clone, PartialEq, Eq)]
pub struct OrderItem {
    pub field: String,
    pub operator: Operator,
    pub nulls_position: Option<NullOption>,
}

/// The sort keys, the most significant first.
#[derive(Debug, Clone, PartialEq, Eq)]
pub struct Order {
    pub fields: Vec<OrderItem>,
}

/// The requested shape of a query.
#[derive(Debug, PartialEq, Eq)]
pub struct Ast {
    pub select: Option<Select>,
    pub order: Option<Order>,
    pub offset: Option<usize>,
    pub limit: Option<usize>,
}

/// SQL text and the parameters bound to `$1`, `$2`, ... in that order.
#[derive(Debug, Clone, PartialEq, Eq)]
pub struct CompiledQuery {
    pub sql: String,
    pub params: Vec<Value>,
}

/// A name under the namespace of the field that holds it, if there is one.
pub open spec fn namespaced(nested: Option<Seq<char>>, name: Seq<char>) -> Seq<char> {
    match nested {
        Some(outer) => outer + "."@ + name,
        None => name,
    }
}

/// The text of a column: `column`, or `column as alias`, both names under
/// the namespace.
pub open spec fn key_text(key: FieldKey, nested: Option<Seq<char>>) -> Seq<char> {
    match key.alias {
        Some(alias) => namespaced(nested, key.column@) + " as "@ + namespaced(nested, alias@),
        None => namespaced(nested, key.column@),
    }
}

/// The text of one field, or nothing where its shape is not supported. A
/// nested field is the text of its inner fields under the namespace of its
/// own text.
pub open spec fn field_text(field: Field, nested: Option<Seq<char>>) -> Option<Seq<char>>
    decreases field,
{
    match field {
        Field::Key(key) => Some(key_text(key, nested)),
        Field::Nested(key, select) => fields_text(select.fields@, Some(key_text(key, nested))),
        _ => None,
    }
}

/// The texts of the fields in their order, separated by `, `, or nothing
/// where one of them is not supported.
pub open spec fn fields_text(fields: Seq<Field>, nested: Option<Seq<char>>) -> Option<Seq<char>>
    decreases fields,
{
    if fields.len() == 0 {
        Some(Seq::empty())
    } else {
        match (fields_text(fields.drop_last(), nested), field_text(fields.last(), nested)) {
            (Some(before), Some(last)) => Some(
                if fields.len() == 1 {
                    last
                } else {
                    before + ", "@ + last
                },
            ),
            _ => None,
        }
    }
}

/// The column list: `*` where nothing is selected.
pub open spec fn select_text(select: Option<Select>, nested: Option<Seq<char>>) -> Option<Seq<char>> {
    match select {
        Some(select) => fields_text(select.fields@, nested),
        None => Some("*"@),
    }
}

/// The text of one sort key: `column ASC|DESC[ NULLS FIRST| NULLS LAST]`.
pub open spec fn order_item_text(item: OrderItem) -> Seq<char> {
    item.field@ + (match item.operator {
        Operator::Asc => " ASC"@,
        Operator::Desc => " DESC"@,
    }) + (match item.nulls_position {
        Some(NullOption::First) => " NULLS FIRST"@,
        Some(NullOption::Last) => " NULLS LAST"@,
        None => Seq::empty(),
    })
}

/// The texts of the sort keys, in their order.
pub open spec fn order_item_texts(items: Seq<OrderItem>) -> Seq<Seq<char>> {
    Seq::new(items.len(), |i: int| order_item_text(items[i]))
}

/// The `ORDER BY` clause: empty where there is no sort key.
pub open spec fn order_text(order: Option<Order>) -> Seq<char> {
    match order {
        Some(order) => if order.fields@.len() == 0 {
            Seq::empty()
        } else {
            " ORDER BY "@ + join(order_item_texts(order.fields@), ", "@)
        },
        None => Seq::empty(),
    }
}

/// The `LIMIT` clause: the number as a literal, empty where there is none.
pub open spec fn limit_text(limit: Option<usize>) -> Seq<char> {
    match limit {
        Some(n) => " LIMIT "@ + decimal(n as nat),
        None => Seq::empty(),
    }
}

/// The `OFFSET` clause: the number as a literal, empty where there is none.
pub open spec fn offset_text(offset: Option<usize>) -> Seq<char> {
    match offset {
        Some(n) => " OFFSET "@ + decimal(n as nat),
        None => Seq::empty(),
    }
}

/// The `SELECT` statement of a descriptor on a table, or nothing where the
/// selection has a shape that is not supported. No join is written for a
/// nested field.
pub open spec fn query_text(ast: Ast, table: Seq<char>) -> Option<Seq<char>> {
    match select_text(ast.select, None) {
        Some(columns) => Some(
            "SELECT "@ + columns + " FROM "@ + table + order_text(ast.order) + limit_text(ast.limit)
                + offset_text(ast.offset),
        ),
        None => None,
    }
}

/// The view of an optional text.
pub open spec fn text_view(text: Option<&str>) -> Option<Seq<char>> {
    match text {
        Some(s) => Some(s@),
        None => None,
    }
}

/// The selection behind an optional reference.
pub open spec fn selected(select: Option<&Select>) -> Option<Select> {
    match select {
        Some(s) => Some(*s),
        None => None,
    }
}

/// Whether a failure is the one that an unsupported selection gives.
pub open spec fn unsupported(e: MyError) -> bool {
    e.kind == ErrorKind::SqlCompile && e.message@ == "this select is not supported yet"@
}

/// Whether the fields are supported does not depend on the namespace.
proof fn lemma_support_ignores_namespace(fields: Seq<Field>, a: Option<Seq<char>>, b: Option<Seq<char>>)
    ensures
        fields_text(fields, a) is Some <==> fields_text(fields, b) is Some,
    decreases fields, 0nat,
{
    if fields.len() > 0 {
        lemma_support_ignores_namespace(fields.drop_last(), a, b);
        lemma_field_support_ignores_namespace(fields.last(), a, b);
    }
}

proof fn lemma_field_support_ignores_namespace(field: Field, a: Option<Seq<char>>, b: Option<Seq<char>>)
    ensures
        field_text(field, a) is Some <==> field_text(field, b) is Some,
    decreases field, 1nat,
{
    match field {
        Field::Nested(key, select) => {
            lemma_support_ignores_namespace(
                select.fields@,
                Some(key_text(key, a)),
                Some(key_text(key, b)),
            );
        },
        _ => {},
    }
}

fn namespaced_name(nested: Option<&str>, name: &str) -> (r: String)
    ensures
        r@ == namespaced(text_view(nested), name@),
{
    match nested {
        Some(outer) => {
            let mut r = String::from_str(outer);
            r.append(".");
            r.append(name);
            r
        },
        None => String::from_str(name),
    }
}

fn format_field_key(key: &FieldKey, nested: Option<&str>) -> (r: String)
    ensures
        r@ == key_text(*key, text_view(nested)),
{
    let mut column = namespaced_name(nested, key.column.as_str());
    if let Some(alias) = &key.alias {
        column.append(" as ");
        let renamed = namespaced_name(nested, alias.as_str());
        column.append(renamed.as_str());
    }
    column
}

fn format_select_field(field: &Field, nested: Option<&str>) -> (r: Result<String, MyError>)
    ensures
        match field_text(*field, text_view(nested)) {
            Some(text) => r is Ok && r->Ok_0@ == text,
            None => r is Err && unsupported(r->Err_0),
        },
    decreases *field, 0nat,
{
    match field {
        Field::Key(key) => Ok(format_field_key(key, nested)),
        Field::Nested(key, inner) => {
            let out = format_field_key(key, nested);
            format_fields(&inner.fields, Some(out.as_str()))
        },
        _ => Err(MyError::new(ErrorKind::SqlCompile, "this select is not supported yet")),
    }
}

fn format_fields(fields: &Vec<Field>, nested: Option<&str>) -> (r: Result<String, MyError>)
    ensures
        match fields_text(fields@, text_view(nested)) {
            Some(text) => r is Ok && r->Ok_0@ == text,
            None => r is Err && unsupported(r->Err_0),
        },
    decreases fields@, 1nat,
{
    let mut out = String::new();
    let mut i: usize = 0;
    while i < fields.len()
        invariant
            0 <= i <= fields.len(),
            fields_text(fields@.take(i as int), text_view(nested)) == Some(out@),
        decreases fields.len() - i,
    {
        proof {
            assert(fields@.take(i + 1).drop_last() =~= fields@.take(i as int));
            assert(fields@.take(i + 1).last() == fields@[i as int]);
        }
        match format_select_field(&fields[i], nested) {
            Ok(text) => {
                if i > 0 {
                    out.append(", ");
                } else {
                    assert(out@ =~= Seq::<char>::empty());
                    assert(out@ + text@ =~= text@);
                }
                out.append(text.as_str());
            },
            Err(e) => {
                proof {
                    lemma_prefix_support(fields@, i + 1, text_view(nested));
                }
                return Err(e);
            },
        }
        i = i + 1;
    }
    assert(fields@.take(fields.len() as int) =~= fields@);
    Ok(out)
}

/// Where a prefix of the fields is not supported, the fields are not.
proof fn lemma_prefix_support(fields: Seq<Field>, n: int, nested: Option<Seq<char>>)
    requires
        0 <= n <= fields.len(),
        fields_text(fields.take(n), nested) is None,
    ensures
        fields_text(fields, nested) is None,
    decreases fields.len(),
{
    if n < fields.len() {
        assert(fields.drop_last().take(n) =~= fields.take(n));
        lemma_prefix_support(fields.drop_last(), n, nested);
    } else {
        assert(fields.take(n) =~= fields);
    }
}

/// Writes the column list of a selection: each field in its order, `*` where
/// there is no selection. The fields of a nested selection stand under the
/// namespace of the field that holds them.
pub fn format_select(select: Option<&Select>, nested: Option<&str>) -> (r: Result<String, MyError>)
    ensures
        match select_text(selected(select), text_view(nested)) {
            Some(text) => r is Ok && r->Ok_0@ == text,
            None => r is Err && unsupported(r->Err_0),
        },
{
    match select {
        Some(select) => format_fields(&select.fields, nested),
        None => Ok(String::from_str("*")),
    }
}

fn inner_collect_paths(field: &Field) -> (r: Result<(), MyError>)
    ensures
        match field_text(*field, None) {
            Some(_) => r is Ok,
            None => r is Err && unsupported(r->Err_0),
        },
    decreases *field, 0nat,
{
    match field {
        Field::Key(_) => Ok(()),
        Field::Nested(key, inner) => {
            proof {
                lemma_support_ignores_namespace(inner.fields@, Some(key_text(*key, None)), None);
            }
            collect_paths(&inner.fields)
        },
        _ => Err(MyError::new(ErrorKind::SqlCompile, "this select is not supported yet")),
    }
}

fn collect_paths(fields: &Vec<Field>) -> (r: Result<(), MyError>)
    ensures
        match fields_text(fields@, None) {
            Some(_) => r is Ok,
            None => r is Err && unsupported(r->Err_0),
        },
    decreases fields@, 1nat,
{
    let mut i: usize = 0;
    while i < fields.len()
        invariant
            0 <= i <= fields.len(),
            fields_text(fields@.take(i as int), None) is Some,
        decreases fields.len() - i,
    {
        proof {
            assert(fields@.take(i + 1).drop_last() =~= fields@.take(i as int));
            assert(fields@.take(i + 1).last() == fields@[i as int]);
        }
        match inner_collect_paths(&fields[i]) {
            Ok(()) => {},
            Err(e) => {
                proof {
                    lemma_prefix_support(fields@, i + 1, None);
                }
                return Err(e);
            },
        }
        i = i + 1;
    }
    assert(fields@.take(fields.len() as int) =~= fields@);
    Ok(())
}

/// Writes the join clause of a selection. No join is inferred for a nested
/// field, so the clause is empty wherever the selection is supported.
pub fn format_join(select: Option<&Select>) -> (r: Result<String, MyError>)
    ensures
        match select_text(selected(select), None) {
            Some(_) => r is Ok && r->Ok_0@ == Seq::<char>::empty(),
            None => r is Err && unsupported(r->Err_0),
        },
{
    match select {
        Some(select) => match collect_paths(&select.fields) {
            Ok(()) => Ok(String::new()),
            Err(e) => Err(e),
        },
        None => Ok(String::new()),
    }
}

fn format_order_field(field: &OrderItem) -> (r: String)
    ensures
        r@ == order_item_text(*field),
{
    let mut ordering = field.field.clone();
    match field.operator {
        Operator::Asc => ordering.append(" ASC"),
        Operator::Desc => ordering.append(" DESC"),
    }
    match field.nulls_position {
        Some(NullOption::First) => ordering.append(" NULLS FIRST"),
        Some(NullOption::Last) => ordering.append(" NULLS LAST"),
        None => {
            assert(ordering@ + Seq::<char>::empty() =~= ordering@);
        },
    }
    ordering
}

/// Writes the `ORDER BY` clause: one item for each sort key, in the order
/// given, and nothing at all where there is no sort key.
pub fn format_order(order: &Option<Order>) -> (r: Result<String, MyError>)
    ensures
        r is Ok,
        r->Ok_0@ == order_text(*order),
{
    match order {
        Some(order) => {
            if order.fields.len() == 0 {
                return Ok(String::new());
            }
            let mut items: Vec<String> = Vec::new();
            let mut i: usize = 0;
            while i < order.fields.len()
                invariant
                    0 <= i <= order.fields.len(),
                    items.len() == i,
                    forall|j: int| 0 <= j < i ==> items@[j]@ == order_item_text(order.fields@[j]),
                decreases order.fields.len() - i,
            {
                items.push(format_order_field(&order.fields[i]));
                i = i + 1;
            }
            assert(views(items@) =~= order_item_texts(order.fields@));
            let mut out = String::from_str(" ORDER BY ");
            let listed = join_strings(&items, ", ");
            out.append(listed.as_str());
            Ok(out)
        },
        None => Ok(String::new()),
    }
}

/// Writes the `LIMIT` clause, the number as a literal.
pub fn format_limit(limit: &Option<usize>) -> (r: Result<String, MyError>)
    ensures
        r is Ok,
        r->Ok_0@ == limit_text(*limit),
{
    match limit {
        Some(limit) => {
            let mut out = String::from_str(" LIMIT ");
            let number = render_decimal(*limit);
            out.append(number.as_str());
            Ok(out)
        },
        None => Ok(String::new()),
    }
}

/// Writes the `OFFSET` clause, the number as a literal.
pub fn format_offset(offset: &Option<usize>) -> (r: Result<String, MyError>)
    ensures
        r is Ok,
        r->Ok_0@ == offset_text(*offset),
{
    match offset {
        Some(offset) => {
            let mut out = String::from_str(" OFFSET ");
            let number = render_decimal(*offset);
            out.append(number.as_str());
            Ok(out)
        },
        None => Ok(String::new()),
    }
}

/// Compiles a descriptor into a `SELECT` statement on the table. The fields
/// and the sort keys keep their order; limit and offset are written as
/// literals, so no parameter is bound. A selection with a shape that is not
/// supported is refused.
pub fn format_params_ast(ast: Ast, table_name: &str) -> (r: Result<CompiledQuery, MyError>)
    ensures
        match query_text(ast, table_name@) {
            Some(text) => r is Ok && r->Ok_0.sql@ == text && r->Ok_0.params@.len() == 0,
            None => r is Err && unsupported(r->Err_0),
        },
{
    let select = match format_select(ast.select.as_ref(), None) {
        Ok(text) => text,
        Err(e) => {
            return Err(e);
        },
    };
    let join_part = match format_join(ast.select.as_ref()) {
        Ok(text) => text,
        Err(e) => {
            return Err(e);
        },
    };
    let order = match format_order(&ast.order) {
        Ok(text) => text,
        Err(e) => {
            return Err(e);
        },
    };
    let limit = match format_limit(&ast.limit) {
        Ok(text) => text,
        Err(e) => {
            return Err(e);
        },
    };
    let offset = match format_offset(&ast.offset) {
        Ok(text) => text,
        Err(e) => {
            return Err(e);
        },
    };
    let mut sql = String::from_str("SELECT ");
    sql.append(select.as_str());
    sql.append(" FROM ");
    sql.append(table_name);
    sql.append(join_part.as_str());
    sql.append(order.as_str());
    sql.append(limit.as_str());
    sql.append(offset.as_str());
    assert(sql@ =~= query_text(ast, table_name@).unwrap());
    Ok(CompiledQuery { sql, params: Vec::new() })
}

} // verus!

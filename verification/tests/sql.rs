use restql_home::methods::sql::{
    format_join, format_limit, format_offset, format_order, format_params_ast, format_select, Ast,
    Field, FieldKey, NullOption, Operator, Order, OrderItem, Select,
};
use restql_home::ErrorKind;

fn convert_key(key: &postgrest_query_parser::ast::FieldKey) -> FieldKey {
    FieldKey {
        column: key.column.clone(),
        alias: key.alias.clone(),
    }
}

fn convert_field(field: &postgrest_query_parser::ast::Field) -> Field {
    match field {
        postgrest_query_parser::ast::Field::Key(key) => Field::Key(convert_key(key)),
        postgrest_query_parser::ast::Field::Nested(key, select) => {
            Field::Nested(convert_key(key), convert_select(select))
        }
        postgrest_query_parser::ast::Field::Json(key, _) => Field::Json(convert_key(key)),
        postgrest_query_parser::ast::Field::BinaryJson(key, _) => {
            Field::BinaryJson(convert_key(key))
        }
    }
}

fn convert_select(select: &postgrest_query_parser::ast::Select) -> Select {
    Select {
        fields: select.fields.iter().map(convert_field).collect(),
    }
}

fn convert_order(order: &postgrest_query_parser::ast::Order) -> Order {
    Order {
        fields: order
            .fields
            .iter()
            .map(|item| OrderItem {
                field: item.field.clone(),
                operator: match item.operator {
                    postgrest_query_parser::ast::order::Operator::Asc => Operator::Asc,
                    postgrest_query_parser::ast::order::Operator::Desc => Operator::Desc,
                },
                nulls_position: match item.nulls_position {
                    Some(postgrest_query_parser::ast::order::NullOption::First) => {
                        Some(NullOption::First)
                    }
                    Some(postgrest_query_parser::ast::order::NullOption::Last) => {
                        Some(NullOption::Last)
                    }
                    None => None,
                },
            })
            .collect(),
    }
}

fn string_to_ast(input: &str) -> Ast {
    let lexer = postgrest_query_parser::Lexer::new(input.chars());
    let ast = postgrest_query_parser::Ast::from_lexer(input, lexer).unwrap();
    Ast {
        select: ast.select.as_ref().map(convert_select),
        order: ast.order.as_ref().map(convert_order),
        offset: ast.offset,
        limit: ast.limit,
    }
}

fn key(column: &str) -> Field {
    Field::Key(FieldKey {
        column: column.to_string(),
        alias: None,
    })
}

fn aliased(column: &str, alias: &str) -> Field {
    Field::Key(FieldKey {
        column: column.to_string(),
        alias: Some(alias.to_string()),
    })
}

fn item(field: &str, operator: Operator, nulls_position: Option<NullOption>) -> OrderItem {
    OrderItem {
        field: field.to_string(),
        operator,
        nulls_position,
    }
}

fn empty_ast() -> Ast {
    Ast {
        select: None,
        order: None,
        offset: None,
        limit: None,
    }
}

#[test]
fn select_format_sql() {
    let input = "select=id,my_artist:artist";
    let query = format_params_ast(string_to_ast(input), "testing").unwrap();

    assert_eq!("SELECT id, artist as my_artist FROM testing", query.sql);
    assert!(query.params.is_empty())
}

#[test]
fn select_with_nested_format_sql() {
    let input = "select=id,projects(id)";
    let query = format_params_ast(string_to_ast(input), "testing").unwrap();

    assert_eq!("SELECT id, projects.id FROM testing", query.sql);
    assert!(query.params.is_empty())
}

#[test]
fn order_by_format_sql() {
    let input = "select=id,artist&order=title.desc,width.asc.nullsfirst,id.desc.nullslast";
    let query = format_params_ast(string_to_ast(input), "testing").unwrap();

    assert_eq!(
        "SELECT id, artist FROM testing ORDER BY title DESC, width ASC NULLS FIRST, id DESC NULLS LAST",
        query.sql
    );
    assert!(query.params.is_empty())
}

#[test]
fn limit_and_offset_format_sql() {
    let input = "limit=512&offset=9321";
    let query = format_params_ast(string_to_ast(input), "testing").unwrap();

    assert_eq!("SELECT * FROM testing LIMIT 512 OFFSET 9321", query.sql);
    assert!(query.params.is_empty())
}

#[test]
fn select_from_descriptor_built_by_hand() {
    let ast = Ast {
        select: Some(Select {
            fields: vec![key("id"), aliased("artist", "my_artist")],
        }),
        ..empty_ast()
    };
    let query = format_params_ast(ast, "testing").unwrap();
    assert_eq!("SELECT id, artist as my_artist FROM testing", query.sql);
    assert!(query.params.is_empty());
}

#[test]
fn order_from_descriptor_built_by_hand() {
    let ast = Ast {
        order: Some(Order {
            fields: vec![
                item("title", Operator::Desc, None),
                item("width", Operator::Asc, Some(NullOption::First)),
                item("id", Operator::Desc, Some(NullOption::Last)),
            ],
        }),
        ..empty_ast()
    };
    let query = format_params_ast(ast, "testing").unwrap();
    assert_eq!(
        "SELECT * FROM testing ORDER BY title DESC, width ASC NULLS FIRST, id DESC NULLS LAST",
        query.sql
    );
}

#[test]
fn limit_and_offset_are_literals() {
    let ast = Ast {
        limit: Some(512),
        offset: Some(9321),
        ..empty_ast()
    };
    let query = format_params_ast(ast, "testing").unwrap();
    assert_eq!("SELECT * FROM testing LIMIT 512 OFFSET 9321", query.sql);
    assert!(query.params.is_empty());
}

#[test]
fn everything_at_once_keeps_the_clause_order() {
    let ast = Ast {
        select: Some(Select {
            fields: vec![key("b"), key("a")],
        }),
        order: Some(Order {
            fields: vec![item("a", Operator::Asc, None)],
        }),
        limit: Some(0),
        offset: Some(10),
    };
    let query = format_params_ast(ast, "t").unwrap();
    assert_eq!("SELECT b, a FROM t ORDER BY a ASC LIMIT 0 OFFSET 10", query.sql);
}

#[test]
fn nested_fields_stand_under_the_outer_name() {
    let select = Select {
        fields: vec![
            key("id"),
            Field::Nested(
                FieldKey {
                    column: "projects".to_string(),
                    alias: None,
                },
                Select {
                    fields: vec![key("id"), aliased("name", "title")],
                },
            ),
        ],
    };
    assert_eq!(
        "id, projects.id, projects.name as projects.title",
        format_select(Some(&select), None).unwrap()
    );
}

#[test]
fn nested_twice() {
    let inner = Select {
        fields: vec![key("c")],
    };
    let middle = Select {
        fields: vec![Field::Nested(
            FieldKey {
                column: "b".to_string(),
                alias: None,
            },
            inner,
        )],
    };
    let select = Select {
        fields: vec![Field::Nested(
            FieldKey {
                column: "a".to_string(),
                alias: None,
            },
            middle,
        )],
    };
    assert_eq!("a.b.c", format_select(Some(&select), None).unwrap());
}

#[test]
fn select_under_a_given_namespace() {
    let select = Select {
        fields: vec![key("id"), aliased("x", "y")],
    };
    assert_eq!(
        "outer.id, outer.x as outer.y",
        format_select(Some(&select), Some("outer")).unwrap()
    );
}

#[test]
fn no_select_is_a_star() {
    assert_eq!("*", format_select(None, None).unwrap());
    assert_eq!("*", format_select(None, Some("outer")).unwrap());
}

#[test]
fn empty_select_is_empty() {
    let select = Select { fields: vec![] };
    assert_eq!("", format_select(Some(&select), None).unwrap());
    let ast = Ast {
        select: Some(select),
        ..empty_ast()
    };
    assert_eq!("SELECT  FROM t", format_params_ast(ast, "t").unwrap().sql);
}

#[test]
fn json_path_is_not_supported() {
    let select = Select {
        fields: vec![
            key("id"),
            Field::Json(FieldKey {
                column: "data".to_string(),
                alias: None,
            }),
        ],
    };
    let failure = format_select(Some(&select), None).unwrap_err();
    assert_eq!(ErrorKind::SqlCompile, failure.kind);
    assert_eq!("this select is not supported yet", failure.message());
    let failure = format_join(Some(&select)).unwrap_err();
    assert_eq!(ErrorKind::SqlCompile, failure.kind);
    let ast = Ast {
        select: Some(select),
        ..empty_ast()
    };
    let failure = format_params_ast(ast, "t").unwrap_err();
    assert_eq!(ErrorKind::SqlCompile, failure.kind);
    assert_eq!("this select is not supported yet", failure.message());
}

#[test]
fn binary_json_path_inside_nested_is_not_supported() {
    let select = Select {
        fields: vec![Field::Nested(
            FieldKey {
                column: "projects".to_string(),
                alias: None,
            },
            Select {
                fields: vec![Field::BinaryJson(FieldKey {
                    column: "data".to_string(),
                    alias: None,
                })],
            },
        )],
    };
    assert_eq!(
        ErrorKind::SqlCompile,
        format_select(Some(&select), None).unwrap_err().kind
    );
    assert_eq!(
        ErrorKind::SqlCompile,
        format_join(Some(&select)).unwrap_err().kind
    );
}

#[test]
fn join_is_empty_for_supported_selects() {
    let select = Select {
        fields: vec![
            key("id"),
            Field::Nested(
                FieldKey {
                    column: "projects".to_string(),
                    alias: None,
                },
                Select {
                    fields: vec![key("id")],
                },
            ),
        ],
    };
    assert_eq!("", format_join(Some(&select)).unwrap());
    assert_eq!("", format_join(None).unwrap());
}

#[test]
fn order_without_items_is_omitted() {
    assert_eq!("", format_order(&None).unwrap());
    assert_eq!("", format_order(&Some(Order { fields: vec![] })).unwrap());
    let ast = Ast {
        order: Some(Order { fields: vec![] }),
        ..empty_ast()
    };
    assert_eq!("SELECT * FROM t", format_params_ast(ast, "t").unwrap().sql);
}

#[test]
fn order_of_one_item() {
    let order = Some(Order {
        fields: vec![item("id", Operator::Asc, None)],
    });
    assert_eq!(" ORDER BY id ASC", format_order(&order).unwrap());
}

#[test]
fn limit_and_offset_clauses() {
    assert_eq!("", format_limit(&None).unwrap());
    assert_eq!("", format_offset(&None).unwrap());
    assert_eq!(" LIMIT 0", format_limit(&Some(0)).unwrap());
    assert_eq!(" LIMIT 7", format_limit(&Some(7)).unwrap());
    assert_eq!(" LIMIT 10", format_limit(&Some(10)).unwrap());
    assert_eq!(" OFFSET 9321", format_offset(&Some(9321)).unwrap());
    assert_eq!(
        format!(" LIMIT {}", usize::MAX),
        format_limit(&Some(usize::MAX)).unwrap()
    );
}

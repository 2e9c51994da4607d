use vektur::sql_ast::{
    SqlBinaryOperator, SqlExpr, SqlQuery, SqlSelect, SqlSelectItem, SqlSetExpr, SqlStatement,
    SqlTableFactor, SqlUnaryOperator, SqlValue,
};
use vektur::planner::{sql_binary_op_to_operator, sql_unary_op_to_operator, sql_value_to_scalar};
use vektur::{
    Catalog, CsvDataSource, DataType, Expression, LogicalPlan, Operator, QueryError, ScalarValue,
    TokenType, UnaryOperator, sql_to_logical_plan, tokenize,
};

fn lines(texts: &[&str]) -> Vec<String> {
    texts.iter().map(|t| t.to_string()).collect()
}

fn students_catalog() -> Catalog {
    let sample = lines(&["S/N,Name,Email,IsVerified", "1,Ada,ada@example.com,true"]);
    let source = CsvDataSource::new("students.csv".to_string(), sample).expect("source");
    let mut catalog = Catalog::new();
    catalog.register_table("students".to_string(), source);
    catalog
}

fn select_statement(
    table: &str,
    selection: Option<SqlExpr>,
    projection: Vec<SqlSelectItem>,
) -> SqlStatement {
    SqlStatement::Query(Box::new(SqlQuery {
        body: SqlSetExpr::Select(Box::new(SqlSelect {
            from: vec![SqlTableFactor::Table {
                name: table.to_string(),
            }],
            selection,
            projection,
        })),
    }))
}

#[test]
fn select_with_where_translates_to_the_three_node_shape() {
    // SELECT Name FROM students WHERE "S/N" > 50
    let catalog = students_catalog();
    let statement = select_statement(
        "students",
        Some(SqlExpr::BinaryOp {
            left: Box::new(SqlExpr::Identifier("S/N".to_string())),
            op: SqlBinaryOperator::Gt,
            right: Box::new(SqlExpr::Value(SqlValue::Number("50".to_string()))),
        }),
        vec![SqlSelectItem::UnnamedExpr(SqlExpr::Identifier(
            "Name".to_string(),
        ))],
    );
    let plan = sql_to_logical_plan(&statement, &catalog).expect("plan");
    let (filter_level, columns) = match plan {
        LogicalPlan::Projection { input, columns } => (*input, columns),
        other => panic!("expected projection root, got {:?}", other),
    };
    assert_eq!(columns.len(), 1);
    match &columns[0] {
        Expression::Column { name, data_type } => {
            assert_eq!(name, "Name");
            assert_eq!(*data_type, DataType::String);
        }
        other => panic!("expected column, got {:?}", other),
    }
    let scan_level = match filter_level {
        LogicalPlan::Filter { input, predicate } => {
            match predicate {
                Expression::Binary {
                    left,
                    right,
                    operator,
                } => {
                    assert!(matches!(operator, Operator::Gt));
                    match *left {
                        Expression::Column { ref name, data_type } => {
                            assert_eq!(name, "S/N");
                            assert_eq!(data_type, DataType::Int32);
                        }
                        ref other => panic!("expected column, got {:?}", other),
                    }
                    match *right {
                        Expression::Literal(ScalarValue::Int32(Some(50))) => {}
                        ref other => panic!("expected literal 50, got {:?}", other),
                    }
                }
                other => panic!("expected binary predicate, got {:?}", other),
            }
            *input
        }
        other => panic!("expected filter level, got {:?}", other),
    };
    match scan_level {
        LogicalPlan::Scan {
            path, projection, ..
        } => {
            assert_eq!(path, "students");
            // the translator leaves the scan unnarrowed: all columns
            assert!(projection.is_none());
        }
        other => panic!("expected scan leaf, got {:?}", other),
    }
}

#[test]
fn select_star_expands_to_all_fields_in_schema_order() {
    let catalog = students_catalog();
    let statement = select_statement("students", None, vec![SqlSelectItem::Wildcard]);
    let plan = sql_to_logical_plan(&statement, &catalog).expect("plan");
    match plan {
        LogicalPlan::Projection { input, columns } => {
            let names: Vec<String> = columns
                .iter()
                .map(|c| match c {
                    Expression::Column { name, .. } => name.clone(),
                    other => panic!("expected column, got {:?}", other),
                })
                .collect();
            assert_eq!(names, vec!["S/N", "Name", "Email", "IsVerified"]);
            assert!(matches!(*input, LogicalPlan::Scan { .. }));
        }
        other => panic!("expected a projection over the scan, got {:?}", other),
    }
}

#[test]
fn empty_projection_leaves_the_bare_scan() {
    let catalog = students_catalog();
    let statement = select_statement("students", None, Vec::new());
    let plan = sql_to_logical_plan(&statement, &catalog).expect("plan");
    assert!(matches!(plan, LogicalPlan::Scan { .. }));
}

#[test]
fn quoted_table_names_are_stripped() {
    let catalog = students_catalog();
    let statement = select_statement("\"students\"", None, vec![SqlSelectItem::Wildcard]);
    assert!(sql_to_logical_plan(&statement, &catalog).is_ok());
    let single = select_statement("'students'", None, vec![SqlSelectItem::Wildcard]);
    assert!(sql_to_logical_plan(&single, &catalog).is_ok());
}

#[test]
fn unknown_table_fails() {
    let catalog = students_catalog();
    let statement = select_statement("teachers", None, vec![SqlSelectItem::Wildcard]);
    let err = sql_to_logical_plan(&statement, &catalog).unwrap_err();
    assert_eq!(
        err,
        QueryError::ValidationError {
            message: "Table 'teachers' not found in catalog".to_string()
        }
    );
}

#[test]
fn non_query_statements_fail() {
    let catalog = students_catalog();
    let err = sql_to_logical_plan(&SqlStatement::Other, &catalog).unwrap_err();
    assert!(matches!(err, QueryError::ValidationError { .. }));
}

#[test]
fn non_select_queries_fail() {
    let catalog = students_catalog();
    let statement = SqlStatement::Query(Box::new(SqlQuery {
        body: SqlSetExpr::Other,
    }));
    let err = sql_to_logical_plan(&statement, &catalog).unwrap_err();
    assert!(matches!(err, QueryError::ValidationError { .. }));
}

#[test]
fn missing_from_clause_fails() {
    let catalog = students_catalog();
    let statement = SqlStatement::Query(Box::new(SqlQuery {
        body: SqlSetExpr::Select(Box::new(SqlSelect {
            from: Vec::new(),
            selection: None,
            projection: vec![SqlSelectItem::Wildcard],
        })),
    }));
    let err = sql_to_logical_plan(&statement, &catalog).unwrap_err();
    assert_eq!(
        err,
        QueryError::ValidationError {
            message: "Query must have a FROM clause".to_string()
        }
    );
}

#[test]
fn join_like_relations_fail() {
    let catalog = students_catalog();
    let statement = SqlStatement::Query(Box::new(SqlQuery {
        body: SqlSetExpr::Select(Box::new(SqlSelect {
            from: vec![SqlTableFactor::Other],
            selection: None,
            projection: vec![SqlSelectItem::Wildcard],
        })),
    }));
    let err = sql_to_logical_plan(&statement, &catalog).unwrap_err();
    assert!(matches!(err, QueryError::ValidationError { .. }));
}

#[test]
fn unsupported_expression_nodes_fail() {
    let catalog = students_catalog();
    let statement = select_statement(
        "students",
        Some(SqlExpr::Other),
        vec![SqlSelectItem::Wildcard],
    );
    let err = sql_to_logical_plan(&statement, &catalog).unwrap_err();
    assert!(matches!(err, QueryError::ValidationError { .. }));
}

#[test]
fn numeric_literals_try_int_then_float() {
    assert_eq!(
        sql_value_to_scalar(&SqlValue::Number("50".to_string())).unwrap(),
        ScalarValue::Int32(Some(50))
    );
    assert_eq!(
        sql_value_to_scalar(&SqlValue::Number("2147483648".to_string())).unwrap(),
        ScalarValue::Float64(Some("2147483648".to_string()))
    );
    assert_eq!(
        sql_value_to_scalar(&SqlValue::Number("2.5e3".to_string())).unwrap(),
        ScalarValue::Float64(Some("2.5e3".to_string()))
    );
    let err = sql_value_to_scalar(&SqlValue::Number("12x".to_string())).unwrap_err();
    assert_eq!(
        err,
        QueryError::ValidationError {
            message: "Invalid number: 12x".to_string()
        }
    );
}

#[test]
fn other_literals_convert_directly() {
    assert_eq!(
        sql_value_to_scalar(&SqlValue::SingleQuotedString("hi".to_string())).unwrap(),
        ScalarValue::String(Some("hi".to_string()))
    );
    assert_eq!(
        sql_value_to_scalar(&SqlValue::DoubleQuotedString("hi".to_string())).unwrap(),
        ScalarValue::String(Some("hi".to_string()))
    );
    assert_eq!(
        sql_value_to_scalar(&SqlValue::Boolean(true)).unwrap(),
        ScalarValue::Bool(Some(true))
    );
    // NULL maps to the NULL string, the model's acknowledged simplification
    assert_eq!(
        sql_value_to_scalar(&SqlValue::Null).unwrap(),
        ScalarValue::String(None)
    );
}

#[test]
fn binary_operators_map_one_to_one() {
    let pairs = [
        (SqlBinaryOperator::Eq, Operator::Eq),
        (SqlBinaryOperator::NotEq, Operator::NotEq),
        (SqlBinaryOperator::Gt, Operator::Gt),
        (SqlBinaryOperator::Lt, Operator::Lt),
        (SqlBinaryOperator::GtEq, Operator::GtEq),
        (SqlBinaryOperator::LtEq, Operator::LtEq),
        (SqlBinaryOperator::Plus, Operator::Add),
        (SqlBinaryOperator::Minus, Operator::Subtract),
        (SqlBinaryOperator::Multiply, Operator::Multiply),
        (SqlBinaryOperator::Divide, Operator::Divide),
    ];
    for (sql_op, expected) in pairs {
        assert_eq!(sql_binary_op_to_operator(&sql_op).unwrap(), expected);
    }
    assert!(sql_binary_op_to_operator(&SqlBinaryOperator::Other).is_err());
}

#[test]
fn unary_plus_and_minus_both_map_to_negate() {
    assert_eq!(
        sql_unary_op_to_operator(&SqlUnaryOperator::Not).unwrap(),
        UnaryOperator::Not
    );
    assert_eq!(
        sql_unary_op_to_operator(&SqlUnaryOperator::Minus).unwrap(),
        UnaryOperator::Negate
    );
    assert_eq!(
        sql_unary_op_to_operator(&SqlUnaryOperator::Plus).unwrap(),
        UnaryOperator::Negate
    );
    assert!(sql_unary_op_to_operator(&SqlUnaryOperator::Other).is_err());
}

#[test]
fn tokenize_scans_a_simple_query() {
    let tokens = tokenize("SELECT Name, 42 FROM t WHERE x != 'a b';").expect("tokens");
    let kinds: Vec<&TokenType> = tokens.iter().map(|t| t.kind()).collect();
    assert_eq!(kinds.len(), 12);
    assert!(matches!(kinds[0], TokenType::Select));
    match kinds[1] {
        TokenType::Identifier(name) => assert_eq!(name, "Name"),
        other => panic!("expected identifier, got {:?}", other),
    }
    assert!(matches!(kinds[2], TokenType::Comma));
    match kinds[3] {
        TokenType::Number(text) => assert_eq!(text, "42"),
        other => panic!("expected number, got {:?}", other),
    }
    assert!(matches!(kinds[4], TokenType::From));
    assert!(matches!(kinds[5], TokenType::Identifier(_)));
    assert!(matches!(kinds[6], TokenType::Where));
    assert!(matches!(kinds[7], TokenType::Identifier(_)));
    assert!(matches!(kinds[8], TokenType::NotEqual));
    match kinds[9] {
        TokenType::String(text) => assert_eq!(text, "a b"),
        other => panic!("expected string, got {:?}", other),
    }
    assert!(matches!(kinds[10], TokenType::Semicolon));
    assert!(matches!(kinds[11], TokenType::EOF));
}

#[test]
fn tokenize_recognises_keywords_in_any_case() {
    let tokens = tokenize("select FROM wHeRe").expect("tokens");
    let kinds: Vec<&TokenType> = tokens.iter().map(|t| t.kind()).collect();
    assert!(matches!(kinds[0], TokenType::Select));
    assert!(matches!(kinds[1], TokenType::From));
    assert!(matches!(kinds[2], TokenType::Where));
    assert!(matches!(kinds[3], TokenType::EOF));
}

#[test]
fn tokenize_scans_comparison_and_punctuation() {
    let tokens = tokenize("* = < > , ;").expect("tokens");
    let kinds: Vec<&TokenType> = tokens.iter().map(|t| t.kind()).collect();
    assert!(matches!(kinds[0], TokenType::Asterisk));
    assert!(matches!(kinds[1], TokenType::Equal));
    assert!(matches!(kinds[2], TokenType::LessThan));
    assert!(matches!(kinds[3], TokenType::GreaterThan));
    assert!(matches!(kinds[4], TokenType::Comma));
    assert!(matches!(kinds[5], TokenType::Semicolon));
    assert!(matches!(kinds[6], TokenType::EOF));
}

#[test]
fn tokenize_empty_input_yields_only_the_end_marker() {
    let tokens = tokenize("").expect("tokens");
    assert_eq!(tokens.len(), 1);
    assert!(matches!(tokens[0].kind(), TokenType::EOF));
}

#[test]
fn tokenize_rejects_lone_bang() {
    assert!(tokenize("a ! b").is_err());
}

#[test]
fn tokenize_rejects_unterminated_string() {
    assert!(tokenize("'abc").is_err());
}

#[test]
fn tokenize_rejects_unknown_characters() {
    assert!(tokenize("a @ b").is_err());
}

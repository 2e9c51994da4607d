use vektur::{
    Catalog, CsvDataSource, DataType, Expression, ExecutionContext, LogicalPlan, Operator,
    PlanBuilder, QueryError, ScalarValue, Schema, UnaryOperator,
};

fn lines(texts: &[&str]) -> Vec<String> {
    texts.iter().map(|t| t.to_string()).collect()
}

/// A catalog with one `students` table of schema
/// [S/N: Int32, Name: String, Email: String, IsVerified: Bool].
fn students_catalog() -> Catalog {
    let sample = lines(&[
        "S/N,Name,Email,IsVerified",
        "1,Ada,ada@example.com,true",
    ]);
    let source = CsvDataSource::new("students.csv".to_string(), sample).expect("source");
    assert_eq!(source.schema().fields.len(), 4);
    assert_eq!(source.schema().fields[0].field_type, DataType::Int32);
    assert_eq!(source.schema().fields[1].field_type, DataType::String);
    assert_eq!(source.schema().fields[2].field_type, DataType::String);
    assert_eq!(source.schema().fields[3].field_type, DataType::Bool);
    let mut catalog = Catalog::new();
    catalog.register_table("students".to_string(), source);
    catalog
}

fn schema_of(schema: &Schema) -> Vec<(String, DataType)> {
    schema
        .fields
        .iter()
        .map(|f| (f.name.clone(), f.field_type))
        .collect()
}

fn int_float_bool_string() -> Schema {
    Schema::new(vec![
        vektur::Field {
            name: "i".to_string(),
            field_type: DataType::Int32,
            is_nullable: true,
        },
        vektur::Field {
            name: "f".to_string(),
            field_type: DataType::Float64,
            is_nullable: true,
        },
        vektur::Field {
            name: "b".to_string(),
            field_type: DataType::Bool,
            is_nullable: true,
        },
        vektur::Field {
            name: "s".to_string(),
            field_type: DataType::String,
            is_nullable: true,
        },
    ])
}

fn column(name: &str, data_type: DataType) -> Expression {
    Expression::Column {
        name: name.to_string(),
        data_type,
    }
}

fn binary(left: Expression, op: Operator, right: Expression) -> Expression {
    Expression::Binary {
        left: Box::new(left),
        right: Box::new(right),
        operator: op,
    }
}

#[test]
fn arithmetic_on_int_and_float_types_to_float() {
    let schema = int_float_bool_string();
    let e = binary(
        column("i", DataType::Int32),
        Operator::Add,
        column("f", DataType::Float64),
    );
    assert_eq!(e.get_data_type(&schema).unwrap(), DataType::Float64);
}

#[test]
fn arithmetic_on_two_ints_types_to_int() {
    let schema = int_float_bool_string();
    let e = binary(
        column("i", DataType::Int32),
        Operator::Multiply,
        column("i", DataType::Int32),
    );
    assert_eq!(e.get_data_type(&schema).unwrap(), DataType::Int32);
}

#[test]
fn string_equality_types_to_bool() {
    let schema = int_float_bool_string();
    let e = binary(
        column("s", DataType::String),
        Operator::Eq,
        Expression::Literal(ScalarValue::String(Some("x".to_string()))),
    );
    assert_eq!(e.get_data_type(&schema).unwrap(), DataType::Bool);
}

#[test]
fn string_plus_int_fails_to_type() {
    let schema = int_float_bool_string();
    let e = binary(
        column("s", DataType::String),
        Operator::Add,
        column("i", DataType::Int32),
    );
    assert!(e.get_data_type(&schema).is_err());
}

#[test]
fn bool_ordering_comparison_is_accepted_by_the_compatibility_table() {
    // Identical non-numeric types are comparison-compatible for every
    // comparison operator, so Bool > Bool type-checks to Bool.
    let schema = int_float_bool_string();
    let e = binary(
        column("b", DataType::Bool),
        Operator::Gt,
        column("b", DataType::Bool),
    );
    assert_eq!(e.get_data_type(&schema).unwrap(), DataType::Bool);
}

#[test]
fn unary_rules_follow_operand_types() {
    let schema = int_float_bool_string();
    let not_bool = Expression::Unary {
        operand: Box::new(column("b", DataType::Bool)),
        operator: UnaryOperator::Not,
    };
    assert_eq!(not_bool.get_data_type(&schema).unwrap(), DataType::Bool);
    let not_int = Expression::Unary {
        operand: Box::new(column("i", DataType::Int32)),
        operator: UnaryOperator::Not,
    };
    assert!(not_int.get_data_type(&schema).is_err());
    let neg_float = Expression::Unary {
        operand: Box::new(column("f", DataType::Float64)),
        operator: UnaryOperator::Negate,
    };
    assert_eq!(neg_float.get_data_type(&schema).unwrap(), DataType::Float64);
    let neg_string = Expression::Unary {
        operand: Box::new(column("s", DataType::String)),
        operator: UnaryOperator::Negate,
    };
    assert!(neg_string.get_data_type(&schema).is_err());
    let is_null_any = Expression::Unary {
        operand: Box::new(column("s", DataType::String)),
        operator: UnaryOperator::IsNull,
    };
    assert_eq!(is_null_any.get_data_type(&schema).unwrap(), DataType::Bool);
}

#[test]
fn get_data_type_trusts_the_column_leaf_not_the_schema() {
    // a column reference answers with its own declared type even when the
    // schema disagrees; only validation cross-checks the schema
    let schema = int_float_bool_string();
    let mistyped = column("i", DataType::Bool);
    assert_eq!(mistyped.get_data_type(&schema).unwrap(), DataType::Bool);
    assert!(mistyped.is_valid(&schema).is_err());
}

#[test]
fn is_valid_checks_column_against_schema() {
    let schema = int_float_bool_string();
    assert!(column("i", DataType::Int32).is_valid(&schema).is_ok());
    // declared type disagrees with the schema
    assert!(column("i", DataType::Bool).is_valid(&schema).is_err());
    // unknown column
    assert!(column("zz", DataType::Int32).is_valid(&schema).is_err());
}

#[test]
fn filter_before_scan_fails() {
    let catalog = students_catalog();
    let builder = PlanBuilder::new(&catalog);
    let err = builder
        .filter(binary(
            column("IsVerified", DataType::Bool),
            Operator::Eq,
            Expression::Literal(ScalarValue::Bool(Some(true))),
        ))
        .unwrap_err();
    assert_eq!(
        err,
        QueryError::ValidationError {
            message: "Filter did not receive current plan".to_string()
        }
    );
}

#[test]
fn project_before_scan_fails() {
    let catalog = students_catalog();
    let builder = PlanBuilder::new(&catalog);
    let err = builder.project(vec!["Name".to_string()]).unwrap_err();
    assert_eq!(
        err,
        QueryError::ValidationError {
            message: "Projection did not receive current plan".to_string()
        }
    );
}

#[test]
fn scan_of_unregistered_table_fails() {
    let catalog = students_catalog();
    let builder = PlanBuilder::new(&catalog);
    let err = builder.scan("teachers").unwrap_err();
    assert_eq!(
        err,
        QueryError::ValidationError {
            message: "Table not found".to_string()
        }
    );
}

#[test]
fn project_of_unknown_column_fails() {
    let catalog = students_catalog();
    let builder = PlanBuilder::new(&catalog);
    let err = builder
        .scan("students")
        .unwrap()
        .project(vec!["Name".to_string(), "Age".to_string()])
        .unwrap_err();
    assert_eq!(
        err,
        QueryError::ValidationError {
            message: "column Age does not exist in the schema".to_string()
        }
    );
}

#[test]
fn build_without_scan_fails() {
    let catalog = students_catalog();
    let err = PlanBuilder::new(&catalog).build().unwrap_err();
    assert_eq!(
        err,
        QueryError::DataSourceError {
            message: "Failed to build logical plan".to_string()
        }
    );
}

#[test]
fn filter_rejects_bare_column_and_literal_predicates() {
    let catalog = students_catalog();
    let err = PlanBuilder::new(&catalog)
        .scan("students")
        .unwrap()
        .filter(column("IsVerified", DataType::Bool))
        .unwrap_err();
    assert_eq!(
        err,
        QueryError::ValidationError {
            message: "Expression Type not supported for filtering".to_string()
        }
    );
}

#[test]
fn filter_rejects_invalid_predicates() {
    let catalog = students_catalog();
    let err = PlanBuilder::new(&catalog)
        .scan("students")
        .unwrap()
        // IsVerified is Bool in the schema, not Int32
        .filter(binary(
            column("IsVerified", DataType::Int32),
            Operator::Eq,
            Expression::Literal(ScalarValue::Int32(Some(1))),
        ))
        .unwrap_err();
    assert!(matches!(err, QueryError::ValidationError { .. }));
}

#[test]
fn scan_filter_project_builds_a_three_level_tree() {
    let catalog = students_catalog();
    let plan = PlanBuilder::new(&catalog)
        .scan("students")
        .unwrap()
        .filter(binary(
            column("IsVerified", DataType::Bool),
            Operator::Eq,
            Expression::Literal(ScalarValue::Bool(Some(true))),
        ))
        .unwrap()
        .project(vec!["Name".to_string(), "Email".to_string()])
        .unwrap()
        .build()
        .unwrap();

    let (filter_level, columns) = match plan {
        LogicalPlan::Projection { input, columns } => (*input, columns),
        other => panic!("expected a projection root, got {:?}", other),
    };
    assert_eq!(columns.len(), 2);
    match &columns[0] {
        Expression::Column { name, data_type } => {
            assert_eq!(name, "Name");
            assert_eq!(*data_type, DataType::String);
        }
        other => panic!("expected a column expression, got {:?}", other),
    }
    let scan_level = match filter_level {
        LogicalPlan::Filter { input, predicate } => {
            match predicate {
                Expression::Binary { operator, .. } => assert!(matches!(operator, Operator::Eq)),
                other => panic!("expected a binary predicate, got {:?}", other),
            }
            *input
        }
        other => panic!("expected a filter level, got {:?}", other),
    };
    match scan_level {
        LogicalPlan::Scan {
            path, projection, ..
        } => {
            assert_eq!(path, "students");
            // the builder's scan selects every field by name
            assert_eq!(
                projection,
                Some(vec![
                    "S/N".to_string(),
                    "Name".to_string(),
                    "Email".to_string(),
                    "IsVerified".to_string()
                ])
            );
        }
        other => panic!("expected a scan leaf, got {:?}", other),
    }
}

#[test]
fn render_shows_the_three_level_tree() {
    let catalog = students_catalog();
    let plan = PlanBuilder::new(&catalog)
        .scan("students")
        .unwrap()
        .filter(binary(
            column("IsVerified", DataType::Bool),
            Operator::Eq,
            Expression::Literal(ScalarValue::Bool(Some(true))),
        ))
        .unwrap()
        .project(vec!["Name".to_string(), "Email".to_string()])
        .unwrap()
        .build()
        .unwrap();
    let text = plan.render();
    let expected = "Projection: [Name, Email]\n\
                    \u{20}\u{20}Filter: IsVerified = true\n\
                    \u{20}\u{20}\u{20}\u{20}Scan: students (columns: [S/N, Name, Email, IsVerified])";
    assert_eq!(text, expected);
}

#[test]
fn filter_keeps_the_schema_and_project_narrows_it() {
    let catalog = students_catalog();
    let after_scan = PlanBuilder::new(&catalog).scan("students").unwrap();
    let after_project = after_scan.project(vec!["Email".to_string()]).unwrap();
    let plan = after_project.build().unwrap();
    match plan {
        LogicalPlan::Projection { columns, .. } => {
            assert_eq!(columns.len(), 1);
        }
        other => panic!("expected projection, got {:?}", other),
    }
}

#[test]
fn register_table_replaces_entries_of_the_same_name() {
    let mut catalog = Catalog::new();
    let first =
        CsvDataSource::new("a.csv".to_string(), lines(&["x", "1"])).expect("first source");
    let second =
        CsvDataSource::new("b.csv".to_string(), lines(&["y,z", "1,2"])).expect("second source");
    catalog.register_table("t".to_string(), first);
    assert_eq!(catalog.get_schema("t").unwrap().fields.len(), 1);
    catalog.register_table("t".to_string(), second);
    assert_eq!(catalog.get_schema("t").unwrap().fields.len(), 2);
    assert!(catalog.get_schema("u").is_none());
}

#[test]
fn execution_context_builds_a_bare_scan_frame() {
    let ctx = ExecutionContext::new();
    let df = ctx
        .csv(
            "people.csv".to_string(),
            lines(&["id,name", "1,Ada", "2,Brian"]),
        )
        .expect("data frame");
    let schema = df.schema();
    assert_eq!(
        schema_of(&schema),
        vec![
            ("id".to_string(), DataType::Int32),
            ("name".to_string(), DataType::String)
        ]
    );
    match df.plan() {
        LogicalPlan::Scan {
            path, projection, ..
        } => {
            assert_eq!(path, "people.csv");
            assert!(projection.is_none());
        }
        other => panic!("expected a scan, got {:?}", other),
    }
}

#[test]
fn data_frame_schema_follows_filters_and_projections() {
    let ctx = ExecutionContext::new();
    let df = ctx
        .csv("people.csv".to_string(), lines(&["id,name", "1,Ada"]))
        .expect("data frame");
    let df = df.filter(binary(
        column("id", DataType::Int32),
        Operator::Gt,
        Expression::Literal(ScalarValue::Int32(Some(0))),
    ));
    let df = df.project(vec![column("name", DataType::String)]);
    let schema = df.schema();
    assert_eq!(
        schema_of(&schema),
        vec![("name".to_string(), DataType::String)]
    );
    assert!(schema.fields[0].is_nullable);
}

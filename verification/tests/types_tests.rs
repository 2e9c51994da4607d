use vektur::{ColumnVector, DataType, Field, QueryError, RecordBatch, ScalarValue, Schema};

fn field(name: &str, field_type: DataType, is_nullable: bool) -> Field {
    Field {
        name: name.to_string(),
        field_type,
        is_nullable,
    }
}

#[test]
fn record_batch_accepts_matching_shape() {
    let schema = Schema::new(vec![
        field("id", DataType::Int32, true),
        field("name", DataType::String, true),
    ]);
    let columns = vec![
        ColumnVector::new(vec![
            ScalarValue::Int32(Some(1)),
            ScalarValue::Int32(Some(2)),
        ]),
        ColumnVector::new(vec![
            ScalarValue::String(Some("a".to_string())),
            ScalarValue::String(Some("b".to_string())),
        ]),
    ];
    let batch = RecordBatch::new(schema, columns).expect("well-shaped batch");
    assert_eq!(batch.columns.len(), batch.schema.fields.len());
    assert_eq!(batch.columns[0].values.len(), 2);
    assert_eq!(batch.columns[1].values.len(), 2);
}

#[test]
fn record_batch_rejects_count_mismatch() {
    let schema = Schema::new(vec![field("id", DataType::Int32, true)]);
    let columns = vec![
        ColumnVector::new(vec![ScalarValue::Int32(Some(1))]),
        ColumnVector::new(vec![ScalarValue::Int32(Some(2))]),
    ];
    let err = RecordBatch::new(schema, columns).unwrap_err();
    assert_eq!(
        err,
        QueryError::SchemaCountMismatch {
            expected: 1,
            actual: 2
        }
    );
}

#[test]
fn record_batch_rejects_length_mismatch() {
    let schema = Schema::new(vec![
        field("a", DataType::Int32, true),
        field("b", DataType::Int32, true),
    ]);
    let columns = vec![
        ColumnVector::new(vec![
            ScalarValue::Int32(Some(1)),
            ScalarValue::Int32(Some(2)),
        ]),
        ColumnVector::new(vec![ScalarValue::Int32(Some(3))]),
    ];
    let err = RecordBatch::new(schema, columns).unwrap_err();
    assert_eq!(
        err,
        QueryError::ColumnLengthMismatch {
            column_index: 1,
            expected_length: 2,
            actual_length: 1
        }
    );
}

#[test]
fn record_batch_with_zero_columns_is_trivially_well_formed() {
    let schema = Schema::new(Vec::new());
    let batch = RecordBatch::new(schema, Vec::new()).expect("empty batch");
    assert_eq!(batch.columns.len(), 0);
}

#[test]
fn column_exists_finds_exact_name() {
    let schema = Schema::new(vec![
        field("id", DataType::Int32, true),
        field("name", DataType::String, true),
    ]);
    let found = schema.column_exists("name").expect("name exists");
    assert_eq!(found.field_type, DataType::String);
    assert_eq!(found.name, "name");
}

#[test]
fn column_exists_resolves_first_match_on_duplicates() {
    let schema = Schema::new(vec![
        field("x", DataType::Int32, true),
        field("x", DataType::Bool, true),
    ]);
    let found = schema.column_exists("x").expect("x exists");
    assert_eq!(found.field_type, DataType::Int32);
}

#[test]
fn column_exists_reports_missing_column() {
    let schema = Schema::new(vec![field("id", DataType::Int32, true)]);
    let err = schema.column_exists("missing").unwrap_err();
    assert_eq!(err, "column missing does not exist in the schema");
}

use vektur::csv::{parse_batch, parse_cell, CSV_BATCH_SIZE};
use vektur::{CsvDataSource, DataType, Field, QueryError, Schema, ScalarValue, ValidCsvPath};

fn lines(texts: &[&str]) -> Vec<String> {
    texts.iter().map(|t| t.to_string()).collect()
}

fn field(name: &str, field_type: DataType, is_nullable: bool) -> Field {
    Field {
        name: name.to_string(),
        field_type,
        is_nullable,
    }
}

#[test]
fn valid_csv_path_accepts_csv_extension_any_case() {
    assert!(ValidCsvPath::new("data.csv").is_ok());
    assert!(ValidCsvPath::new("data.CSV").is_ok());
    assert!(ValidCsvPath::new("dir/archive.tar.Csv").is_ok());
}

#[test]
fn valid_csv_path_rejects_other_paths() {
    assert!(ValidCsvPath::new("data.txt").is_err());
    assert!(ValidCsvPath::new(".csv").is_err());
    assert!(ValidCsvPath::new("nodot").is_err());
    assert!(ValidCsvPath::new("dir.csv/file").is_err());
}

#[test]
fn detect_types_all_integers_gives_int32() {
    let sample = lines(&["h", "1", "-5", "2147483647"]);
    let types = CsvDataSource::detect_types(&sample, 1);
    assert_eq!(types, vec![DataType::Int32]);
}

#[test]
fn detect_types_float_when_any_cell_not_integer() {
    let sample = lines(&["h", "1", "2.5"]);
    let types = CsvDataSource::detect_types(&sample, 1);
    assert_eq!(types, vec![DataType::Float64]);
}

#[test]
fn detect_types_integer_overflow_falls_to_float() {
    let sample = lines(&["h", "2147483648"]);
    let types = CsvDataSource::detect_types(&sample, 1);
    assert_eq!(types, vec![DataType::Float64]);
}

#[test]
fn detect_types_booleans_ignore_case() {
    let sample = lines(&["h", "TRUE", "False", "true"]);
    let types = CsvDataSource::detect_types(&sample, 1);
    assert_eq!(types, vec![DataType::Bool]);
}

#[test]
fn detect_types_fallback_is_string() {
    let sample = lines(&["h", "hello", "2"]);
    let types = CsvDataSource::detect_types(&sample, 1);
    assert_eq!(types, vec![DataType::String]);
}

#[test]
fn detect_types_all_empty_column_stays_string() {
    let sample = lines(&["a,b", "1,", "2,"]);
    let types = CsvDataSource::detect_types(&sample, 2);
    assert_eq!(types, vec![DataType::Int32, DataType::String]);
}

#[test]
fn detect_types_empty_cells_do_not_break_a_numeric_column() {
    let sample = lines(&["a", "1", "", "3"]);
    let types = CsvDataSource::detect_types(&sample, 1);
    assert_eq!(types, vec![DataType::Int32]);
}

#[test]
fn detect_types_missing_trailing_fields_read_as_empty() {
    let sample = lines(&["a,b", "1,true", "2"]);
    let types = CsvDataSource::detect_types(&sample, 2);
    assert_eq!(types, vec![DataType::Int32, DataType::Bool]);
}

#[test]
fn detection_samples_at_most_one_hundred_data_rows() {
    // one header, one hundred integer rows, then a violating row: the
    // verdict rests on the sample alone
    let mut sample: Vec<String> = vec!["n".to_string()];
    for i in 0..100 {
        sample.push(format!("{}", i));
    }
    sample.push("not a number".to_string());
    let types = CsvDataSource::detect_types(&sample, 1);
    assert_eq!(types, vec![DataType::Int32]);

    // with only ninety-nine integer rows the violating row is sampled
    let mut sample: Vec<String> = vec!["n".to_string()];
    for i in 0..99 {
        sample.push(format!("{}", i));
    }
    sample.push("not a number".to_string());
    let types = CsvDataSource::detect_types(&sample, 1);
    assert_eq!(types, vec![DataType::String]);
}

#[test]
fn infer_schema_names_are_trimmed_and_all_nullable() {
    let sample = lines(&[" id , name ", "1,Ada"]);
    let fields = CsvDataSource::infer_schema(&sample).expect("schema");
    assert_eq!(fields.len(), 2);
    assert_eq!(fields[0].name, "id");
    assert_eq!(fields[0].field_type, DataType::Int32);
    assert!(fields[0].is_nullable);
    assert_eq!(fields[1].name, "name");
    assert_eq!(fields[1].field_type, DataType::String);
    assert!(fields[1].is_nullable);
}

#[test]
fn infer_schema_header_only_gives_all_string() {
    let sample = lines(&["a,b,c"]);
    let fields = CsvDataSource::infer_schema(&sample).expect("schema");
    assert_eq!(fields.len(), 3);
    for f in &fields {
        assert_eq!(f.field_type, DataType::String);
        assert!(f.is_nullable);
    }
}

#[test]
fn infer_schema_no_lines_fails() {
    let sample: Vec<String> = Vec::new();
    let err = CsvDataSource::infer_schema(&sample).unwrap_err();
    assert_eq!(err, "Failed to infer schema");
}

#[test]
fn csv_data_source_wires_path_and_schema() {
    let sample = lines(&["id,flag", "7,true"]);
    let source = CsvDataSource::new("table.csv".to_string(), sample).expect("source");
    let schema = source.schema();
    assert_eq!(schema.fields.len(), 2);
    assert_eq!(schema.fields[0].field_type, DataType::Int32);
    assert_eq!(schema.fields[1].field_type, DataType::Bool);
    assert_eq!(source.path(), "table.csv");
}

#[test]
fn csv_data_source_rejects_non_csv_path() {
    let sample = lines(&["id", "1"]);
    let err = CsvDataSource::new("table.parquet".to_string(), sample).unwrap_err();
    assert!(matches!(err, QueryError::DataSourceError { .. }));
}

#[test]
fn parse_cell_empty_nullable_gives_null_of_each_type() {
    for (ftype, expected) in [
        (DataType::Int32, ScalarValue::Int32(None)),
        (DataType::Float64, ScalarValue::Float64(None)),
        (DataType::Bool, ScalarValue::Bool(None)),
        (DataType::String, ScalarValue::String(None)),
    ] {
        let f = field("c", ftype, true);
        assert_eq!(parse_cell("", &f).expect("null cell"), expected);
    }
}

#[test]
fn parse_cell_empty_non_nullable_fails() {
    let f = field("c", DataType::Int32, false);
    let err = parse_cell("", &f).unwrap_err();
    assert_eq!(
        err,
        QueryError::DataSourceError {
            message: "null value in non-nullable field".to_string()
        }
    );
}

#[test]
fn parse_cell_values_parse_by_declared_type() {
    assert_eq!(
        parse_cell("42", &field("c", DataType::Int32, true)).unwrap(),
        ScalarValue::Int32(Some(42))
    );
    assert_eq!(
        parse_cell("-7", &field("c", DataType::Int32, true)).unwrap(),
        ScalarValue::Int32(Some(-7))
    );
    assert_eq!(
        parse_cell("2.5", &field("c", DataType::Float64, true)).unwrap(),
        ScalarValue::Float64(Some("2.5".to_string()))
    );
    assert_eq!(
        parse_cell("true", &field("c", DataType::Bool, true)).unwrap(),
        ScalarValue::Bool(Some(true))
    );
    assert_eq!(
        parse_cell("false", &field("c", DataType::Bool, true)).unwrap(),
        ScalarValue::Bool(Some(false))
    );
    assert_eq!(
        parse_cell("hi", &field("c", DataType::String, true)).unwrap(),
        ScalarValue::String(Some("hi".to_string()))
    );
}

#[test]
fn parse_cell_scan_time_bool_is_case_sensitive() {
    let f = field("c", DataType::Bool, true);
    let err = parse_cell("TRUE", &f).unwrap_err();
    assert_eq!(
        err,
        QueryError::DataSourceError {
            message: "Item does not match the column type: bool".to_string()
        }
    );
}

#[test]
fn parse_cell_type_mismatch_names_the_type() {
    let f = field("c", DataType::Int32, true);
    let err = parse_cell("4x", &f).unwrap_err();
    assert_eq!(
        err,
        QueryError::DataSourceError {
            message: "Item does not match the column type: Int32".to_string()
        }
    );
}

#[test]
fn parse_batch_builds_typed_columns() {
    let schema = Schema::new(vec![
        field("id", DataType::Int32, true),
        field("name", DataType::String, true),
    ]);
    let chunk = lines(&["1, Ada ", "2,Brian", ",Ada2"]);
    let batch = parse_batch(&schema, &chunk).expect("batch");
    assert_eq!(batch.columns.len(), 2);
    assert_eq!(batch.columns[0].values.len(), 3);
    assert_eq!(batch.columns[0].values[0], ScalarValue::Int32(Some(1)));
    assert_eq!(batch.columns[0].values[2], ScalarValue::Int32(None));
    assert_eq!(
        batch.columns[1].values[0],
        ScalarValue::String(Some("Ada".to_string()))
    );
}

#[test]
fn parse_batch_short_row_fails() {
    let schema = Schema::new(vec![
        field("a", DataType::Int32, true),
        field("b", DataType::Int32, true),
    ]);
    let chunk = lines(&["1"]);
    let err = parse_batch(&schema, &chunk).unwrap_err();
    assert_eq!(
        err,
        QueryError::DataSourceError {
            message: "field not found".to_string()
        }
    );
}

#[test]
fn float_acceptance_agrees_with_std_parse() {
    let samples = [
        "1", "-1", "+1", "1.", ".5", "-.5", "1.5", "1.5e3", "1.5E-3", "1e5", "1.e3", "1e+2",
        "inf", "INF", "Infinity", "-infinity", "nan", "NaN", "+nan", "1e999", ".", "e5", "1e",
        "1e+", "1.2.3", "1_000", "0x1a", " 5", "5 ", "--5", "++5", "+-5", "in", "infin", "",
        "2147483648", "-0",
    ];
    let f = field("c", DataType::Float64, true);
    for s in samples {
        if s.is_empty() {
            continue;
        }
        let std_accepts = s.parse::<f64>().is_ok();
        let lib_accepts = parse_cell(s, &f).is_ok();
        assert_eq!(
            lib_accepts, std_accepts,
            "float acceptance disagrees on {:?}",
            s
        );
    }
}

#[test]
fn integer_acceptance_agrees_with_std_parse() {
    let samples = [
        "0", "1", "-1", "+1", "007", "2147483647", "2147483648", "-2147483648", "-2147483649",
        "99999999999999999999", "--5", "++5", "+-5", "+", "-", "4x", "5 ", " 5", "1.0", "1e2",
    ];
    let f = field("c", DataType::Int32, true);
    for s in samples {
        let std_result = s.parse::<i32>();
        let lib_result = parse_cell(s, &f);
        match (std_result, lib_result) {
            (Ok(expected), Ok(got)) => assert_eq!(got, ScalarValue::Int32(Some(expected))),
            (Err(_), Err(_)) => {}
            (std_r, lib_r) => panic!(
                "integer acceptance disagrees on {:?}: std {:?}, library {:?}",
                s, std_r, lib_r
            ),
        }
    }
}

#[test]
fn scan_pagination_yields_ceil_batches_and_skips_header() {
    // 35 data rows in chunks of 16: batches of 16, 16 and 3 rows.
    assert_eq!(CSV_BATCH_SIZE, 16);
    let sample = lines(&["n", "1"]);
    let source = CsvDataSource::new("rows.csv".to_string(), sample).expect("source");
    let mut scan = source.scan();
    assert!(scan.needs_header());
    assert!(scan.on_header(Some(2)).is_none());
    assert!(!scan.needs_header());

    let mut total_rows = 0;
    let mut batches = 0;
    let mut remaining = 35;
    while !scan.done() {
        let take = remaining.min(16);
        let chunk: Vec<String> = (0..take).map(|i| format!("{}", i)).collect();
        remaining -= take;
        // the reader reports end-of-file only when it could not fill the chunk
        let hit_eof = take < 16;
        match scan.on_chunk(chunk, hit_eof) {
            Some(Ok(batch)) => {
                batches += 1;
                total_rows += batch.columns[0].values.len();
            }
            Some(Err(e)) => panic!("unexpected scan error: {:?}", e),
            None => {}
        }
    }
    assert_eq!(batches, 3);
    assert_eq!(total_rows, 35);
}

#[test]
fn scan_of_row_multiple_of_chunk_size_has_no_empty_trailing_batch() {
    let sample = lines(&["n", "1"]);
    let source = CsvDataSource::new("rows.csv".to_string(), sample).expect("source");
    let mut scan = source.scan();
    assert!(scan.on_header(Some(2)).is_none());
    let chunk: Vec<String> = (0..16).map(|i| format!("{}", i)).collect();
    let first = scan.on_chunk(chunk, false);
    assert!(matches!(first, Some(Ok(_))));
    assert!(!scan.done());
    // the next pull reads zero lines and ends the scan without a batch
    let second = scan.on_chunk(Vec::new(), true);
    assert!(second.is_none());
    assert!(scan.done());
}

#[test]
fn scan_of_empty_file_finishes_at_the_header() {
    let sample = lines(&["n"]);
    let source = CsvDataSource::new("rows.csv".to_string(), sample).expect("source");
    let mut scan = source.scan();
    assert!(scan.on_header(Some(0)).is_none());
    assert!(scan.done());
}

#[test]
fn scan_header_read_failure_reports_and_retries() {
    let sample = lines(&["n"]);
    let source = CsvDataSource::new("rows.csv".to_string(), sample).expect("source");
    let mut scan = source.scan();
    let err = scan.on_header(None).expect("error item");
    assert_eq!(
        err,
        QueryError::DataSourceError {
            message: "Failed to read header".to_string()
        }
    );
    assert!(!scan.done());
    assert!(scan.needs_header());
}

#[test]
fn scan_surfaces_row_errors_and_continues() {
    let sample = lines(&["n", "1"]);
    let source = CsvDataSource::new("rows.csv".to_string(), sample).expect("source");
    let mut scan = source.scan();
    assert!(scan.on_header(Some(2)).is_none());
    let bad = scan.on_chunk(lines(&["not-a-number"]), true);
    match bad {
        Some(Err(QueryError::DataSourceError { message })) => {
            assert_eq!(message, "Item does not match the column type: Int32");
        }
        other => panic!("expected a type error, got {:?}", other),
    }
    assert!(scan.done());
}

use vstd::prelude::*;

verus! {

/// The error taxonomy of the planning core. Every fallible operation
/// returns one of these kinds to its immediate caller; there is no
/// internal retry and no partial recovery.
#[derive(Debug, Clone, PartialEq, Eq)]
pub enum QueryError {
    SchemaCountMismatch { expected: usize, actual: usize },
    ColumnLengthMismatch { column_index: usize, expected_length: usize, actual_length: usize },
    TypeMismatch { column_name: String, expected: String, actual: String },
    DataSourceError { message: String },
    ValidationError { message: String },
}

/// Errors surfaced by the SQL token scanner.
#[derive(Debug, Clone, PartialEq, Eq)]
pub enum LexerError {
    InvalidToken { message: String },
}

} // verus!

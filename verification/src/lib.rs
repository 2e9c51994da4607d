pub mod args;
pub mod csv;
pub mod datatypes;
pub mod errors;
pub mod expr;
pub mod numbers;
pub mod plan;
pub mod planner;
pub mod scalar;
pub mod schema;
pub mod sql;
pub mod sql_ast;
pub mod text;

pub use args::Args;
pub use csv::{CsvDataSource, CsvScanState, ValidCsvPath};
pub use datatypes::DataType;
pub use errors::{LexerError, QueryError};
pub use expr::{Expression, Operator, UnaryOperator};
pub use plan::{Catalog, DataFrame, ExecutionContext, LogicalPlan, PlanBuilder};
pub use planner::sql_to_logical_plan;
pub use scalar::{ColumnVector, ScalarValue};
pub use schema::{Field, RecordBatch, Schema};
pub use sql::{tokenize, Token, TokenType};

use vstd::prelude::*;

use crate::datatypes::DataType;

verus! {

/// A single typed cell. An absent payload is the SQL-style NULL of the
/// variant's type.
///
/// The planning core never computes with floating-point values: a
/// `Float64` cell carries the numeric literal exactly as it appeared in
/// the input, already checked against the floating-point syntax. A
/// consumer that executes plans converts the text at its own boundary.
#[derive(Debug, PartialEq, Eq)]
pub enum ScalarValue {
    Int32(Option<i32>),
    String(Option<String>),
    Bool(Option<bool>),
    Float64(Option<String>),
}

impl Clone for ScalarValue {
    /// A clone is equal to the original.
    fn clone(&self) -> (r: Self)
        ensures
            r == *self,
    {
        match self {
            ScalarValue::Int32(p) => ScalarValue::Int32(*p),
            ScalarValue::String(p) => ScalarValue::String(
                match p {
                    Some(s) => Some(s.clone()),
                    None => None,
                },
            ),
            ScalarValue::Bool(p) => ScalarValue::Bool(*p),
            ScalarValue::Float64(p) => ScalarValue::Float64(
                match p {
                    Some(s) => Some(s.clone()),
                    None => None,
                },
            ),
        }
    }
}

/// The type a scalar's tag denotes.
pub open spec fn scalar_tag(v: ScalarValue) -> DataType {
    match v {
        ScalarValue::Int32(_) => DataType::Int32,
        ScalarValue::String(_) => DataType::String,
        ScalarValue::Bool(_) => DataType::Bool,
        ScalarValue::Float64(_) => DataType::Float64,
    }
}

/// Whether a scalar is the NULL of its type.
pub open spec fn scalar_is_null(v: ScalarValue) -> bool {
    match v {
        ScalarValue::Int32(p) => p is None,
        ScalarValue::String(p) => p is None,
        ScalarValue::Bool(p) => p is None,
        ScalarValue::Float64(p) => p is None,
    }
}

/// One column's worth of values, owned by exactly one record batch.
#[derive(Debug)]
pub struct ColumnVector {
    pub values: Vec<ScalarValue>,
}

impl ColumnVector {
    pub fn new(values: Vec<ScalarValue>) -> (r: Self)
        ensures
            r.values == values,
    {
        Self { values }
    }
}

} // verus!

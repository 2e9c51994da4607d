use vstd::prelude::*;

verus! {

/// The closed set of primitive column types shared by storage, expressions
/// and planning.
#[derive(Debug, Clone, Copy, PartialEq, Eq, Structural, PartialOrd, Ord)]
pub enum DataType {
    Int32,
    String,
    Bool,
    Float64,
}

} // verus!

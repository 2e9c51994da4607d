use vstd::prelude::*;
use vstd::string::StringExecFns;

use crate::datatypes::DataType;
use crate::scalar::{scalar_tag, ScalarValue};
use crate::schema::{lookup_field, Field, Schema};

verus! {

/// Binary operators of the expression model; comparisons first, then
/// arithmetic.
#[derive(Debug, Clone, Copy, PartialEq, Eq, Structural)]
pub enum Operator {
    Gt,
    Lt,
    GtEq,
    LtEq,
    Eq,
    NotEq,
    Add,
    Subtract,
    Multiply,
    Divide,
}

#[derive(Debug, Clone, Copy, PartialEq, Eq, Structural)]
pub enum UnaryOperator {
    Not,
    IsNull,
    IsNotNull,
    Negate,
}

/// A typed expression tree: a column reference carrying its declared
/// type, a literal, or an operator application over owned subtrees.
#[derive(Debug)]
pub enum Expression {
    Column { name: String, data_type: DataType },
    Literal(ScalarValue),
    Binary { left: Box<Expression>, right: Box<Expression>, operator: Operator },
    Unary { operand: Box<Expression>, operator: UnaryOperator },
}

impl Clone for Expression {
    /// A clone is equal to the original, subtrees included.
    fn clone(&self) -> (r: Self)
        ensures
            r == *self,
        decreases *self,
    {
        match self {
            Expression::Column { name, data_type } => Expression::Column {
                name: name.clone(),
                data_type: *data_type,
            },
            Expression::Literal(v) => Expression::Literal(v.clone()),
            Expression::Binary { left, right, operator } => Expression::Binary {
                left: Box::new((**left).clone()),
                right: Box::new((**right).clone()),
                operator: *operator,
            },
            Expression::Unary { operand, operator } => Expression::Unary {
                operand: Box::new((**operand).clone()),
                operator: *operator,
            },
        }
    }
}

pub open spec fn is_comparison_op(op: Operator) -> bool {
    op == Operator::Gt || op == Operator::Lt || op == Operator::GtEq || op == Operator::LtEq || op
        == Operator::Eq || op == Operator::NotEq
}

pub open spec fn is_numeric(t: DataType) -> bool {
    t == DataType::Int32 || t == DataType::Float64
}

/// Comparison admits any combination of the two numeric types, and
/// otherwise only identical types (String with String, Bool with Bool).
pub open spec fn comparison_compatible(l: DataType, r: DataType) -> bool {
    (is_numeric(l) && is_numeric(r)) || l == r
}

/// Arithmetic admits only combinations of the two numeric types.
pub open spec fn arithmetic_compatible(l: DataType, r: DataType) -> bool {
    is_numeric(l) && is_numeric(r)
}

/// The type an expression computes, or `None` when it is ill-typed.
/// A column reference answers with its own declared type; whether that
/// type agrees with a schema is the separate validity check.
pub open spec fn expr_type(e: Expression) -> Option<DataType>
    decreases e,
{
    match e {
        Expression::Column { data_type, .. } => Some(data_type),
        Expression::Literal(v) => Some(scalar_tag(v)),
        Expression::Binary { left, right, operator } => match (expr_type(*left), expr_type(
            *right,
        )) {
            (Some(lt), Some(rt)) => if is_comparison_op(operator) {
                if comparison_compatible(lt, rt) {
                    Some(DataType::Bool)
                } else {
                    None
                }
            } else {
                if arithmetic_compatible(lt, rt) {
                    if lt == DataType::Float64 || rt == DataType::Float64 {
                        Some(DataType::Float64)
                    } else {
                        Some(DataType::Int32)
                    }
                } else {
                    None
                }
            },
            _ => None,
        },
        Expression::Unary { operand, operator } => match expr_type(*operand) {
            Some(t) => match operator {
                UnaryOperator::Not => if t == DataType::Bool {
                    Some(DataType::Bool)
                } else {
                    None
                },
                UnaryOperator::IsNull => Some(DataType::Bool),
                UnaryOperator::IsNotNull => Some(DataType::Bool),
                UnaryOperator::Negate => if is_numeric(t) {
                    Some(t)
                } else {
                    None
                },
            },
            None => None,
        },
    }
}

/// Validity of an expression against a schema: every column reference
/// must name an existing field whose type matches the declared one, and
/// every operator application must satisfy the same compatibility rules
/// that typing uses.
pub open spec fn expr_valid(e: Expression, fields: Seq<Field>) -> bool
    decreases e,
{
    match e {
        Expression::Column { name, data_type } => match lookup_field(fields, name@) {
            Some(f) => f.field_type == data_type,
            None => false,
        },
        Expression::Literal(_) => true,
        Expression::Binary { left, right, operator } => expr_valid(*left, fields) && expr_valid(
            *right,
            fields,
        ) && match (expr_type(*left), expr_type(*right)) {
            (Some(lt), Some(rt)) => if is_comparison_op(operator) {
                comparison_compatible(lt, rt)
            } else {
                arithmetic_compatible(lt, rt)
            },
            _ => false,
        },
        Expression::Unary { operand, operator } => expr_valid(*operand, fields) && match expr_type(
            *operand,
        ) {
            Some(t) => match operator {
                UnaryOperator::Not => t == DataType::Bool,
                UnaryOperator::IsNull => true,
                UnaryOperator::IsNotNull => true,
                UnaryOperator::Negate => is_numeric(t),
            },
            None => false,
        },
    }
}

/// A valid expression always has a type.
pub proof fn lemma_valid_expr_typed(e: Expression, fields: Seq<Field>)
    requires
        expr_valid(e, fields),
    ensures
        expr_type(e) is Some,
    decreases e,
{
    match e {
        Expression::Column { .. } => {},
        Expression::Literal(_) => {},
        Expression::Binary { left, right, .. } => {
            lemma_valid_expr_typed(*left, fields);
            lemma_valid_expr_typed(*right, fields);
        },
        Expression::Unary { operand, .. } => {
            lemma_valid_expr_typed(*operand, fields);
        },
    }
}

/// The compatibility laws of operator application. For an arithmetic
/// operator, any combination of the two numeric types is accepted and
/// the result is `Float64` when either operand is, `Int32` otherwise;
/// a `String` operand is rejected. For a comparison operator, numeric
/// combinations and identical operand types are accepted and the result
/// is `Bool`, so `String` compares with `String` and `Bool` with `Bool`;
/// mixed non-numeric operands are rejected.
pub proof fn lemma_expression_compatibility(e: Expression)
    ensures
        e matches Expression::Binary { left, right, operator } ==> {
            let lt = expr_type(*left);
            let rt = expr_type(*right);
            &&& (!is_comparison_op(operator) && lt == Some(DataType::Int32) && rt == Some(
                DataType::Float64,
            ) ==> expr_type(e) == Some(DataType::Float64))
            &&& (!is_comparison_op(operator) && lt == Some(DataType::Int32) && rt == Some(
                DataType::Int32,
            ) ==> expr_type(e) == Some(DataType::Int32))
            &&& (!is_comparison_op(operator) && (lt == Some(DataType::String) || rt == Some(
                DataType::String,
            )) ==> expr_type(e) is None)
            &&& (is_comparison_op(operator) && lt is Some && lt == rt ==> expr_type(e) == Some(
                DataType::Bool,
            ))
            &&& (is_comparison_op(operator) && lt == Some(DataType::String) && rt == Some(
                DataType::Bool,
            ) ==> expr_type(e) is None)
        },
{
}

/// The printable name of a type, for diagnostic messages.
fn datatype_name(t: DataType) -> &'static str {
    match t {
        DataType::Int32 => "Int32",
        DataType::String => "String",
        DataType::Bool => "Bool",
        DataType::Float64 => "Float64",
    }
}

/// The printable name of a binary operator, for diagnostic messages.
fn operator_name(op: Operator) -> &'static str {
    match op {
        Operator::Gt => "Gt",
        Operator::Lt => "Lt",
        Operator::GtEq => "GtEq",
        Operator::LtEq => "LtEq",
        Operator::Eq => "Eq",
        Operator::NotEq => "NotEq",
        Operator::Add => "Add",
        Operator::Subtract => "Subtract",
        Operator::Multiply => "Multiply",
        Operator::Divide => "Divide",
    }
}

fn incompatibility_message(prefix: &str, l: DataType, r: DataType) -> String {
    let mut msg = String::from_str(prefix);
    msg.append(datatype_name(l));
    msg.append(" and ");
    msg.append(datatype_name(r));
    msg
}

impl Expression {
    fn are_compatible_for_comparison(left: &DataType, right: &DataType) -> (r: bool)
        ensures
            r == comparison_compatible(*left, *right),
    {
        ((*left == DataType::Int32 || *left == DataType::Float64) && (*right == DataType::Int32
            || *right == DataType::Float64)) || *left == *right
    }

    fn are_compatible_for_arithmetic(left: &DataType, right: &DataType) -> (r: bool)
        ensures
            r == arithmetic_compatible(*left, *right),
    {
        (*left == DataType::Int32 || *left == DataType::Float64) && (*right == DataType::Int32
            || *right == DataType::Float64)
    }

    /// Computes the expression's result type under the typing rules, or
    /// a message naming the incompatible operand types. The schema is
    /// not consulted: a column reference is trusted to carry its type.
    pub fn get_data_type(&self, schema: &Schema) -> (r: Result<DataType, String>)
        ensures
            match r {
                Ok(t) => expr_type(*self) == Some(t),
                Err(_) => expr_type(*self) is None,
            },
        decreases *self,
    {
        match self {
            Expression::Column { data_type, .. } => Ok(*data_type),
            Expression::Literal(scalar) => match scalar {
                ScalarValue::Int32(_) => Ok(DataType::Int32),
                ScalarValue::String(_) => Ok(DataType::String),
                ScalarValue::Bool(_) => Ok(DataType::Bool),
                ScalarValue::Float64(_) => Ok(DataType::Float64),
            },
            Expression::Binary { left, right, operator } => {
                let left_type = left.get_data_type(schema)?;
                let right_type = right.get_data_type(schema)?;
                match operator {
                    Operator::Gt
                    | Operator::Lt
                    | Operator::GtEq
                    | Operator::LtEq
                    | Operator::Eq
                    | Operator::NotEq => {
                        if Self::are_compatible_for_comparison(&left_type, &right_type) {
                            Ok(DataType::Bool)
                        } else {
                            Err(
                                incompatibility_message(
                                    "Incompatible types for comparison: ",
                                    left_type,
                                    right_type,
                                ),
                            )
                        }
                    },
                    Operator::Add | Operator::Subtract | Operator::Multiply | Operator::Divide => {
                        if Self::are_compatible_for_arithmetic(&left_type, &right_type) {
                            if left_type == DataType::Float64 || right_type == DataType::Float64 {
                                Ok(DataType::Float64)
                            } else {
                                Ok(DataType::Int32)
                            }
                        } else {
                            Err(
                                incompatibility_message(
                                    "Incompatible types for arithmetic: ",
                                    left_type,
                                    right_type,
                                ),
                            )
                        }
                    },
                }
            },
            Expression::Unary { operand, operator } => {
                let operand_type = operand.get_data_type(schema)?;
                match operator {
                    UnaryOperator::Not => {
                        if operand_type == DataType::Bool {
                            Ok(DataType::Bool)
                        } else {
                            let mut msg = String::from_str("Not operator requires Bool, got ");
                            msg.append(datatype_name(operand_type));
                            Err(msg)
                        }
                    },
                    UnaryOperator::IsNull | UnaryOperator::IsNotNull => Ok(DataType::Bool),
                    UnaryOperator::Negate => {
                        if operand_type == DataType::Int32 || operand_type == DataType::Float64 {
                            Ok(operand_type)
                        } else {
                            let mut msg = String::from_str(
                                "Negate operator requires numeric type, got ",
                            );
                            msg.append(datatype_name(operand_type));
                            Err(msg)
                        }
                    },
                }
            },
        }
    }

    /// Validates the expression against a schema, as a filter predicate
    /// or projection column must be before it enters a plan.
    pub fn is_valid(&self, schema: &Schema) -> (r: Result<(), String>)
        ensures
            r is Ok <==> expr_valid(*self, schema.fields@),
        decreases *self,
    {
        match self {
            Expression::Column { name, data_type } => {
                let field = schema.column_exists(name.as_str())?;
                if field.field_type != *data_type {
                    let mut msg = String::from_str("Column ");
                    msg.append(name.as_str());
                    msg.append(" type mismatch: expected ");
                    msg.append(datatype_name(field.field_type));
                    msg.append(" got ");
                    msg.append(datatype_name(*data_type));
                    return Err(msg);
                }
                Ok(())
            },
            Expression::Literal(_) => Ok(()),
            Expression::Binary { left, right, operator } => {
                left.is_valid(schema)?;
                right.is_valid(schema)?;
                let left_type = left.get_data_type(schema)?;
                let right_type = right.get_data_type(schema)?;
                match operator {
                    Operator::Gt
                    | Operator::Lt
                    | Operator::GtEq
                    | Operator::LtEq
                    | Operator::Eq
                    | Operator::NotEq => {
                        if !Self::are_compatible_for_comparison(&left_type, &right_type) {
                            let mut msg = String::from_str("Incompatible types for ");
                            msg.append(operator_name(*operator));
                            msg.append(" operator: ");
                            msg.append(datatype_name(left_type));
                            msg.append(" and ");
                            msg.append(datatype_name(right_type));
                            return Err(msg);
                        }
                    },
                    Operator::Add | Operator::Subtract | Operator::Multiply | Operator::Divide => {
                        if !Self::are_compatible_for_arithmetic(&left_type, &right_type) {
                            let mut msg = String::from_str("Incompatible types for ");
                            msg.append(operator_name(*operator));
                            msg.append(" operator: ");
                            msg.append(datatype_name(left_type));
                            msg.append(" and ");
                            msg.append(datatype_name(right_type));
                            return Err(msg);
                        }
                    },
                }
                Ok(())
            },
            Expression::Unary { operand, operator } => {
                operand.is_valid(schema)?;
                let operand_type = operand.get_data_type(schema)?;
                match operator {
                    UnaryOperator::Not => {
                        if operand_type != DataType::Bool {
                            let mut msg = String::from_str("Not operator requires Bool, got ");
                            msg.append(datatype_name(operand_type));
                            return Err(msg);
                        }
                    },
                    UnaryOperator::IsNull | UnaryOperator::IsNotNull => {},
                    UnaryOperator::Negate => {
                        if !(operand_type == DataType::Int32 || operand_type == DataType::Float64) {
                            let mut msg = String::from_str(
                                "Negate operator requires numeric type, got ",
                            );
                            msg.append(datatype_name(operand_type));
                            return Err(msg);
                        }
                    },
                }
                Ok(())
            },
        }
    }
}

} // verus!

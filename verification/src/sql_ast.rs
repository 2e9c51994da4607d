use vstd::prelude::*;

verus! {

/// The shape of a parsed SQL statement, as far as plan translation reads
/// it. An external SQL parser owns lexing and grammar; its syntax tree is
/// mapped into this model at the boundary, with every node kind the
/// translator does not handle collapsed into an `Other` variant so that
/// the translator itself decides what is unsupported.
#[derive(Debug)]
pub enum SqlStatement {
    Query(Box<SqlQuery>),
    Other,
}

#[derive(Debug)]
pub struct SqlQuery {
    pub body: SqlSetExpr,
}

#[derive(Debug)]
pub enum SqlSetExpr {
    Select(Box<SqlSelect>),
    Other,
}

/// A SELECT: its FROM relations, its optional WHERE condition, and its
/// item list.
#[derive(Debug)]
pub struct SqlSelect {
    pub from: Vec<SqlTableFactor>,
    pub selection: Option<SqlExpr>,
    pub projection: Vec<SqlSelectItem>,
}

/// A FROM-clause relation: a plain table name, rendered as the parser
/// printed it (quoting included), or anything else.
#[derive(Debug)]
pub enum SqlTableFactor {
    Table { name: String },
    Other,
}

#[derive(Debug)]
pub enum SqlSelectItem {
    UnnamedExpr(SqlExpr),
    ExprWithAlias(SqlExpr),
    Wildcard,
    Other,
}

#[derive(Debug)]
pub enum SqlExpr {
    Identifier(String),
    Value(SqlValue),
    BinaryOp { left: Box<SqlExpr>, op: SqlBinaryOperator, right: Box<SqlExpr> },
    UnaryOp { op: SqlUnaryOperator, expr: Box<SqlExpr> },
    Other,
}

/// A literal token: a number kept as its text, a quoted string, a
/// boolean, or NULL.
#[derive(Debug)]
pub enum SqlValue {
    Number(String),
    SingleQuotedString(String),
    DoubleQuotedString(String),
    Boolean(bool),
    Null,
    Other,
}

#[derive(Debug, Clone, Copy, PartialEq, Eq, Structural)]
pub enum SqlBinaryOperator {
    Eq,
    NotEq,
    Gt,
    Lt,
    GtEq,
    LtEq,
    Plus,
    Minus,
    Multiply,
    Divide,
    Other,
}

#[derive(Debug, Clone, Copy, PartialEq, Eq, Structural)]
pub enum SqlUnaryOperator {
    Not,
    Minus,
    Plus,
    Other,
}

} // verus!

use vstd::prelude::*;
use vstd::string::StringExecFns;

use crate::csv::CsvDataSource;
use crate::errors::QueryError;
use crate::expr::{Expression, Operator, UnaryOperator};
use crate::numbers::{is_f64_string, is_f64_token, is_i32_string, i32_string_val, parse_i32};
use crate::plan::{lookup_table, Catalog, LogicalPlan};
use crate::scalar::ScalarValue;
use crate::schema::{lookup_field, Field, Schema};
use crate::sql_ast::{
    SqlBinaryOperator, SqlExpr, SqlQuery, SqlSelect, SqlSelectItem, SqlSetExpr, SqlStatement,
    SqlTableFactor, SqlUnaryOperator, SqlValue,
};
use crate::text::{trim_char, trim_char_spec};

verus! {

/// The internal operator a SQL binary operator maps to, one to one.
pub open spec fn binary_op_of(op: SqlBinaryOperator) -> Option<Operator> {
    match op {
        SqlBinaryOperator::Eq => Some(Operator::Eq),
        SqlBinaryOperator::NotEq => Some(Operator::NotEq),
        SqlBinaryOperator::Gt => Some(Operator::Gt),
        SqlBinaryOperator::Lt => Some(Operator::Lt),
        SqlBinaryOperator::GtEq => Some(Operator::GtEq),
        SqlBinaryOperator::LtEq => Some(Operator::LtEq),
        SqlBinaryOperator::Plus => Some(Operator::Add),
        SqlBinaryOperator::Minus => Some(Operator::Subtract),
        SqlBinaryOperator::Multiply => Some(Operator::Multiply),
        SqlBinaryOperator::Divide => Some(Operator::Divide),
        SqlBinaryOperator::Other => None,
    }
}

/// The internal operator a SQL unary operator maps to; both unary plus
/// and unary minus map to negation.
pub open spec fn unary_op_of(op: SqlUnaryOperator) -> Option<UnaryOperator> {
    match op {
        SqlUnaryOperator::Not => Some(UnaryOperator::Not),
        SqlUnaryOperator::Minus => Some(UnaryOperator::Negate),
        SqlUnaryOperator::Plus => Some(UnaryOperator::Negate),
        SqlUnaryOperator::Other => None,
    }
}

pub fn sql_binary_op_to_operator(op: &SqlBinaryOperator) -> (r: Result<Operator, QueryError>)
    ensures
        match r {
            Ok(o) => binary_op_of(*op) == Some(o),
            Err(e) => binary_op_of(*op) is None && e matches QueryError::ValidationError { .. },
        },
{
    match op {
        SqlBinaryOperator::Eq => Ok(Operator::Eq),
        SqlBinaryOperator::NotEq => Ok(Operator::NotEq),
        SqlBinaryOperator::Gt => Ok(Operator::Gt),
        SqlBinaryOperator::Lt => Ok(Operator::Lt),
        SqlBinaryOperator::GtEq => Ok(Operator::GtEq),
        SqlBinaryOperator::LtEq => Ok(Operator::LtEq),
        SqlBinaryOperator::Plus => Ok(Operator::Add),
        SqlBinaryOperator::Minus => Ok(Operator::Subtract),
        SqlBinaryOperator::Multiply => Ok(Operator::Multiply),
        SqlBinaryOperator::Divide => Ok(Operator::Divide),
        SqlBinaryOperator::Other => Err(
            QueryError::ValidationError { message: String::from_str("Unsupported binary operator") },
        ),
    }
}

pub fn sql_unary_op_to_operator(op: &SqlUnaryOperator) -> (r: Result<UnaryOperator, QueryError>)
    ensures
        match r {
            Ok(o) => unary_op_of(*op) == Some(o),
            Err(e) => unary_op_of(*op) is None && e matches QueryError::ValidationError { .. },
        },
{
    match op {
        SqlUnaryOperator::Not => Ok(UnaryOperator::Not),
        SqlUnaryOperator::Minus => Ok(UnaryOperator::Negate),
        SqlUnaryOperator::Plus => Ok(UnaryOperator::Negate),
        SqlUnaryOperator::Other => Err(
            QueryError::ValidationError { message: String::from_str("Unsupported unary operator") },
        ),
    }
}

/// Whether a SQL literal converts to a scalar: a numeric token must
/// satisfy the 32-bit integer syntax or, failing that, the
/// floating-point syntax.
pub open spec fn value_convertible(v: SqlValue) -> bool {
    match v {
        SqlValue::Number(n) => is_i32_string(n@) || is_f64_string(n@),
        SqlValue::SingleQuotedString(_) => true,
        SqlValue::DoubleQuotedString(_) => true,
        SqlValue::Boolean(_) => true,
        SqlValue::Null => true,
        SqlValue::Other => false,
    }
}

/// The scalar a SQL literal converts to: a number as an integer when the
/// integer syntax fits and as a float otherwise, a quoted string as a
/// string, and NULL as the NULL string (the model does not know the
/// column a bare NULL will be compared against).
pub open spec fn scalar_of_value(v: SqlValue, s: ScalarValue) -> bool {
    match v {
        SqlValue::Number(n) => if is_i32_string(n@) {
            s matches ScalarValue::Int32(Some(x)) && x as int == i32_string_val(n@)
        } else {
            (s matches ScalarValue::Float64(Some(t)) && t@ == n@) && is_f64_string(n@)
        },
        SqlValue::SingleQuotedString(x) => s matches ScalarValue::String(Some(t)) && t@ == x@,
        SqlValue::DoubleQuotedString(x) => s matches ScalarValue::String(Some(t)) && t@ == x@,
        SqlValue::Boolean(b) => s == ScalarValue::Bool(Some(b)),
        SqlValue::Null => s == ScalarValue::String(None),
        SqlValue::Other => false,
    }
}

pub fn sql_value_to_scalar(value: &SqlValue) -> (r: Result<ScalarValue, QueryError>)
    ensures
        match r {
            Ok(s) => value_convertible(*value) && scalar_of_value(*value, s),
            Err(e) => !value_convertible(*value) && e matches QueryError::ValidationError { .. },
        },
{
    match value {
        SqlValue::Number(n) => {
            if let Some(i) = parse_i32(n.as_str()) {
                Ok(ScalarValue::Int32(Some(i)))
            } else if is_f64_token(n.as_str()) {
                Ok(ScalarValue::Float64(Some(n.clone())))
            } else {
                let mut msg = String::from_str("Invalid number: ");
                msg.append(n.as_str());
                Err(QueryError::ValidationError { message: msg })
            }
        },
        SqlValue::SingleQuotedString(s) => Ok(ScalarValue::String(Some(s.clone()))),
        SqlValue::DoubleQuotedString(s) => Ok(ScalarValue::String(Some(s.clone()))),
        SqlValue::Boolean(b) => Ok(ScalarValue::Bool(Some(*b))),
        SqlValue::Null => Ok(ScalarValue::String(None)),
        SqlValue::Other => Err(
            QueryError::ValidationError { message: String::from_str("Unsupported value type") },
        ),
    }
}

/// Whether a SQL expression maps into the expression model under a
/// schema: identifiers must resolve, literals must convert, and operator
/// nodes must carry supported operators over mappable operands.
pub open spec fn lowerable(e: SqlExpr, fields: Seq<Field>) -> bool
    decreases e,
{
    match e {
        SqlExpr::Identifier(name) => lookup_field(fields, name@) is Some,
        SqlExpr::Value(v) => value_convertible(v),
        SqlExpr::BinaryOp { left, op, right } => lowerable(*left, fields) && lowerable(
            *right,
            fields,
        ) && binary_op_of(op) is Some,
        SqlExpr::UnaryOp { op, expr } => lowerable(*expr, fields) && unary_op_of(op) is Some,
        SqlExpr::Other => false,
    }
}

/// What a SQL expression maps to: an identifier becomes a column
/// reference carrying the resolved field's type, a literal becomes the
/// converted scalar, and operator nodes map their operands recursively.
pub open spec fn lowers_to(e: SqlExpr, fields: Seq<Field>, out: Expression) -> bool
    decreases e,
{
    match e {
        SqlExpr::Identifier(name) => lookup_field(fields, name@) matches Some(f) && (out matches
            Expression::Column { name: n2, data_type } && n2@ == name@ && data_type
            == f.field_type),
        SqlExpr::Value(v) => out matches Expression::Literal(s) && scalar_of_value(v, s),
        SqlExpr::BinaryOp { left, op, right } => out matches Expression::Binary {
            left: l2,
            right: r2,
            operator,
        } && binary_op_of(op) == Some(operator) && lowers_to(*left, fields, *l2) && lowers_to(
            *right,
            fields,
            *r2,
        ),
        SqlExpr::UnaryOp { op, expr } => out matches Expression::Unary { operand, operator }
            && unary_op_of(op) == Some(operator) && lowers_to(*expr, fields, *operand),
        SqlExpr::Other => false,
    }
}

impl SqlExpr {
    /// Maps this SQL expression into the expression model, resolving
    /// identifiers against the schema. Fails exactly when some node is
    /// unsupported, an identifier does not resolve, or a numeric literal
    /// fits neither numeric syntax.
    pub fn to_expression(&self, schema: &Schema) -> (r: Result<Expression, QueryError>)
        ensures
            match r {
                Ok(out) => lowerable(*self, schema@) && lowers_to(*self, schema@, out),
                Err(e) => !lowerable(*self, schema@) && e matches QueryError::ValidationError {
                    ..
                },
            },
        decreases *self,
    {
        match self {
            SqlExpr::Identifier(ident) => {
                let field = match schema.column_exists(ident.as_str()) {
                    Ok(f) => f,
                    Err(e) => {
                        return Err(QueryError::ValidationError { message: e });
                    },
                };
                Ok(Expression::Column { name: ident.clone(), data_type: field.field_type })
            },
            SqlExpr::Value(value) => {
                let scalar = sql_value_to_scalar(value)?;
                Ok(Expression::Literal(scalar))
            },
            SqlExpr::BinaryOp { left, op, right } => {
                let left_expr = left.to_expression(schema)?;
                let right_expr = right.to_expression(schema)?;
                let operator = sql_binary_op_to_operator(op)?;
                Ok(
                    Expression::Binary {
                        left: Box::new(left_expr),
                        right: Box::new(right_expr),
                        operator,
                    },
                )
            },
            SqlExpr::UnaryOp { op, expr } => {
                let operand = expr.to_expression(schema)?;
                let operator = sql_unary_op_to_operator(op)?;
                Ok(Expression::Unary { operand: Box::new(operand), operator })
            },
            SqlExpr::Other => Err(
                QueryError::ValidationError {
                    message: String::from_str("Unsupported expression type"),
                },
            ),
        }
    }
}

/// Whether a SELECT item maps through the expression mapper; a wildcard
/// does not (it is expanded separately), and an aliased expression maps
/// as its expression.
pub open spec fn item_lowerable(item: SqlSelectItem, fields: Seq<Field>) -> bool {
    match item {
        SqlSelectItem::UnnamedExpr(e) => lowerable(e, fields),
        SqlSelectItem::ExprWithAlias(e) => lowerable(e, fields),
        SqlSelectItem::Wildcard => false,
        SqlSelectItem::Other => false,
    }
}

pub open spec fn item_lowers_to(item: SqlSelectItem, fields: Seq<Field>, out: Expression) -> bool {
    match item {
        SqlSelectItem::UnnamedExpr(e) => lowers_to(e, fields, out),
        SqlSelectItem::ExprWithAlias(e) => lowers_to(e, fields, out),
        SqlSelectItem::Wildcard => false,
        SqlSelectItem::Other => false,
    }
}

impl SqlSelectItem {
    /// Maps one SELECT item through the expression mapper. A wildcard is
    /// not an expression and is rejected here; the query translator
    /// expands it against the schema instead.
    pub fn to_expression(&self, schema: &Schema) -> (r: Result<Expression, QueryError>)
        ensures
            match r {
                Ok(out) => item_lowerable(*self, schema@) && item_lowers_to(*self, schema@, out),
                Err(e) => !item_lowerable(*self, schema@) && e matches
                    QueryError::ValidationError { .. },
            },
    {
        match self {
            SqlSelectItem::UnnamedExpr(expr) => expr.to_expression(schema),
            SqlSelectItem::ExprWithAlias(expr) => expr.to_expression(schema),
            SqlSelectItem::Wildcard => Err(
                QueryError::ValidationError {
                    message: String::from_str("SELECT * is not yet supported in projection"),
                },
            ),
            SqlSelectItem::Other => Err(
                QueryError::ValidationError { message: String::from_str("Unsupported SELECT item") },
            ),
        }
    }
}

/// The table name a SELECT refers to, when it has a FROM clause whose
/// first relation is a plain, non-empty table name: the rendered name
/// with surrounding double and single quotes stripped.
pub open spec fn table_name_of(select: SqlSelect) -> Option<Seq<char>> {
    if select.from@.len() == 0 {
        None
    } else {
        match select.from@[0] {
            SqlTableFactor::Table { name } => if name@.len() == 0 {
                None
            } else {
                Some(trim_char_spec(trim_char_spec(name@, '"'), '\''))
            },
            SqlTableFactor::Other => None,
        }
    }
}

/// Extracts the single table name of a SELECT, stripping surrounding
/// quote characters; joins, subqueries and empty FROM clauses are
/// rejected.
pub fn extract_table_name(select: &SqlSelect) -> (r: Result<String, QueryError>)
    ensures
        match r {
            Ok(s) => table_name_of(*select) == Some(s@),
            Err(e) => table_name_of(*select) is None && e matches QueryError::ValidationError {
                ..
            },
        },
{
    if select.from.len() == 0 {
        return Err(
            QueryError::ValidationError {
                message: String::from_str("Query must have a FROM clause"),
            },
        );
    }
    match &select.from[0] {
        SqlTableFactor::Table { name } => {
            if name.as_str().unicode_len() == 0 {
                return Err(
                    QueryError::ValidationError { message: String::from_str("Invalid table name") },
                );
            }
            let stripped = trim_char(trim_char(name.as_str(), '"'), '\'');
            Ok(stripped.to_owned())
        },
        SqlTableFactor::Other => Err(
            QueryError::ValidationError {
                message: String::from_str(
                    "Only simple table references are supported (no subqueries, joins, etc.)",
                ),
            },
        ),
    }
}

/// How many expressions a SELECT item list expands to: a wildcard
/// contributes one per schema field, every other item one.
pub open spec fn projection_count(items: Seq<SqlSelectItem>, fields: Seq<Field>) -> int
    decreases items.len(),
{
    if items.len() == 0 {
        0
    } else {
        (match items[0] {
            SqlSelectItem::Wildcard => fields.len() as int,
            _ => 1int,
        }) + projection_count(items.drop_first(), fields)
    }
}

/// Whether every SELECT item expands: an item is either a wildcard or
/// maps through the expression mapper.
pub open spec fn items_lowerable(items: Seq<SqlSelectItem>, fields: Seq<Field>) -> bool {
    forall|i: int|
        0 <= i < items.len() ==> ((#[trigger] items[i]) matches SqlSelectItem::Wildcard
            || item_lowerable(items[i], fields))
}

/// The expressions one SELECT item contributes: a wildcard contributes
/// one column reference per schema field in schema order, every other
/// item its mapped expression.
pub open spec fn segment_for(item: SqlSelectItem, fields: Seq<Field>, seg: Seq<Expression>) -> bool {
    match item {
        SqlSelectItem::Wildcard => seg.len() == fields.len() && forall|j: int|
            0 <= j < fields.len() ==> ((#[trigger] seg[j]) matches Expression::Column {
                name,
                data_type,
            } && name@ == fields[j].name@ && data_type == fields[j].field_type),
        _ => seg.len() == 1 && item_lowers_to(item, fields, seg[0]),
    }
}

/// The projected expressions of a whole SELECT item list, item segments
/// concatenated in order.
pub open spec fn projection_lowers_to(
    items: Seq<SqlSelectItem>,
    fields: Seq<Field>,
    exprs: Seq<Expression>,
) -> bool
    decreases items.len(),
{
    if items.len() == 0 {
        exprs.len() == 0
    } else {
        let k = (match items[0] {
            SqlSelectItem::Wildcard => fields.len() as int,
            _ => 1int,
        });
        exprs.len() >= k && segment_for(items[0], fields, exprs.take(k)) && projection_lowers_to(
            items.drop_first(),
            fields,
            exprs.skip(k),
        )
    }
}

proof fn lemma_projection_len(items: Seq<SqlSelectItem>, fields: Seq<Field>, exprs: Seq<Expression>)
    requires
        projection_lowers_to(items, fields, exprs),
    ensures
        exprs.len() == projection_count(items, fields),
    decreases items.len(),
{
    if items.len() > 0 {
        let k = (match items[0] {
            SqlSelectItem::Wildcard => fields.len() as int,
            _ => 1int,
        });
        lemma_projection_len(items.drop_first(), fields, exprs.skip(k));
    }
}

/// Appending one item's segment extends the projection relation by that
/// item.
proof fn lemma_projection_extend(
    items: Seq<SqlSelectItem>,
    fields: Seq<Field>,
    exprs: Seq<Expression>,
    seg: Seq<Expression>,
    k: int,
)
    requires
        0 <= k < items.len(),
        projection_lowers_to(items.take(k), fields, exprs),
        segment_for(items[k], fields, seg),
    ensures
        projection_lowers_to(items.take(k + 1), fields, exprs + seg),
    decreases k,
{
    if k == 0 {
        assert(exprs.len() == 0);
        let whole = exprs + seg;
        assert(whole =~= seg);
        let t1 = items.take(1);
        assert(t1[0] == items[0]);
        let width = (match t1[0] {
            SqlSelectItem::Wildcard => fields.len() as int,
            _ => 1int,
        });
        assert(seg.len() == width);
        assert(whole.take(width) =~= seg);
        assert(whole.skip(width) =~= Seq::<Expression>::empty());
        assert(t1.drop_first() =~= Seq::<SqlSelectItem>::empty());
        assert(projection_lowers_to(t1.drop_first(), fields, whole.skip(width)));
    } else {
        let tk = items.take(k);
        let tk1 = items.take(k + 1);
        assert(tk[0] == items[0]);
        assert(tk1[0] == items[0]);
        let width = (match items[0] {
            SqlSelectItem::Wildcard => fields.len() as int,
            _ => 1int,
        });
        assert(exprs.len() >= width);
        assert(segment_for(items[0], fields, exprs.take(width)));
        let rest_items = items.drop_first();
        assert(tk.drop_first() =~= rest_items.take(k - 1));
        assert(projection_lowers_to(rest_items.take(k - 1), fields, exprs.skip(width)));
        assert(rest_items[k - 1] == items[k]);
        lemma_projection_extend(rest_items, fields, exprs.skip(width), seg, k - 1);
        let whole = exprs + seg;
        assert(whole.take(width) =~= exprs.take(width));
        assert(whole.skip(width) =~= exprs.skip(width) + seg);
        assert(tk1.drop_first() =~= rest_items.take(k));
        assert(whole.len() >= width);
        assert(segment_for(tk1[0], fields, whole.take(width)));
        assert(projection_lowers_to(tk1.drop_first(), fields, whole.skip(width)));
    }
}

/// The scan node a translated query rests on: the table's name as its
/// path, the table's schema, and no projection narrowing (all columns).
pub open spec fn scan_node_matches(p: LogicalPlan, name: Seq<char>, fields: Seq<Field>) -> bool {
    p matches LogicalPlan::Scan { path, schema, projection } && path@ == name && schema@ == fields
        && projection is None
}

/// The scan, wrapped in a filter exactly when the SELECT has a WHERE
/// clause, whose predicate is the mapped condition.
pub open spec fn filtered_plan_matches(
    p: LogicalPlan,
    select: SqlSelect,
    name: Seq<char>,
    fields: Seq<Field>,
) -> bool {
    match select.selection {
        Some(cond) => p matches LogicalPlan::Filter { input, predicate } && scan_node_matches(
            *input,
            name,
            fields,
        ) && lowers_to(cond, fields, predicate),
        None => scan_node_matches(p, name, fields),
    }
}

/// Whether a query translates: a plain SELECT over one known table,
/// with a mappable WHERE condition if present and every SELECT item
/// either a wildcard or mappable.
pub open spec fn query_lowerable(q: SqlQuery, entries: Seq<(String, CsvDataSource)>) -> bool {
    q.body matches SqlSetExpr::Select(sel) && table_name_of(*sel) matches Some(name)
        && lookup_table(entries, name) matches Some(fields) && (match sel.selection {
        Some(cond) => lowerable(cond, fields),
        None => true,
    }) && items_lowerable(sel.projection@, fields)
}

/// The plan a translated query produces: the (possibly filtered) scan,
/// wrapped in a projection exactly when the SELECT item list expands to
/// at least one expression.
pub open spec fn query_plan_matches(
    q: SqlQuery,
    entries: Seq<(String, CsvDataSource)>,
    p: LogicalPlan,
) -> bool {
    q.body matches SqlSetExpr::Select(sel) && table_name_of(*sel) matches Some(name)
        && lookup_table(entries, name) matches Some(fields) && (if projection_count(
        sel.projection@,
        fields,
    ) == 0 {
        filtered_plan_matches(p, *sel, name, fields)
    } else {
        p matches LogicalPlan::Projection { input, columns } && filtered_plan_matches(
            *input,
            *sel,
            name,
            fields,
        ) && projection_lowers_to(sel.projection@, fields, columns@)
    })
}

/// Translates one parsed SELECT query into a logical plan: a scan of the
/// referenced table with no projection narrowing, wrapped in a filter
/// when a WHERE clause is present, wrapped in a projection when the item
/// list expands to any columns (a wildcard expands to every schema field
/// in schema order).
#[verifier::loop_isolation(false)]
pub fn query_to_logical_plan(query: &SqlQuery, catalog: &Catalog) -> (r: Result<
    LogicalPlan,
    QueryError,
>)
    ensures
        match r {
            Ok(p) => query_lowerable(*query, catalog.entries()) && query_plan_matches(
                *query,
                catalog.entries(),
                p,
            ),
            Err(e) => !query_lowerable(*query, catalog.entries()) && e matches
                QueryError::ValidationError { .. },
        },
{
    let select = match &query.body {
        SqlSetExpr::Select(select) => &**select,
        _ => {
            return Err(
                QueryError::ValidationError {
                    message: String::from_str("Only SELECT queries are supported"),
                },
            );
        },
    };
    let table_name = extract_table_name(select)?;
    let schema: Schema = match catalog.get_schema(table_name.as_str()) {
        Some(s) => s.clone(),
        None => {
            let mut msg = String::from_str("Table '");
            msg.append(table_name.as_str());
            msg.append("' not found in catalog");
            return Err(QueryError::ValidationError { message: msg });
        },
    };
    let ghost fields = schema@;
    let scan_schema = schema.clone();
    let mut plan = LogicalPlan::Scan {
        path: table_name.clone(),
        schema: scan_schema,
        projection: None,
    };
    if let Some(selection) = &select.selection {
        let predicate = selection.to_expression(&schema)?;
        plan = LogicalPlan::Filter { input: Box::new(plan), predicate };
    }
    proof {
        assert(filtered_plan_matches(plan, *select, table_name@, fields));
    }
    let items = &select.projection;
    let n = items.len();
    let mut projection_columns: Vec<Expression> = Vec::new();
    let mut i: usize = 0;
    while i < n
        invariant
            0 <= i <= n,
            n == items@.len(),
            fields == schema@,
            items_lowerable(items@.take(i as int), fields),
            projection_lowers_to(items@.take(i as int), fields, projection_columns@),
        decreases n - i,
    {
        let ghost exprs0 = projection_columns@;
        match &items[i] {
            SqlSelectItem::Wildcard => {
                let m = schema.fields.len();
                let mut j: usize = 0;
                while j < m
                    invariant
                        0 <= j <= m,
                        m == schema.fields@.len(),
                        fields == schema@,
                        projection_columns@.len() == exprs0.len() + j,
                        projection_columns@.take(exprs0.len() as int) =~= exprs0,
                        forall|jj: int|
                            0 <= jj < j ==> ((#[trigger] projection_columns@[exprs0.len() + jj])
                                matches Expression::Column { name, data_type } && name@
                                == fields[jj].name@ && data_type == fields[jj].field_type),
                    decreases m - j,
                {
                    projection_columns.push(
                        Expression::Column {
                            name: schema.fields[j].name.clone(),
                            data_type: schema.fields[j].field_type,
                        },
                    );
                    j += 1;
                }
                proof {
                    let seg = projection_columns@.skip(exprs0.len() as int);
                    assert(seg.len() == fields.len());
                    assert forall|jj: int| 0 <= jj < fields.len() implies ((#[trigger] seg[jj])
                        matches Expression::Column { name, data_type } && name@
                        == fields[jj].name@ && data_type == fields[jj].field_type) by {
                        assert(seg[jj] == projection_columns@[exprs0.len() + jj]);
                    }
                    assert(segment_for(items@[i as int], fields, seg));
                    assert(projection_columns@ =~= exprs0 + seg);
                    lemma_projection_extend(items@, fields, exprs0, seg, i as int);
                }
            },
            item => {
                let expr = match item.to_expression(&schema) {
                    Ok(e) => e,
                    Err(e) => {
                        proof {
                            assert(!item_lowerable(items@[i as int], fields));
                            assert(!items_lowerable(items@, fields));
                            assert(!query_lowerable(*query, catalog.entries()));
                        }
                        return Err(e);
                    },
                };
                projection_columns.push(expr);
                proof {
                    let seg = projection_columns@.skip(exprs0.len() as int);
                    assert(seg =~= seq![projection_columns@[exprs0.len() as int]]);
                    assert(segment_for(items@[i as int], fields, seg));
                    assert(projection_columns@ =~= exprs0 + seg);
                    lemma_projection_extend(items@, fields, exprs0, seg, i as int);
                }
            },
        }
        i += 1;
    }
    proof {
        assert(items@.take(n as int) =~= items@);
        lemma_projection_len(items@, fields, projection_columns@);
    }
    if projection_columns.len() > 0 {
        plan = LogicalPlan::Projection { input: Box::new(plan), columns: projection_columns };
    }
    Ok(plan)
}

/// Translates a parsed SQL statement into a logical plan; only SELECT
/// queries are supported.
pub fn sql_to_logical_plan(statement: &SqlStatement, catalog: &Catalog) -> (r: Result<
    LogicalPlan,
    QueryError,
>)
    ensures
        match r {
            Ok(p) => statement matches SqlStatement::Query(q) && query_lowerable(
                **q,
                catalog.entries(),
            ) && query_plan_matches(**q, catalog.entries(), p),
            Err(e) => (match statement {
                SqlStatement::Query(q) => !query_lowerable(**q, catalog.entries()),
                _ => true,
            }) && e matches QueryError::ValidationError { .. },
        },
{
    match statement {
        SqlStatement::Query(query) => query_to_logical_plan(query, catalog),
        _ => Err(
            QueryError::ValidationError {
                message: String::from_str("Unsupported statement type"),
            },
        ),
    }
}

} // verus!

use vstd::prelude::*;
use vstd::string::StringExecFns;

use crate::csv::{has_csv_extension, lines_view, schema_inferred_from, CsvDataSource};
use crate::datatypes::DataType;
use crate::errors::QueryError;
use crate::expr::{expr_type, expr_valid, Expression, Operator, UnaryOperator};
use crate::numbers::{i32_dec_str, i32_to_string};
use crate::scalar::ScalarValue;
use crate::schema::{lookup_field, Field, Schema};
use crate::text::str_eq;

verus! {

/// A tree describing what query operation to perform: a table scan,
/// optionally wrapped in filters and projections. Each node owns its
/// input subtree exclusively; plans are rebuilt, never mutated.
#[derive(Debug)]
pub enum LogicalPlan {
    Scan { path: String, schema: Schema, projection: Option<Vec<String>> },
    Filter { input: Box<LogicalPlan>, predicate: Expression },
    Projection { input: Box<LogicalPlan>, columns: Vec<Expression> },
}

/// Structural equality of plans up to container views: paths, schemas,
/// projection lists and predicates must agree, node for node.
pub open spec fn plan_equiv(a: LogicalPlan, b: LogicalPlan) -> bool
    decreases a,
{
    match (a, b) {
        (
            LogicalPlan::Scan { path: p1, schema: s1, projection: pr1 },
            LogicalPlan::Scan { path: p2, schema: s2, projection: pr2 },
        ) => p1@ == p2@ && s1@ == s2@ && match (pr1, pr2) {
            (Some(v1), Some(v2)) => v1@.map_values(|s: String| s@) == v2@.map_values(
                |s: String| s@,
            ),
            (None, None) => true,
            _ => false,
        },
        (
            LogicalPlan::Filter { input: i1, predicate: e1 },
            LogicalPlan::Filter { input: i2, predicate: e2 },
        ) => plan_equiv(*i1, *i2) && e1 == e2,
        (
            LogicalPlan::Projection { input: i1, columns: c1 },
            LogicalPlan::Projection { input: i2, columns: c2 },
        ) => plan_equiv(*i1, *i2) && c1@ == c2@,
        _ => false,
    }
}

impl Clone for LogicalPlan {
    /// A clone is structurally equivalent to the original.
    fn clone(&self) -> (r: Self)
        ensures
            plan_equiv(r, *self),
        decreases *self,
    {
        match self {
            LogicalPlan::Scan { path, schema, projection } => {
                let pr: Option<Vec<String>> = match projection {
                    Some(names) => {
                        let cloned_names = names.clone();
                        proof {
                            assert(cloned_names@.map_values(|s: String| s@) =~= names@.map_values(
                                |s: String| s@,
                            ));
                        }
                        Some(cloned_names)
                    },
                    None => None,
                };
                LogicalPlan::Scan { path: path.clone(), schema: schema.clone(), projection: pr }
            },
            LogicalPlan::Filter { input, predicate } => LogicalPlan::Filter {
                input: Box::new((**input).clone()),
                predicate: predicate.clone(),
            },
            LogicalPlan::Projection { input, columns } => {
                let cloned_columns = columns.clone();
                proof {
                    assert(cloned_columns@ =~= columns@);
                }
                LogicalPlan::Projection {
                    input: Box::new((**input).clone()),
                    columns: cloned_columns,
                }
            },
        }
    }
}

/// The text a scalar renders to: a value as its literal syntax, an
/// absent payload as NULL, a string in single quotes.
pub open spec fn render_scalar(v: ScalarValue) -> Seq<char> {
    match v {
        ScalarValue::Int32(Some(x)) => i32_dec_str(x as int),
        ScalarValue::Int32(None) => "NULL"@,
        ScalarValue::String(Some(s)) => "'"@ + s@ + "'"@,
        ScalarValue::String(None) => "NULL"@,
        ScalarValue::Bool(Some(b)) => if b {
            "true"@
        } else {
            "false"@
        },
        ScalarValue::Bool(None) => "NULL"@,
        ScalarValue::Float64(Some(t)) => t@,
        ScalarValue::Float64(None) => "NULL"@,
    }
}

/// The symbol an operator renders to.
pub open spec fn op_symbol(op: Operator) -> Seq<char> {
    match op {
        Operator::Gt => ">"@,
        Operator::Lt => "<"@,
        Operator::GtEq => ">="@,
        Operator::LtEq => "<="@,
        Operator::Eq => "="@,
        Operator::NotEq => "!="@,
        Operator::Add => "+"@,
        Operator::Subtract => "-"@,
        Operator::Multiply => "*"@,
        Operator::Divide => "/"@,
    }
}

/// The text an expression renders to: column names and literal values,
/// binary operators infix, unary operators in SQL style.
pub open spec fn render_expr(e: Expression) -> Seq<char>
    decreases e,
{
    match e {
        Expression::Column { name, .. } => name@,
        Expression::Literal(v) => render_scalar(v),
        Expression::Binary { left, right, operator } => render_expr(*left) + " "@ + op_symbol(
            operator,
        ) + " "@ + render_expr(*right),
        Expression::Unary { operand, operator } => match operator {
            UnaryOperator::Not => "NOT "@ + render_expr(*operand),
            UnaryOperator::IsNull => render_expr(*operand) + " IS NULL"@,
            UnaryOperator::IsNotNull => render_expr(*operand) + " IS NOT NULL"@,
            UnaryOperator::Negate => "-"@ + render_expr(*operand),
        },
    }
}

/// Names joined by a comma and a space.
pub open spec fn render_names(names: Seq<Seq<char>>) -> Seq<char>
    decreases names.len(),
{
    if names.len() == 0 {
        Seq::empty()
    } else if names.len() == 1 {
        names[0]
    } else {
        names[0] + ", "@ + render_names(names.drop_first())
    }
}

/// The text a plan renders to: one line per node prefixed by its
/// indentation, children indented two spaces deeper. A scan shows its
/// path and projection, a filter its predicate, and a projection its
/// output names.
pub open spec fn render_plan(p: LogicalPlan, prefix: Seq<char>) -> Seq<char>
    decreases p,
{
    match p {
        LogicalPlan::Scan { path, projection, .. } => prefix + "Scan: "@ + path@ + " (columns: "@
            + (match projection {
            Some(names) => "["@ + render_names(crate::text::string_views(names@)) + "]"@,
            None => "all"@,
        }) + ")"@,
        LogicalPlan::Filter { input, predicate } => prefix + "Filter: "@ + render_expr(predicate)
            + "\n"@ + render_plan(*input, prefix + "  "@),
        LogicalPlan::Projection { input, columns } => prefix + "Projection: ["@ + render_names(
            columns@.map_values(|e: Expression| projected_name(e)),
        ) + "]\n"@ + render_plan(*input, prefix + "  "@),
    }
}

fn op_symbol_str(op: Operator) -> (r: &'static str)
    ensures
        r@ == op_symbol(op),
{
    match op {
        Operator::Gt => ">",
        Operator::Lt => "<",
        Operator::GtEq => ">=",
        Operator::LtEq => "<=",
        Operator::Eq => "=",
        Operator::NotEq => "!=",
        Operator::Add => "+",
        Operator::Subtract => "-",
        Operator::Multiply => "*",
        Operator::Divide => "/",
    }
}

fn render_scalar_string(v: &ScalarValue) -> (r: String)
    ensures
        r@ == render_scalar(*v),
{
    match v {
        ScalarValue::Int32(Some(x)) => i32_to_string(*x),
        ScalarValue::String(Some(s)) => {
            let mut t = String::from_str("'");
            t.append(s.as_str());
            t.append("'");
            t
        },
        ScalarValue::Bool(Some(b)) => {
            if *b {
                String::from_str("true")
            } else {
                String::from_str("false")
            }
        },
        ScalarValue::Float64(Some(t)) => t.clone(),
        ScalarValue::Int32(None) => String::from_str("NULL"),
        ScalarValue::String(None) => String::from_str("NULL"),
        ScalarValue::Bool(None) => String::from_str("NULL"),
        ScalarValue::Float64(None) => String::from_str("NULL"),
    }
}

fn render_expr_string(e: &Expression) -> (r: String)
    ensures
        r@ == render_expr(*e),
    decreases *e,
{
    match e {
        Expression::Column { name, .. } => name.clone(),
        Expression::Literal(v) => render_scalar_string(v),
        Expression::Binary { left, right, operator } => {
            let mut s = render_expr_string(left);
            s.append(" ");
            s.append(op_symbol_str(*operator));
            s.append(" ");
            let right_text = render_expr_string(right);
            s.append(right_text.as_str());
            s
        },
        Expression::Unary { operand, operator } => match operator {
            UnaryOperator::Not => {
                let mut s = String::from_str("NOT ");
                let operand_text = render_expr_string(operand);
                s.append(operand_text.as_str());
                s
            },
            UnaryOperator::IsNull => {
                let mut s = render_expr_string(operand);
                s.append(" IS NULL");
                s
            },
            UnaryOperator::IsNotNull => {
                let mut s = render_expr_string(operand);
                s.append(" IS NOT NULL");
                s
            },
            UnaryOperator::Negate => {
                let mut s = String::from_str("-");
                let operand_text = render_expr_string(operand);
                s.append(operand_text.as_str());
                s
            },
        },
    }
}

/// Renders `names[start..]` joined by commas.
fn render_names_from(names: &Vec<String>, start: usize) -> (r: String)
    requires
        start <= names@.len(),
    ensures
        r@ == render_names(crate::text::string_views(names@).skip(start as int)),
    decreases names@.len() - start,
{
    let ghost tail = crate::text::string_views(names@).skip(start as int);
    let n = names.len();
    if start == n {
        proof {
            assert(tail =~= Seq::<Seq<char>>::empty());
        }
        String::new()
    } else if start + 1 == n {
        proof {
            assert(tail.len() == 1);
            assert(tail[0] == names@[start as int]@);
        }
        names[start].clone()
    } else {
        let mut s = names[start].clone();
        s.append(", ");
        let rest = render_names_from(names, start + 1);
        s.append(rest.as_str());
        proof {
            assert(tail[0] == names@[start as int]@);
            assert(tail.drop_first() =~= crate::text::string_views(names@).skip(start + 1));
        }
        s
    }
}

fn render_plan_string(p: &LogicalPlan, prefix: &str) -> (r: String)
    ensures
        r@ == render_plan(*p, prefix@),
    decreases *p,
{
    match p {
        LogicalPlan::Scan { path, projection, .. } => {
            let mut s = String::from_str(prefix);
            s.append("Scan: ");
            s.append(path.as_str());
            s.append(" (columns: ");
            match projection {
                Some(names) => {
                    s.append("[");
                    let joined = render_names_from(names, 0);
                    s.append(joined.as_str());
                    s.append("]");
                    proof {
                        assert(crate::text::string_views(names@).skip(0) =~= crate::text::string_views(
                            names@,
                        ));
                    }
                },
                None => {
                    s.append("all");
                },
            }
            s.append(")");
            s
        },
        LogicalPlan::Filter { input, predicate } => {
            let mut s = String::from_str(prefix);
            s.append("Filter: ");
            let predicate_text = render_expr_string(predicate);
            s.append(predicate_text.as_str());
            s.append("\n");
            let mut deeper = String::from_str(prefix);
            deeper.append("  ");
            let sub = render_plan_string(input, deeper.as_str());
            s.append(sub.as_str());
            s
        },
        LogicalPlan::Projection { input, columns } => {
            let mut s = String::from_str(prefix);
            s.append("Projection: [");
            let n = columns.len();
            let mut names: Vec<String> = Vec::new();
            let mut i: usize = 0;
            while i < n
                invariant
                    0 <= i <= n,
                    n == columns@.len(),
                    names@.len() == i,
                    forall|j: int|
                        0 <= j < i ==> (#[trigger] names@[j])@ == projected_name(columns@[j]),
                decreases n - i,
            {
                let name: String = match &columns[i] {
                    Expression::Column { name, .. } => name.clone(),
                    Expression::Literal(_) => String::from_str("literal"),
                    Expression::Binary { .. } => String::from_str("binary"),
                    Expression::Unary { .. } => String::from_str("unary"),
                };
                names.push(name);
                i += 1;
            }
            proof {
                assert(crate::text::string_views(names@) =~= columns@.map_values(
                    |e: Expression| projected_name(e),
                ));
                assert(crate::text::string_views(names@).skip(0) =~= crate::text::string_views(
                    names@,
                ));
            }
            let joined = render_names_from(&names, 0);
            s.append(joined.as_str());
            s.append("]\n");
            let mut deeper = String::from_str(prefix);
            deeper.append("  ");
            let sub = render_plan_string(input, deeper.as_str());
            s.append(sub.as_str());
            s
        },
    }
}

impl LogicalPlan {
    /// Renders the plan as an indented tree, one line per node.
    pub fn render(&self) -> (r: String)
        ensures
            r@ == render_plan(*self, ""@),
    {
        render_plan_string(self, "")
    }
}

/// The names of a schema's fields, in column order.
pub open spec fn field_names(fields: Seq<Field>) -> Seq<Seq<char>> {
    fields.map_values(|f: Field| f.name@)
}

/// The name that a projected expression contributes to the output
/// schema: a column's own name, and a fixed label for other shapes.
pub open spec fn projected_name(e: Expression) -> Seq<char> {
    match e {
        Expression::Column { name, .. } => name@,
        Expression::Literal(_) => "literal"@,
        Expression::Binary { .. } => "binary"@,
        Expression::Unary { .. } => "unary"@,
    }
}

/// The description of one output field: name, type, nullability.
pub open spec fn field_desc(f: Field) -> (Seq<char>, DataType, bool) {
    (f.name@, f.field_type, f.is_nullable)
}

/// Whether every projected expression in the plan has a type.
pub open spec fn plan_well_typed(p: LogicalPlan) -> bool
    decreases p,
{
    match p {
        LogicalPlan::Scan { .. } => true,
        LogicalPlan::Filter { input, .. } => plan_well_typed(*input),
        LogicalPlan::Projection { input, columns } => plan_well_typed(*input) && forall|i: int|
            0 <= i < columns@.len() ==> expr_type(#[trigger] columns@[i]) is Some,
    }
}

/// The output schema a plan produces, described field by field: a scan
/// yields its table's schema, a filter passes its input through, and a
/// projection yields one always-nullable field per projected expression.
pub open spec fn plan_output(p: LogicalPlan) -> Seq<(Seq<char>, DataType, bool)>
    decreases p,
{
    match p {
        LogicalPlan::Scan { schema, .. } => schema@.map_values(|f: Field| field_desc(f)),
        LogicalPlan::Filter { input, .. } => plan_output(*input),
        LogicalPlan::Projection { columns, .. } => columns@.map_values(
            |e: Expression|
                (
                    projected_name(e),
                    match expr_type(e) {
                        Some(t) => t,
                        None => DataType::String,
                    },
                    true,
                ),
        ),
    }
}

/// The registry mapping table names to owned data sources. Registration
/// replaces an existing entry of the same name, as a map insert does.
#[derive(Debug)]
pub struct Catalog {
    tables: Vec<(String, CsvDataSource)>,
}

/// The schema fields of the first data source registered under `name`.
pub open spec fn lookup_table(
    entries: Seq<(String, CsvDataSource)>,
    name: Seq<char>,
) -> Option<Seq<Field>>
    decreases entries.len(),
{
    if entries.len() == 0 {
        None
    } else if entries[0].0@ == name {
        Some(entries[0].1.schema_spec())
    } else {
        lookup_table(entries.drop_first(), name)
    }
}

proof fn lemma_lookup_table_skip(
    entries: Seq<(String, CsvDataSource)>,
    name: Seq<char>,
    k: int,
)
    requires
        0 <= k <= entries.len(),
        forall|j: int| 0 <= j < k ==> (#[trigger] entries[j]).0@ != name,
    ensures
        lookup_table(entries, name) == lookup_table(entries.skip(k), name),
    decreases k,
{
    if k > 0 {
        let t = entries.drop_first();
        assert(forall|j: int| 0 <= j < k - 1 ==> (#[trigger] t[j]).0@ != name);
        lemma_lookup_table_skip(t, name, k - 1);
        assert(t.skip(k - 1) =~= entries.skip(k));
    } else {
        assert(entries.skip(0) =~= entries);
    }
}

proof fn lemma_lookup_table_update(
    entries: Seq<(String, CsvDataSource)>,
    i: int,
    pair: (String, CsvDataSource),
    n: Seq<char>,
)
    requires
        0 <= i < entries.len(),
        forall|j: int| 0 <= j < i ==> (#[trigger] entries[j]).0@ != pair.0@,
        entries[i].0@ == pair.0@,
    ensures
        lookup_table(entries.update(i, pair), n) == (if n == pair.0@ {
            Some(pair.1.schema_spec())
        } else {
            lookup_table(entries, n)
        }),
    decreases entries.len(),
{
    let upd = entries.update(i, pair);
    if i == 0 {
        assert(upd[0] == pair);
        assert(upd.drop_first() =~= entries.drop_first());
        if n != pair.0@ {
            assert(lookup_table(entries, n) == lookup_table(entries.drop_first(), n));
        }
    } else {
        assert(upd[0] == entries[0]);
        assert(entries[0].0@ != pair.0@);
        let t = entries.drop_first();
        assert(forall|j: int| 0 <= j < i - 1 ==> (#[trigger] t[j]).0@ != pair.0@);
        lemma_lookup_table_update(t, i - 1, pair, n);
        assert(upd.drop_first() =~= t.update(i - 1, pair));
    }
}

proof fn lemma_lookup_table_push(
    entries: Seq<(String, CsvDataSource)>,
    pair: (String, CsvDataSource),
    n: Seq<char>,
)
    requires
        forall|j: int| 0 <= j < entries.len() ==> (#[trigger] entries[j]).0@ != pair.0@,
    ensures
        lookup_table(entries.push(pair), n) == (if n == pair.0@ {
            Some(pair.1.schema_spec())
        } else {
            lookup_table(entries, n)
        }),
    decreases entries.len(),
{
    let p = entries.push(pair);
    if entries.len() == 0 {
        assert(p[0] == pair);
        assert(p.drop_first() =~= Seq::<(String, CsvDataSource)>::empty());
        if n == pair.0@ {
            assert(lookup_table(p, n) == Some(pair.1.schema_spec()));
        } else {
            assert(lookup_table(p, n) == lookup_table(p.drop_first(), n));
            assert(lookup_table(p.drop_first(), n) is None);
            assert(lookup_table(entries, n) is None);
        }
    } else {
        let t = entries.drop_first();
        assert(forall|j: int| 0 <= j < t.len() ==> (#[trigger] t[j]).0@ != pair.0@);
        lemma_lookup_table_push(t, pair, n);
        assert(p.drop_first() =~= t.push(pair));
        assert(p[0] == entries[0]);
        assert(entries[0].0@ != pair.0@);
        if p[0].0@ == n {
            assert(lookup_table(p, n) == Some(p[0].1.schema_spec()));
            assert(lookup_table(entries, n) == Some(entries[0].1.schema_spec()));
            assert(n != pair.0@);
        } else {
            assert(lookup_table(p, n) == lookup_table(t.push(pair), n));
            assert(lookup_table(entries, n) == lookup_table(t, n));
        }
    }
}

impl Catalog {
    /// The registered entries, in registration order.
    pub closed spec fn entries(&self) -> Seq<(String, CsvDataSource)> {
        self.tables@
    }

    pub fn new() -> (r: Self)
        ensures
            r.entries().len() == 0,
    {
        Self { tables: Vec::new() }
    }

    /// Registers a data source under a name, replacing any data source
    /// already registered under it and leaving every other entry as it
    /// was.
    pub fn register_table(&mut self, name: String, source: CsvDataSource)
        ensures
            forall|n: Seq<char>|
                #[trigger] lookup_table(final(self).entries(), n) == (if n == name@ {
                    Some(source.schema_spec())
                } else {
                    lookup_table(old(self).entries(), n)
                }),
    {
        let ghost entries0 = self.tables@;
        let n = self.tables.len();
        let mut i: usize = 0;
        while i < n
            invariant
                0 <= i <= n,
                n == self.tables@.len(),
                self.tables@ == entries0,
                entries0 == old(self).entries(),
                forall|j: int| 0 <= j < i ==> (#[trigger] self.tables@[j]).0@ != name@,
            decreases n - i,
        {
            if str_eq(self.tables[i].0.as_str(), name.as_str()) {
                self.tables.remove(i);
                self.tables.insert(i, (name, source));
                proof {
                    assert(self.tables@ =~= entries0.update(i as int, self.tables@[i as int]));
                    assert(self.tables@[i as int] == (name, source));
                    assert(self.tables@[i as int].0@ == name@);
                    assert forall|q: Seq<char>|
                        #[trigger] lookup_table(self.entries(), q) == (if q == name@ {
                            Some(source.schema_spec())
                        } else {
                            lookup_table(entries0, q)
                        }) by {
                        lemma_lookup_table_update(entries0, i as int, self.tables@[i as int], q);
                        assert(self.entries() == entries0.update(i as int, self.tables@[i as int]));
                        assert(self.tables@[i as int].1 == source);
                    }
                }
                return ;
            }
            i += 1;
        }
        self.tables.push((name, source));
        proof {
            assert forall|q: Seq<char>|
                #[trigger] lookup_table(self.entries(), q) == (if q == name@ {
                    Some(source.schema_spec())
                } else {
                    lookup_table(entries0, q)
                }) by {
                lemma_lookup_table_push(entries0, self.tables@[n as int], q);
                assert(self.entries() == entries0.push(self.tables@[n as int]));
                assert(self.tables@[n as int] == (name, source));
            }
        }
    }

    /// The data source registered under a name, if any.
    pub fn get_source(&self, table_name: &str) -> (r: Option<&CsvDataSource>)
        ensures
            match r {
                Some(src) => lookup_table(self.entries(), table_name@) == Some(src.schema_spec()),
                None => lookup_table(self.entries(), table_name@) is None,
            },
    {
        let n = self.tables.len();
        let mut i: usize = 0;
        while i < n
            invariant
                0 <= i <= n,
                n == self.tables@.len(),
                forall|j: int| 0 <= j < i ==> (#[trigger] self.tables@[j]).0@ != table_name@,
            decreases n - i,
        {
            if str_eq(self.tables[i].0.as_str(), table_name) {
                proof {
                    lemma_lookup_table_skip(self.tables@, table_name@, i as int);
                    assert(self.tables@.skip(i as int)[0] == self.tables@[i as int]);
                }
                return Some(&self.tables[i].1);
            }
            i += 1;
        }
        proof {
            lemma_lookup_table_skip(self.tables@, table_name@, n as int);
            assert(self.tables@.skip(n as int) =~= Seq::<(String, CsvDataSource)>::empty());
        }
        None
    }

    /// The schema of the table registered under a name, if any.
    pub fn get_schema(&self, table_name: &str) -> (r: Option<&Schema>)
        ensures
            match r {
                Some(s) => lookup_table(self.entries(), table_name@) == Some(s@),
                None => lookup_table(self.entries(), table_name@) is None,
            },
    {
        match self.get_source(table_name) {
            Some(source) => Some(source.schema()),
            None => None,
        }
    }
}

/// The execution context: an owned catalog and conveniences for building
/// data frames over CSV files.
#[derive(Debug)]
pub struct ExecutionContext {
    catalog: Catalog,
}

impl ExecutionContext {
    /// The registered entries of the context's catalog.
    pub closed spec fn catalog_spec(&self) -> Seq<(String, CsvDataSource)> {
        self.catalog.entries()
    }

    pub fn new() -> (r: Self)
        ensures
            r.catalog_spec().len() == 0,
    {
        Self { catalog: Catalog::new() }
    }

    /// Builds a data frame whose plan scans the given CSV file with all
    /// columns selected, inferring the schema from the sampled leading
    /// lines that the caller read from the file.
    pub fn csv(&self, file_path: String, sample_lines: Vec<String>) -> (r: Result<
        DataFrame,
        QueryError,
    >)
        ensures
            match r {
                Ok(df) => has_csv_extension(file_path@) && (df.plan_spec()
                    matches LogicalPlan::Scan { path, schema, projection } && path@ == file_path@
                    && projection is None && schema_inferred_from(
                    schema@,
                    lines_view(sample_lines@),
                )),
                Err(e) => (!has_csv_extension(file_path@) || sample_lines@.len() == 0) && e matches
                    QueryError::DataSourceError { .. },
            },
    {
        let data_source = CsvDataSource::new(file_path.clone(), sample_lines)?;
        let schema = data_source.schema().clone();
        let plan = LogicalPlan::Scan { path: file_path, schema, projection: None };
        Ok(DataFrame { plan })
    }
}

/// A plan under fluent construction: each step wraps the current plan in
/// one more node.
#[derive(Debug)]
pub struct DataFrame {
    plan: LogicalPlan,
}

impl DataFrame {
    /// The plan built so far.
    pub closed spec fn plan_spec(&self) -> LogicalPlan {
        self.plan
    }

    /// Wraps the current plan in a projection node carrying the given
    /// expressions; nothing is validated here.
    pub fn project(self, columns: Vec<Expression>) -> (r: Self)
        ensures
            r.plan_spec() matches LogicalPlan::Projection { input, columns: c } && *input
                == self.plan_spec() && c@ == columns@,
    {
        Self { plan: LogicalPlan::Projection { input: Box::new(self.plan), columns } }
    }

    /// Wraps the current plan in a filter node carrying the given
    /// predicate; nothing is validated here.
    pub fn filter(self, predicate: Expression) -> (r: Self)
        ensures
            r.plan_spec() matches LogicalPlan::Filter { input, predicate: p } && *input
                == self.plan_spec() && p == predicate,
    {
        Self { plan: LogicalPlan::Filter { input: Box::new(self.plan), predicate } }
    }

    /// The schema the plan outputs. Every projected expression must have
    /// a type; a projection that was never validated can carry one that
    /// does not.
    pub fn schema(&self) -> (r: Schema)
        requires
            plan_well_typed(self.plan_spec()),
        ensures
            r@.map_values(|f: Field| field_desc(f)) == plan_output(self.plan_spec()),
    {
        plan_schema(&self.plan)
    }

    /// A structurally equivalent copy of the plan built so far.
    pub fn plan(&self) -> (r: LogicalPlan)
        ensures
            plan_equiv(r, self.plan_spec()),
    {
        self.plan.clone()
    }
}

/// The output schema of a plan, one always-nullable field per projected
/// expression; a column keeps its name, other expression shapes get a
/// fixed label.
fn plan_schema(p: &LogicalPlan) -> (r: Schema)
    requires
        plan_well_typed(*p),
    ensures
        r@.map_values(|f: Field| field_desc(f)) == plan_output(*p),
    decreases *p,
{
    match p {
        LogicalPlan::Scan { schema, .. } => {
            let s = schema.clone();
            proof {
                assert(s@.map_values(|f: Field| field_desc(f)) =~= schema@.map_values(
                    |f: Field| field_desc(f),
                ));
            }
            s
        },
        LogicalPlan::Filter { input, .. } => plan_schema(input),
        LogicalPlan::Projection { input, columns } => {
            let input_schema = plan_schema(input);
            let n = columns.len();
            let mut fields: Vec<Field> = Vec::new();
            let mut i: usize = 0;
            while i < n
                invariant
                    0 <= i <= n,
                    n == columns@.len(),
                    plan_well_typed(*p),
                    *p matches LogicalPlan::Projection { columns: cs, .. } && cs@ == columns@,
                    fields@.len() == i,
                    forall|j: int|
                        0 <= j < i ==> field_desc(#[trigger] fields@[j]) == (
                        projected_name(columns@[j]),
                        match expr_type(columns@[j]) {
                            Some(t) => t,
                            None => DataType::String,
                        },
                        true,
                        ),
                decreases n - i,
            {
                proof {
                    assert(expr_type(columns@[i as int]) is Some);
                }
                let data_type = match columns[i].get_data_type(&input_schema) {
                    Ok(t) => t,
                    Err(_) => {
                        proof {
                            assert(false);
                        }
                        DataType::String
                    },
                };
                let name: String = match &columns[i] {
                    Expression::Column { name, .. } => name.clone(),
                    Expression::Literal(_) => String::from_str("literal"),
                    Expression::Binary { .. } => String::from_str("binary"),
                    Expression::Unary { .. } => String::from_str("unary"),
                };
                fields.push(Field { name, field_type: data_type, is_nullable: true });
                i += 1;
            }
            let r = Schema::new(fields);
            proof {
                assert(r@.map_values(|f: Field| field_desc(f)) =~= plan_output(*p));
            }
            r
        },
    }
}

/// Whether every requested name resolves against the fields.
pub open spec fn resolves_all(fields: Seq<Field>, names: Seq<Seq<char>>) -> bool {
    forall|i: int| 0 <= i < names.len() ==> lookup_field(fields, #[trigger] names[i]) is Some
}

/// The first requested name that does not resolve, or the number of
/// names when all do.
pub open spec fn first_unresolved(fields: Seq<Field>, names: Seq<Seq<char>>) -> int
    decreases names.len(),
{
    if names.len() == 0 {
        0
    } else if lookup_field(fields, names[0]) is None {
        0
    } else {
        1 + first_unresolved(fields, names.drop_first())
    }
}

proof fn lemma_first_unresolved_unique(fields: Seq<Field>, names: Seq<Seq<char>>, k: int)
    requires
        0 <= k <= names.len(),
        forall|i: int| 0 <= i < k ==> lookup_field(fields, #[trigger] names[i]) is Some,
        k < names.len() ==> lookup_field(fields, names[k]) is None,
    ensures
        first_unresolved(fields, names) == k,
    decreases names.len(),
{
    if names.len() == 0 {
    } else if lookup_field(fields, names[0]) is None {
        assert(k == 0);
    } else {
        assert(k > 0);
        let t = names.drop_first();
        assert(forall|i: int|
            0 <= i < k - 1 ==> t[i] == names[i + 1] && lookup_field(fields, #[trigger] t[i]) is Some);
        lemma_first_unresolved_unique(fields, t, k - 1);
    }
}

/// What projecting `names` over `fields` produces: one column expression
/// and one always-nullable output field per name, both carrying the
/// resolved field's name and type.
pub open spec fn projection_result(
    fields: Seq<Field>,
    names: Seq<Seq<char>>,
    exprs: Seq<Expression>,
    out_fields: Seq<Field>,
) -> bool {
    exprs.len() == names.len() && out_fields.len() == names.len() && forall|i: int|
        0 <= i < names.len() ==> (lookup_field(fields, #[trigger] names[i]) matches Some(f) && (
        exprs[i] matches Expression::Column { name, data_type } && name@ == f.name@ && data_type
            == f.field_type) && out_fields[i].name@ == f.name@ && out_fields[i].field_type
            == f.field_type && out_fields[i].is_nullable)
}

/// A fluent, validating plan constructor over a catalog: scan first,
/// then any number of filters and projections, then build. Every step
/// but the first requires a current plan.
#[derive(Debug)]
pub struct PlanBuilder<'a> {
    catalog: &'a Catalog,
    current_plan: Option<LogicalPlan>,
    current_schema: Schema,
}

impl<'a> PlanBuilder<'a> {
    /// The entries of the catalog the builder resolves tables against.
    pub closed spec fn catalog_spec(&self) -> Seq<(String, CsvDataSource)> {
        self.catalog.entries()
    }

    /// The plan built so far; absent before the first scan.
    pub closed spec fn plan_spec(&self) -> Option<LogicalPlan> {
        self.current_plan
    }

    /// The schema of the plan built so far; empty before the first scan.
    pub closed spec fn schema_spec(&self) -> Seq<Field> {
        self.current_schema@
    }

    pub fn new(catalog: &'a Catalog) -> (r: Self)
        ensures
            r.catalog_spec() == catalog.entries(),
            r.plan_spec() is None,
            r.schema_spec().len() == 0,
    {
        Self { catalog, current_plan: None, current_schema: Schema::new(Vec::new()) }
    }

    /// Starts the plan with a scan of a registered table, selecting every
    /// field by name (the full projection), and makes the table's schema
    /// current. Fails exactly when the table is not in the catalog.
    pub fn scan(self, table_name: &str) -> (r: Result<PlanBuilder<'a>, QueryError>)
        ensures
            match r {
                Ok(b) => lookup_table(self.catalog_spec(), table_name@) matches Some(fields) && {
                    &&& b.catalog_spec() == self.catalog_spec()
                    &&& b.schema_spec() == fields
                    &&& b.plan_spec() matches Some(p) && (p matches LogicalPlan::Scan {
                        path,
                        schema,
                        projection,
                    } && path@ == table_name@ && schema@ == fields && (projection matches Some(
                        names,
                    ) && crate::text::string_views(names@) == field_names(fields)))
                },
                Err(e) => lookup_table(self.catalog_spec(), table_name@) is None && (e matches
                    QueryError::ValidationError { message } && message@ == "Table not found"@),
            },
    {
        match self.catalog.get_source(table_name) {
            Some(source) => {
                let schema = source.schema().clone();
                let n = schema.fields.len();
                let mut names: Vec<String> = Vec::new();
                let mut i: usize = 0;
                while i < n
                    invariant
                        0 <= i <= n,
                        n == schema.fields@.len(),
                        names@.len() == i,
                        forall|j: int| 0 <= j < i ==> (#[trigger] names@[j])@
                            == schema.fields@[j].name@,
                    decreases n - i,
                {
                    names.push(schema.fields[i].name.clone());
                    i += 1;
                }
                proof {
                    assert(crate::text::string_views(names@) =~= field_names(schema@));
                }
                let schema_for_plan = schema.clone();
                let current_plan = LogicalPlan::Scan {
                    path: table_name.to_owned(),
                    schema: schema_for_plan,
                    projection: Some(names),
                };
                Ok(
                    PlanBuilder {
                        catalog: self.catalog,
                        current_plan: Some(current_plan),
                        current_schema: schema,
                    },
                )
            },
            None => Err(QueryError::ValidationError { message: String::from_str("Table not found") }),
        }
    }

    /// Wraps the current plan in a filter node. Fails exactly when no
    /// plan was scanned yet, the predicate is invalid against the current
    /// schema, or the predicate is a bare column or literal rather than
    /// an operator application. The schema is unchanged: filtering does
    /// not alter columns.
    pub fn filter(self, expression: Expression) -> (r: Result<PlanBuilder<'a>, QueryError>)
        ensures
            match r {
                Ok(b) => self.plan_spec() matches Some(p) && {
                    &&& expr_valid(expression, self.schema_spec())
                    &&& (expression matches Expression::Binary { .. } || expression matches
                        Expression::Unary { .. })
                    &&& b.catalog_spec() == self.catalog_spec()
                    &&& b.schema_spec() == self.schema_spec()
                    &&& b.plan_spec() matches Some(np) && (np matches LogicalPlan::Filter {
                        input,
                        predicate,
                    } && *input == p && predicate == expression)
                },
                Err(e) => {
                    &&& (self.plan_spec() is None || !expr_valid(expression, self.schema_spec())
                        || !(expression matches Expression::Binary { .. } || expression matches
                        Expression::Unary { .. }))
                    &&& e matches QueryError::ValidationError { message } && {
                        &&& (self.plan_spec() is None ==> message@
                            == "Filter did not receive current plan"@)
                        &&& (self.plan_spec() is Some && expr_valid(expression, self.schema_spec())
                            ==> message@ == "Expression Type not supported for filtering"@)
                    }
                },
            },
    {
        let input = match self.current_plan {
            Some(p) => p,
            None => {
                return Err(
                    QueryError::ValidationError {
                        message: String::from_str("Filter did not receive current plan"),
                    },
                );
            },
        };
        match expression.is_valid(&self.current_schema) {
            Ok(_) => {},
            Err(err) => {
                return Err(QueryError::ValidationError { message: err });
            },
        }
        if !(matches!(expression, Expression::Binary { .. } | Expression::Unary { .. })) {
            return Err(
                QueryError::ValidationError {
                    message: String::from_str("Expression Type not supported for filtering"),
                },
            );
        }
        let plan = LogicalPlan::Filter { input: Box::new(input), predicate: expression };
        Ok(
            PlanBuilder {
                catalog: self.catalog,
                current_plan: Some(plan),
                current_schema: self.current_schema,
            },
        )
    }

    /// Wraps the current plan in a projection node, one column expression
    /// per requested name resolved against the current schema, and makes
    /// the projected fields (each still nullable) the current schema.
    /// Fails exactly when no plan was scanned yet or a requested name
    /// does not resolve.
    pub fn project(self, columns: Vec<String>) -> (r: Result<PlanBuilder<'a>, QueryError>)
        ensures
            match r {
                Ok(b) => self.plan_spec() matches Some(p) && {
                    &&& resolves_all(self.schema_spec(), crate::text::string_views(columns@))
                    &&& b.catalog_spec() == self.catalog_spec()
                    &&& b.plan_spec() matches Some(np) && (np matches LogicalPlan::Projection {
                        input,
                        columns: exprs,
                    } && *input == p && projection_result(
                        self.schema_spec(),
                        crate::text::string_views(columns@),
                        exprs@,
                        b.schema_spec(),
                    ))
                },
                Err(e) => {
                    &&& (self.plan_spec() is None || !resolves_all(
                        self.schema_spec(),
                        crate::text::string_views(columns@),
                    ))
                    &&& e matches QueryError::ValidationError { message } && {
                        &&& (self.plan_spec() is None ==> message@
                            == "Projection did not receive current plan"@)
                        &&& (self.plan_spec() is Some ==> {
                            let names = crate::text::string_views(columns@);
                            let k = first_unresolved(self.schema_spec(), names);
                            0 <= k < names.len() && message@ == "column "@ + names[k]
                                + " does not exist in the schema"@
                        })
                    }
                },
            },
    {
        let input = match self.current_plan {
            Some(p) => p,
            None => {
                return Err(
                    QueryError::ValidationError {
                        message: String::from_str("Projection did not receive current plan"),
                    },
                );
            },
        };
        let n = columns.len();
        let mut exprs: Vec<Expression> = Vec::new();
        let mut new_fields: Vec<Field> = Vec::new();
        let mut i: usize = 0;
        while i < n
            invariant
                0 <= i <= n,
                n == columns@.len(),
                self.plan_spec() is Some,
                exprs@.len() == i,
                new_fields@.len() == i,
                forall|j: int|
                    0 <= j < i ==> lookup_field(
                        self.current_schema@,
                        (#[trigger] columns@[j])@,
                    ) is Some,
                forall|j: int|
                    0 <= j < i ==> (lookup_field(self.current_schema@, (#[trigger] columns@[j])@)
                        matches Some(f) && (exprs@[j] matches Expression::Column {
                        name,
                        data_type,
                    } && name@ == f.name@ && data_type == f.field_type) && new_fields@[j].name@
                        == f.name@ && new_fields@[j].field_type == f.field_type
                        && new_fields@[j].is_nullable),
            decreases n - i,
        {
            match self.current_schema.column_exists(columns[i].as_str()) {
                Ok(field) => {
                    exprs.push(
                        Expression::Column { name: field.name.clone(), data_type: field.field_type },
                    );
                    new_fields.push(
                        Field {
                            name: field.name.clone(),
                            field_type: field.field_type,
                            is_nullable: true,
                        },
                    );
                },
                Err(err) => {
                    proof {
                        let names = crate::text::string_views(columns@);
                        assert(names[i as int] == columns@[i as int]@);
                        assert(lookup_field(self.current_schema@, names[i as int]) is None);
                        assert(!resolves_all(self.current_schema@, names));
                        assert(forall|j: int|
                            0 <= j < i ==> names[j] == (#[trigger] columns@[j])@ && lookup_field(
                                self.current_schema@,
                                names[j],
                            ) is Some);
                        lemma_first_unresolved_unique(self.current_schema@, names, i as int);
                    }
                    return Err(QueryError::ValidationError { message: err });
                },
            }
            i += 1;
        }
        let plan = LogicalPlan::Projection { input: Box::new(input), columns: exprs };
        Ok(
            PlanBuilder {
                catalog: self.catalog,
                current_plan: Some(plan),
                current_schema: Schema::new(new_fields),
            },
        )
    }

    /// Surrenders the built plan. Fails exactly when nothing was built.
    pub fn build(self) -> (r: Result<LogicalPlan, QueryError>)
        ensures
            match r {
                Ok(p) => self.plan_spec() == Some(p),
                Err(e) => self.plan_spec() is None && (e matches QueryError::DataSourceError {
                    message,
                } && message@ == "Failed to build logical plan"@),
            },
    {
        match self.current_plan {
            Some(p) => Ok(p),
            None => Err(
                QueryError::DataSourceError {
                    message: String::from_str("Failed to build logical plan"),
                },
            ),
        }
    }
}

} // verus!

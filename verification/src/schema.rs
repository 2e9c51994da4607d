use vstd::prelude::*;
use vstd::string::StringExecFns;

use crate::datatypes::DataType;
use crate::errors::QueryError;
use crate::scalar::{scalar_tag, ColumnVector};
use crate::text::str_eq;

verus! {

/// One column's metadata: its name, its type and whether empty cells are
/// admitted as NULL.
#[derive(Debug, PartialEq, Eq, PartialOrd, Ord)]
pub struct Field {
    pub name: String,
    pub field_type: DataType,
    pub is_nullable: bool,
}

impl Clone for Field {
    /// A clone is equal to the original.
    fn clone(&self) -> (r: Self)
        ensures
            r == *self,
    {
        Field { name: self.name.clone(), field_type: self.field_type, is_nullable: self.is_nullable }
    }
}

/// Ordered column metadata; insertion order defines column order. Names
/// are not required to be unique: lookups resolve the first match.
#[derive(Debug)]
pub struct Schema {
    pub fields: Vec<Field>,
}

impl View for Schema {
    type V = Seq<Field>;

    /// A schema is its ordered sequence of fields.
    open spec fn view(&self) -> Seq<Field> {
        self.fields@
    }
}

impl Clone for Schema {
    /// A clone carries the same fields in the same order.
    fn clone(&self) -> (r: Self)
        ensures
            r@ == self@,
    {
        let fields = self.fields.clone();
        proof {
            assert(fields@ =~= self.fields@);
        }
        Schema { fields }
    }
}

/// The first field named `name`, searching in column order.
pub open spec fn lookup_field(fields: Seq<Field>, name: Seq<char>) -> Option<Field>
    decreases fields.len(),
{
    if fields.len() == 0 {
        None
    } else if fields[0].name@ == name {
        Some(fields[0])
    } else {
        lookup_field(fields.drop_first(), name)
    }
}

/// Skipping fields whose names all miss does not change the lookup.
pub proof fn lemma_lookup_skip(fields: Seq<Field>, name: Seq<char>, k: int)
    requires
        0 <= k <= fields.len(),
        forall|j: int| 0 <= j < k ==> #[trigger] fields[j].name@ != name,
    ensures
        lookup_field(fields, name) == lookup_field(fields.skip(k), name),
    decreases k,
{
    if k > 0 {
        assert(fields.len() > 0);
        let t = fields.drop_first();
        assert(forall|j: int| 0 <= j < k - 1 ==> #[trigger] t[j].name@ != name);
        lemma_lookup_skip(t, name, k - 1);
        assert(t.skip(k - 1) =~= fields.skip(k));
    } else {
        assert(fields.skip(0) =~= fields);
    }
}

impl Schema {
    pub fn new(fields: Vec<Field>) -> (r: Self)
        ensures
            r.fields == fields,
    {
        Self { fields }
    }

    /// Resolves a column by exact name, returning the first field with
    /// that name, or an error naming the column when the schema has none.
    pub fn column_exists(&self, column_name: &str) -> (r: Result<&Field, String>)
        ensures
            match r {
                Ok(f) => lookup_field(self.fields@, column_name@) == Some(*f),
                Err(m) => lookup_field(self.fields@, column_name@) is None && m@ == "column "@
                    + column_name@ + " does not exist in the schema"@,
            },
    {
        let n = self.fields.len();
        let mut i: usize = 0;
        while i < n
            invariant
                0 <= i <= n,
                n == self.fields@.len(),
                forall|j: int| 0 <= j < i ==> #[trigger] self.fields@[j].name@ != column_name@,
            decreases n - i,
        {
            if str_eq(self.fields[i].name.as_str(), column_name) {
                proof {
                    lemma_lookup_skip(self.fields@, column_name@, i as int);
                    assert(self.fields@.skip(i as int)[0] == self.fields@[i as int]);
                }
                return Ok(&self.fields[i]);
            }
            i += 1;
        }
        proof {
            lemma_lookup_skip(self.fields@, column_name@, n as int);
            assert(self.fields@.skip(n as int) =~= Seq::<Field>::empty());
        }
        let mut msg = String::from_str("column ");
        msg.append(column_name);
        msg.append(" does not exist in the schema");
        Err(msg)
    }
}

/// A fixed-shape columnar chunk of data conforming to a schema.
#[derive(Debug)]
pub struct RecordBatch {
    pub schema: Schema,
    pub columns: Vec<ColumnVector>,
}

impl RecordBatch {
    /// The number of rows; every column of a well-formed batch has this
    /// length.
    pub open spec fn height(&self) -> nat {
        if self.columns@.len() == 0 {
            0
        } else {
            self.columns@[0].values@.len()
        }
    }

    /// The shape invariant: one column per schema field, and all columns
    /// of identical length. A batch with zero columns satisfies it
    /// trivially.
    pub open spec fn well_formed(&self) -> bool {
        self.columns@.len() == self.schema.fields@.len() && forall|i: int|
            0 <= i < self.columns@.len() ==> (#[trigger] self.columns@[i]).values@.len()
                == self.height()
    }

    /// Every cell's tag matches its column's declared type.
    pub open spec fn typed(&self) -> bool {
        forall|i: int, j: int|
            0 <= i < self.columns@.len() && 0 <= j < self.columns@[i].values@.len()
                ==> scalar_tag(#[trigger] self.columns@[i].values@[j])
                == self.schema.fields@[i].field_type
    }

    /// Checks the shape invariant at construction: the column count must
    /// match the schema and every column must have the height of the
    /// first, each violation reported with its counts.
    pub fn new(schema: Schema, columns: Vec<ColumnVector>) -> (r: Result<Self, QueryError>)
        ensures
            match r {
                Ok(b) => b.schema == schema && b.columns == columns && b.well_formed(),
                Err(QueryError::SchemaCountMismatch { expected, actual }) => expected
                    == schema.fields@.len() && actual == columns@.len() && expected != actual,
                Err(QueryError::ColumnLengthMismatch {
                    column_index,
                    expected_length,
                    actual_length,
                }) => schema.fields@.len() == columns@.len() && 0 <= column_index < columns@.len()
                    && expected_length == columns@[0].values@.len() && actual_length
                    == columns@[column_index as int].values@.len() && expected_length
                    != actual_length && forall|j: int|
                    0 <= j < column_index ==> (#[trigger] columns@[j]).values@.len()
                        == expected_length,
                Err(_) => false,
            },
    {
        if schema.fields.len() != columns.len() {
            return Err(QueryError::SchemaCountMismatch {
                expected: schema.fields.len(),
                actual: columns.len(),
            });
        }
        if columns.len() > 0 {
            let height = columns[0].values.len();
            let n = columns.len();
            let mut index: usize = 0;
            while index < n
                invariant
                    0 <= index <= n,
                    n == columns@.len(),
                    schema.fields@.len() == columns@.len(),
                    height == columns@[0].values@.len(),
                    forall|j: int|
                        0 <= j < index ==> (#[trigger] columns@[j]).values@.len() == height,
                decreases n - index,
            {
                if columns[index].values.len() != height {
                    return Err(QueryError::ColumnLengthMismatch {
                        column_index: index,
                        expected_length: height,
                        actual_length: columns[index].values.len(),
                    });
                }
                index += 1;
            }
        }
        Ok(Self { schema, columns })
    }
}

} // verus!

use vstd::prelude::*;
use vstd::string::{StrSliceExecFns, StringExecFns};

use crate::datatypes::DataType;
use crate::errors::QueryError;
use crate::numbers::{
    i32_string_val, is_bool_token_ci, is_f64_token, is_f64_string, is_i32_string, parse_i32,
};
use crate::scalar::{scalar_is_null, scalar_tag, ColumnVector, ScalarValue};
use crate::schema::{Field, RecordBatch, Schema};
use crate::text::{
    ci_eq, last_index_of, lemma_last_index_of, rfind_char, split_commas, split_commas_str, trim,
    trim_spec,
};

verus! {

/// The views of a sequence of owned lines.
pub open spec fn lines_view(lines: Seq<String>) -> Seq<Seq<char>> {
    crate::text::string_views(lines)
}

/// Whether a path's file name carries the extension `csv`, compared
/// without regard to ASCII case: the portion of the final path component
/// after its last dot, provided that dot is not the component's first
/// character.
pub open spec fn has_csv_extension(p: Seq<char>) -> bool {
    let fname = p.skip(last_index_of(p, '/') + 1);
    let d = last_index_of(fname, '.');
    d > 0 && ci_eq(fname.skip(d + 1), "csv"@)
}

/// A path that names a CSV file.
///
/// Only the textual check lives here; that the path names an existing
/// regular file is checked by the caller against the file system before
/// the data source is built.
#[derive(Debug)]
pub struct ValidCsvPath(String);

impl View for ValidCsvPath {
    type V = Seq<char>;

    /// A validated path is its text.
    closed spec fn view(&self) -> Seq<char> {
        self.0@
    }
}

impl ValidCsvPath {
    /// Accepts exactly the paths whose file name has the extension `csv`,
    /// in any ASCII case.
    pub fn new(path: &str) -> (r: Result<Self, QueryError>)
        ensures
            match r {
                Ok(p) => has_csv_extension(path@) && p@ == path@,
                Err(e) => !has_csv_extension(path@) && (e matches QueryError::DataSourceError {
                    message,
                } && message@ == "Not a CSV file"@),
            },
    {
        let n = path.unicode_len();
        proof {
            lemma_last_index_of(path@, '/');
        }
        let start: usize = match rfind_char(path, '/') {
            Some(i) => i + 1,
            None => 0,
        };
        let fname = path.substring_char(start, n);
        proof {
            assert(fname@ =~= path@.skip(last_index_of(path@, '/') + 1));
        }
        let m = fname.unicode_len();
        let accepted: bool = match rfind_char(fname, '.') {
            Some(d) => {
                proof {
                    lemma_last_index_of(fname@, '.');
                }
                if d > 0 {
                    let ext = fname.substring_char(d + 1, m);
                    proof {
                        assert(ext@ =~= fname@.skip(last_index_of(fname@, '.') + 1));
                    }
                    crate::text::str_eq_ci(ext, "csv")
                } else {
                    false
                }
            },
            None => false,
        };
        if accepted {
            Ok(ValidCsvPath(path.to_owned()))
        } else {
            Err(QueryError::DataSourceError { message: String::from_str("Not a CSV file") })
        }
    }

    /// The validated path's text.
    pub fn as_str(&self) -> (r: &str)
        ensures
            r@ == self@,
    {
        self.0.as_str()
    }
}

/// How many leading lines schema inference samples: one header line and
/// at most one hundred data lines.
pub const SAMPLE_LINES: usize = 101;

/// The end (exclusive) of the sampled data rows in a sequence of lines
/// whose first line is the header.
pub open spec fn sample_end(lines: Seq<Seq<char>>) -> int {
    if lines.len() <= 101 {
        lines.len() as int
    } else {
        101
    }
}

/// The trimmed cell of a trimmed, comma-split line; a column beyond the
/// line's last cell reads as empty.
pub open spec fn sample_cell(lines: Seq<Seq<char>>, row: int, col: int) -> Seq<char> {
    let toks = split_commas(trim_spec(lines[row]));
    if 0 <= col < toks.len() {
        trim_spec(toks[col])
    } else {
        Seq::empty()
    }
}

pub open spec fn col_all_empty(lines: Seq<Seq<char>>, col: int) -> bool {
    forall|r: int| 1 <= r < sample_end(lines) ==> sample_cell(lines, r, col).len() == 0
}

pub open spec fn col_all_int(lines: Seq<Seq<char>>, col: int) -> bool {
    forall|r: int|
        1 <= r < sample_end(lines) ==> (sample_cell(lines, r, col).len() == 0 || is_i32_string(
            sample_cell(lines, r, col),
        ))
}

pub open spec fn col_all_float(lines: Seq<Seq<char>>, col: int) -> bool {
    forall|r: int|
        1 <= r < sample_end(lines) ==> (sample_cell(lines, r, col).len() == 0 || is_f64_string(
            sample_cell(lines, r, col),
        ))
}

pub open spec fn col_all_bool(lines: Seq<Seq<char>>, col: int) -> bool {
    forall|r: int|
        1 <= r < sample_end(lines) ==> (sample_cell(lines, r, col).len() == 0 || ci_eq(
            sample_cell(lines, r, col),
            "true"@,
        ) || ci_eq(sample_cell(lines, r, col), "false"@))
}

/// The type detection rule for one column: a column whose sampled cells
/// are all empty stays `String`; otherwise the first of `Int32`,
/// `Float64`, `Bool` whose syntax every non-empty sampled cell satisfies,
/// falling back to `String`.
pub open spec fn detected_type(lines: Seq<Seq<char>>, col: int) -> DataType {
    if col_all_empty(lines, col) {
        DataType::String
    } else if col_all_int(lines, col) {
        DataType::Int32
    } else if col_all_float(lines, col) {
        DataType::Float64
    } else if col_all_bool(lines, col) {
        DataType::Bool
    } else {
        DataType::String
    }
}

/// Reads one sampled cell: the `col`th trimmed token of the trimmed
/// `row`th line, or the empty string when the line is shorter.
fn sample_cell_exec(lines: &Vec<String>, row: usize, col: usize) -> (r: String)
    requires
        row < lines@.len(),
    ensures
        r@ == sample_cell(lines_view(lines@), row as int, col as int),
{
    let trimmed = trim(lines[row].as_str());
    let toks = split_commas_str(trimmed);
    proof {
        assert(lines_view(lines@)[row as int] == lines@[row as int]@);
        assert(toks@.map_values(|t: String| t@) == split_commas(trim_spec(lines@[row as int]@)));
    }
    if col < toks.len() {
        let t = trim(toks[col].as_str());
        proof {
            assert(toks@.map_values(|t: String| t@)[col as int] == toks@[col as int]@);
        }
        t.to_owned()
    } else {
        proof {
            assert(Seq::<char>::empty() =~= sample_cell(
                lines_view(lines@),
                row as int,
                col as int,
            ));
        }
        String::new()
    }
}

/// One data source with its schema, inferred by sampling.
#[derive(Debug)]
pub struct CsvDataSource {
    file_path: ValidCsvPath,
    original_schema: Schema,
}

impl CsvDataSource {
    /// The path the data source reads from.
    pub closed spec fn path_spec(&self) -> Seq<char> {
        self.file_path@
    }

    /// The inferred schema's fields.
    pub closed spec fn schema_spec(&self) -> Seq<Field> {
        self.original_schema@
    }

    /// Runs type detection over the sampled data lines (the lines after
    /// the first), one verdict per requested column.
    pub fn detect_types(lines: &Vec<String>, columns: usize) -> (r: Vec<DataType>)
        ensures
            r@.len() == columns,
            forall|c: int| 0 <= c < columns ==> r@[c] == detected_type(lines_view(lines@), c),
    {
        let ghost lv = lines_view(lines@);
        let end: usize = if lines.len() <= SAMPLE_LINES {
            lines.len()
        } else {
            SAMPLE_LINES
        };
        proof {
            assert(lines_view(lines@).len() == lines@.len());
            assert(end == sample_end(lv));
        }
        let mut types: Vec<DataType> = Vec::new();
        let mut col: usize = 0;
        while col < columns
            invariant
                0 <= col <= columns,
                types@.len() == col,
                lv == lines_view(lines@),
                lv.len() == lines@.len(),
                end == sample_end(lv),
                end <= lines@.len(),
                forall|c: int| 0 <= c < col ==> types@[c] == detected_type(lv, c),
            decreases columns - col,
        {
            let mut all_empty = true;
            let mut all_int = true;
            let mut all_float = true;
            let mut all_bool = true;
            let mut row: usize = 1;
            while row < end
                invariant
                    1 <= row,
                    row <= end || row == 1,
                    lv == lines_view(lines@),
                    lv.len() == lines@.len(),
                    end == sample_end(lv),
                    end <= lines@.len(),
                    all_empty == (forall|rr: int|
                        1 <= rr < row ==> sample_cell(lv, rr, col as int).len() == 0),
                    all_int == (forall|rr: int|
                        1 <= rr < row ==> (sample_cell(lv, rr, col as int).len() == 0
                            || is_i32_string(sample_cell(lv, rr, col as int)))),
                    all_float == (forall|rr: int|
                        1 <= rr < row ==> (sample_cell(lv, rr, col as int).len() == 0
                            || is_f64_string(sample_cell(lv, rr, col as int)))),
                    all_bool == (forall|rr: int|
                        1 <= rr < row ==> (sample_cell(lv, rr, col as int).len() == 0 || ci_eq(
                            sample_cell(lv, rr, col as int),
                            "true"@,
                        ) || ci_eq(sample_cell(lv, rr, col as int), "false"@))),
                decreases end - row,
            {
                let cell = sample_cell_exec(lines, row, col);
                if cell.as_str().unicode_len() > 0 {
                    all_empty = false;
                    if parse_i32(cell.as_str()).is_none() {
                        all_int = false;
                    }
                    if !is_f64_token(cell.as_str()) {
                        all_float = false;
                    }
                    if !is_bool_token_ci(cell.as_str()) {
                        all_bool = false;
                    }
                }
                row += 1;
            }
            let t = if all_empty {
                DataType::String
            } else if all_int {
                DataType::Int32
            } else if all_float {
                DataType::Float64
            } else if all_bool {
                DataType::Bool
            } else {
                DataType::String
            };
            proof {
                assert(all_empty == col_all_empty(lv, col as int));
                assert(all_int == col_all_int(lv, col as int));
                assert(all_float == col_all_float(lv, col as int));
                assert(all_bool == col_all_bool(lv, col as int));
            }
            types.push(t);
            col += 1;
        }
        types
    }
}

/// The tokens of the header line, white space around the line removed.
pub open spec fn header_tokens(lines: Seq<Seq<char>>) -> Seq<Seq<char>> {
    split_commas(trim_spec(lines[0]))
}

/// The schema that sampling infers from leading lines: one field per
/// header token, named by the trimmed token, always nullable, typed by
/// detection when at least one data line was sampled and `String`
/// otherwise.
pub open spec fn schema_inferred_from(fields: Seq<Field>, lines: Seq<Seq<char>>) -> bool {
    lines.len() >= 1 && {
        let hdr = header_tokens(lines);
        fields.len() == hdr.len() && forall|i: int|
            0 <= i < fields.len() ==> (#[trigger] fields[i]).name@ == trim_spec(hdr[i])
                && fields[i].is_nullable && fields[i].field_type == (if lines.len() >= 2 {
                detected_type(lines, i)
            } else {
                DataType::String
            })
    }
}

impl CsvDataSource {
    /// Infers a schema from sampled leading lines: the first is the
    /// header; with fewer than two lines every field is `String`. The
    /// caller supplies at most the first hundred and one lines of the
    /// file; further lines do not change the verdict.
    pub fn infer_schema(lines: &Vec<String>) -> (r: Result<Vec<Field>, String>)
        ensures
            match r {
                Ok(fields) => schema_inferred_from(fields@, lines_view(lines@)),
                Err(m) => lines@.len() == 0 && m@ == "Failed to infer schema"@,
            },
    {
        let ghost lv = lines_view(lines@);
        if lines.len() == 0 {
            return Err(String::from_str("Failed to infer schema"));
        }
        let header = trim(lines[0].as_str());
        let toks = split_commas_str(header);
        proof {
            assert(lv[0] == lines@[0]@);
            assert(toks@.map_values(|t: String| t@) == header_tokens(lv));
        }
        let two = lines.len() >= 2;
        let types: Vec<DataType> = if two {
            Self::detect_types(lines, toks.len())
        } else {
            Vec::new()
        };
        let n = toks.len();
        let mut fields: Vec<Field> = Vec::new();
        let mut i: usize = 0;
        while i < n
            invariant
                0 <= i <= n,
                lv == lines_view(lines@),
                lv.len() == lines@.len(),
                lines@.len() >= 1,
                n == toks@.len(),
                toks@.map_values(|t: String| t@) == header_tokens(lv),
                two == (lines@.len() >= 2),
                two ==> types@.len() == n && forall|c: int|
                    0 <= c < n ==> types@[c] == detected_type(lv, c),
                fields@.len() == i,
                forall|j: int|
                    0 <= j < i ==> (#[trigger] fields@[j]).name@ == trim_spec(header_tokens(lv)[j])
                        && fields@[j].is_nullable && fields@[j].field_type == (if lines@.len()
                        >= 2 {
                        detected_type(lv, j)
                    } else {
                        DataType::String
                    }),
            decreases n - i,
        {
            let name = trim(toks[i].as_str()).to_owned();
            proof {
                assert(toks@.map_values(|t: String| t@)[i as int] == toks@[i as int]@);
            }
            let ft = if two {
                types[i]
            } else {
                DataType::String
            };
            fields.push(Field { name, field_type: ft, is_nullable: true });
            i += 1;
        }
        Ok(fields)
    }

    /// Builds a data source from a path and the sampled leading lines of
    /// the file it names. The path must carry the `csv` extension and the
    /// sample must hold at least the header line. The caller reads the
    /// lines and has already checked that the file exists.
    pub fn new(file_path: String, sample_lines: Vec<String>) -> (r: Result<Self, QueryError>)
        ensures
            match r {
                Ok(ds) => has_csv_extension(file_path@) && ds.path_spec() == file_path@
                    && schema_inferred_from(ds.schema_spec(), lines_view(sample_lines@)),
                Err(e) => (!has_csv_extension(file_path@) || sample_lines@.len() == 0) && e matches
                    QueryError::DataSourceError { message },
            },
    {
        let file_path = ValidCsvPath::new(file_path.as_str())?;
        match Self::infer_schema(&sample_lines) {
            Ok(fields) => Ok(Self { original_schema: Schema::new(fields), file_path }),
            Err(err) => Err(QueryError::DataSourceError { message: err }),
        }
    }

    /// The inferred schema.
    pub fn schema(&self) -> (r: &Schema)
        ensures
            r@ == self.schema_spec(),
    {
        &self.original_schema
    }

    /// The validated path.
    pub fn path(&self) -> (r: &str)
        ensures
            r@ == self.path_spec(),
    {
        self.file_path.as_str()
    }

    /// Begins a scan: a pull-based cursor state over this source's
    /// schema. The caller owns the file handle and feeds the state one
    /// header read and then one chunk of lines per pull.
    pub fn scan(&self) -> (s: CsvScanState)
        ensures
            s.schema_spec() == self.schema_spec(),
            !s.header_done(),
            !s.is_finished(),
    {
        CsvScanState::new(self.original_schema.clone())
    }
}

/// The message that a scan-time type mismatch reports for each type.
pub open spec fn type_mismatch_message(t: DataType) -> Seq<char> {
    match t {
        DataType::Int32 => "Item does not match the column type: Int32"@,
        DataType::Float64 => "Item does not match the column type: Float64"@,
        DataType::Bool => "Item does not match the column type: bool"@,
        DataType::String => Seq::empty(),
    }
}

/// Whether scanning accepts a trimmed cell for a field: an empty cell
/// needs a nullable field, and a non-empty cell must satisfy the syntax
/// of the field's declared type.
pub open spec fn cell_accepted(cell: Seq<char>, f: Field) -> bool {
    if cell.len() == 0 {
        f.is_nullable
    } else {
        match f.field_type {
            DataType::Int32 => is_i32_string(cell),
            DataType::Float64 => is_f64_string(cell),
            DataType::Bool => cell == "true"@ || cell == "false"@,
            DataType::String => true,
        }
    }
}

/// The scalar an accepted cell parses to: the NULL of the field's type
/// for an empty cell, and otherwise the typed value of the cell's text.
pub open spec fn cell_value_matches(cell: Seq<char>, f: Field, v: ScalarValue) -> bool {
    if cell.len() == 0 {
        scalar_tag(v) == f.field_type && scalar_is_null(v)
    } else {
        match f.field_type {
            DataType::Int32 => v matches ScalarValue::Int32(Some(x)) && x as int
                == i32_string_val(cell),
            DataType::Float64 => v matches ScalarValue::Float64(Some(t)) && t@ == cell,
            DataType::Bool => v matches ScalarValue::Bool(Some(b)) && b == (cell == "true"@),
            DataType::String => v matches ScalarValue::String(Some(t)) && t@ == cell,
        }
    }
}

/// Parses one trimmed cell against its field: an empty cell becomes the
/// NULL of the field's type when the field is nullable and is an error
/// otherwise; a non-empty cell must parse as the declared type.
pub fn parse_cell(cell: &str, field: &Field) -> (r: Result<ScalarValue, QueryError>)
    ensures
        match r {
            Ok(v) => cell_accepted(cell@, *field) && cell_value_matches(cell@, *field, v),
            Err(e) => !cell_accepted(cell@, *field) && (e matches QueryError::DataSourceError {
                message,
            } && message@ == cell_error_message(cell@, *field)),
        },
{
    if cell.unicode_len() == 0 {
        if field.is_nullable {
            let v = match field.field_type {
                DataType::Int32 => ScalarValue::Int32(None),
                DataType::Float64 => ScalarValue::Float64(None),
                DataType::Bool => ScalarValue::Bool(None),
                DataType::String => ScalarValue::String(None),
            };
            Ok(v)
        } else {
            Err(
                QueryError::DataSourceError {
                    message: String::from_str("null value in non-nullable field"),
                },
            )
        }
    } else {
        match field.field_type {
            DataType::Int32 => match parse_i32(cell) {
                Some(v) => Ok(ScalarValue::Int32(Some(v))),
                None => Err(
                    QueryError::DataSourceError {
                        message: String::from_str("Item does not match the column type: Int32"),
                    },
                ),
            },
            DataType::Float64 => {
                if is_f64_token(cell) {
                    Ok(ScalarValue::Float64(Some(cell.to_owned())))
                } else {
                    Err(
                        QueryError::DataSourceError {
                            message: String::from_str(
                                "Item does not match the column type: Float64",
                            ),
                        },
                    )
                }
            },
            DataType::Bool => {
                if crate::text::str_eq(cell, "true") {
                    Ok(ScalarValue::Bool(Some(true)))
                } else if crate::text::str_eq(cell, "false") {
                    Ok(ScalarValue::Bool(Some(false)))
                } else {
                    Err(
                        QueryError::DataSourceError {
                            message: String::from_str("Item does not match the column type: bool"),
                        },
                    )
                }
            },
            DataType::String => Ok(ScalarValue::String(Some(cell.to_owned()))),
        }
    }
}

/// The `i`th trimmed cell of a line: the line is trimmed, split on
/// commas, and the piece trimmed again.
pub open spec fn row_cell(line: Seq<char>, i: int) -> Seq<char> {
    trim_spec(split_commas(trim_spec(line))[i])
}

/// Whether a line parses under a schema: it has at least one cell per
/// field, and every cell is accepted by its field.
pub open spec fn row_ok(fields: Seq<Field>, line: Seq<char>) -> bool {
    let toks = split_commas(trim_spec(line));
    fields.len() <= toks.len() && forall|i: int|
        0 <= i < fields.len() ==> cell_accepted(row_cell(line, i), #[trigger] fields[i])
}

pub open spec fn lines_ok(fields: Seq<Field>, lines: Seq<Seq<char>>) -> bool {
    forall|r: int| 0 <= r < lines.len() ==> row_ok(fields, #[trigger] lines[r])
}

/// The message one rejected cell reports.
pub open spec fn cell_error_message(cell: Seq<char>, f: Field) -> Seq<char> {
    if cell.len() == 0 {
        "null value in non-nullable field"@
    } else {
        type_mismatch_message(f.field_type)
    }
}

/// The first row (in chunk order) that does not parse, or the number of
/// lines when all do.
pub open spec fn first_bad_row(fields: Seq<Field>, lines: Seq<Seq<char>>) -> int
    decreases lines.len(),
{
    if lines.len() == 0 {
        0
    } else if !row_ok(fields, lines[0]) {
        0
    } else {
        1 + first_bad_row(fields, lines.drop_first())
    }
}

proof fn lemma_first_bad_row_unique(fields: Seq<Field>, lines: Seq<Seq<char>>, k: int)
    requires
        0 <= k <= lines.len(),
        forall|r: int| 0 <= r < k ==> row_ok(fields, #[trigger] lines[r]),
        k < lines.len() ==> !row_ok(fields, lines[k]),
    ensures
        first_bad_row(fields, lines) == k,
    decreases lines.len(),
{
    if lines.len() == 0 {
    } else if !row_ok(fields, lines[0]) {
        assert(k == 0);
    } else {
        assert(k > 0);
        let t = lines.drop_first();
        assert(forall|r: int| 0 <= r < k - 1 ==> t[r] == lines[r + 1] && row_ok(fields, #[trigger] t[r]));
        lemma_first_bad_row_unique(fields, t, k - 1);
    }
}

/// The first column of a row (from `c` on) whose cell is rejected, or
/// the field count when all are accepted.
pub open spec fn first_bad_cell_from(fields: Seq<Field>, line: Seq<char>, c: int) -> int
    decreases fields.len() - c,
{
    if c < 0 || c >= fields.len() {
        fields.len() as int
    } else if !cell_accepted(row_cell(line, c), fields[c]) {
        c
    } else {
        first_bad_cell_from(fields, line, c + 1)
    }
}

proof fn lemma_first_bad_cell_skip(fields: Seq<Field>, line: Seq<char>, c: int, k: int)
    requires
        0 <= c <= k <= fields.len(),
        forall|j: int| c <= j < k ==> cell_accepted(row_cell(line, j), #[trigger] fields[j]),
    ensures
        first_bad_cell_from(fields, line, c) == first_bad_cell_from(fields, line, k),
    decreases k - c,
{
    if c < k {
        lemma_first_bad_cell_skip(fields, line, c + 1, k)
    }
}

/// The error one unparsable row reports: a row with fewer cells than the
/// schema has fields is a missing field; otherwise the first rejected
/// cell reports its own error.
pub open spec fn row_error_message(fields: Seq<Field>, line: Seq<char>) -> Seq<char> {
    let toks = split_commas(trim_spec(line));
    if fields.len() > toks.len() {
        "field not found"@
    } else {
        let c = first_bad_cell_from(fields, line, 0);
        cell_error_message(row_cell(line, c), fields[c])
    }
}

/// What a parsed batch holds: the given schema, one column per field,
/// every column as long as the chunk, and each cell the parse of the
/// corresponding trimmed input cell.
pub open spec fn batch_matches(b: RecordBatch, fields: Seq<Field>, lines: Seq<Seq<char>>) -> bool {
    b.schema@ == fields && b.well_formed() && b.columns@.len() == fields.len() && (fields.len() > 0
        ==> b.height() == lines.len()) && forall|i: int, j: int|
        0 <= i < fields.len() && 0 <= j < lines.len() ==> cell_value_matches(
            row_cell(lines[j], i),
            fields[i],
            #[trigger] b.columns@[i].values@[j],
        )
}

/// Parses one chunk of data lines into a columnar batch. Succeeds
/// exactly when every line has a cell for every field and every cell is
/// accepted by its field's type and nullability; otherwise it reports
/// the first failing row's error, rows in chunk order and cells in
/// column order.
pub fn parse_batch(schema: &Schema, lines: &Vec<String>) -> (r: Result<RecordBatch, QueryError>)
    ensures
        match r {
            Ok(b) => lines_ok(schema@, lines_view(lines@)) && batch_matches(
                b,
                schema@,
                lines_view(lines@),
            ) && b.typed(),
            Err(e) => !lines_ok(schema@, lines_view(lines@)) && (e matches
                QueryError::DataSourceError { message } && message@ == row_error_message(
                schema@,
                lines_view(lines@)[first_bad_row(schema@, lines_view(lines@))],
            )),
        },
{
    let ghost lv = lines_view(lines@);
    let cols = schema.fields.len();
    let mut columnar: Vec<Vec<ScalarValue>> = Vec::new();
    let mut c0: usize = 0;
    while c0 < cols
        invariant
            0 <= c0 <= cols,
            columnar@.len() == c0,
            forall|c: int| 0 <= c < c0 ==> (#[trigger] columnar@[c])@.len() == 0,
        decreases cols - c0,
    {
        columnar.push(Vec::new());
        c0 += 1;
    }
    let n = lines.len();
    let mut row: usize = 0;
    while row < n
        invariant
            0 <= row <= n,
            n == lines@.len(),
            lv == lines_view(lines@),
            lv.len() == lines@.len(),
            cols == schema.fields@.len(),
            columnar@.len() == cols,
            forall|c: int| 0 <= c < cols ==> (#[trigger] columnar@[c])@.len() == row,
            forall|rr: int| 0 <= rr < row ==> row_ok(schema@, #[trigger] lv[rr]),
            forall|c: int, rr: int|
                0 <= c < cols && 0 <= rr < row ==> cell_value_matches(
                    row_cell(lv[rr], c),
                    schema.fields@[c],
                    #[trigger] columnar@[c]@[rr],
                ),
        decreases n - row,
    {
        let trimmed = trim(lines[row].as_str());
        let toks = split_commas_str(trimmed);
        proof {
            assert(lv[row as int] == lines@[row as int]@);
            assert(toks@.map_values(|t: String| t@) == split_commas(trim_spec(lv[row as int])));
        }
        if toks.len() < cols {
            proof {
                assert(toks@.map_values(|t: String| t@).len() == toks@.len());
                assert(!row_ok(schema@, lv[row as int]));
                lemma_first_bad_row_unique(schema@, lv, row as int);
            }
            return Err(QueryError::DataSourceError { message: String::from_str("field not found") });
        }
        let mut c: usize = 0;
        while c < cols
            invariant
                0 <= c <= cols,
                0 <= row < n,
                n == lines@.len(),
                lv == lines_view(lines@),
                lv.len() == lines@.len(),
                cols == schema.fields@.len(),
                columnar@.len() == cols,
                toks@.map_values(|t: String| t@) == split_commas(trim_spec(lv[row as int])),
                cols <= toks@.len(),
                forall|cc: int| 0 <= cc < c ==> (#[trigger] columnar@[cc])@.len() == row + 1,
                forall|cc: int| c <= cc < cols ==> (#[trigger] columnar@[cc])@.len() == row,
                forall|cc: int|
                    0 <= cc < c ==> cell_accepted(row_cell(lv[row as int], cc), schema.fields@[cc])
                        && cell_value_matches(
                        row_cell(lv[row as int], cc),
                        schema.fields@[cc],
                        (#[trigger] columnar@[cc])@[row as int],
                    ),
                forall|rr: int| 0 <= rr < row ==> row_ok(schema@, #[trigger] lv[rr]),
                forall|cc: int, rr: int|
                    0 <= cc < cols && 0 <= rr < row ==> cell_value_matches(
                        row_cell(lv[rr], cc),
                        schema.fields@[cc],
                        #[trigger] columnar@[cc]@[rr],
                    ),
            decreases cols - c,
        {
            let cell = trim(toks[c].as_str());
            proof {
                assert(toks@.map_values(|t: String| t@)[c as int] == toks@[c as int]@);
                assert(cell@ == row_cell(lv[row as int], c as int));
            }
            match parse_cell(cell, &schema.fields[c]) {
                Ok(v) => {
                    let ghost before = columnar@;
                    let column = &mut columnar[c];
                    column.push(v);
                    proof {
                        assert(columnar@[c as int]@ =~= before[c as int]@.push(v));
                        assert(forall|cc: int|
                            0 <= cc < cols && cc != c ==> columnar@[cc] == #[trigger] before[cc]);
                        assert(columnar@[c as int]@[row as int] == v);
                        assert forall|cc: int| 0 <= cc < c + 1 implies cell_accepted(
                            row_cell(lv[row as int], cc),
                            schema.fields@[cc],
                        ) && cell_value_matches(
                            row_cell(lv[row as int], cc),
                            schema.fields@[cc],
                            columnar@[cc]@[row as int],
                        ) by {
                            if cc < c {
                                assert(columnar@[cc] == before[cc]);
                                assert(cell_accepted(row_cell(lv[row as int], cc), schema.fields@[cc])
                                    && cell_value_matches(
                                    row_cell(lv[row as int], cc),
                                    schema.fields@[cc],
                                    before[cc]@[row as int],
                                ));
                            } else {
                                assert(cell_value_matches(
                                    row_cell(lv[row as int], c as int),
                                    schema.fields@[c as int],
                                    v,
                                ));
                            }
                        }
                    }
                },
                Err(e) => {
                    proof {
                        assert(!cell_accepted(row_cell(lv[row as int], c as int), schema@[c as int]));
                        assert(!row_ok(schema@, lv[row as int]));
                        lemma_first_bad_row_unique(schema@, lv, row as int);
                        assert(toks@.map_values(|t: String| t@).len() == toks@.len());
                        assert forall|j: int| 0 <= j < c implies cell_accepted(
                            row_cell(lv[row as int], j),
                            #[trigger] schema@[j],
                        ) by {
                            assert(columnar@[j]@.len() == row + 1);
                            assert(cell_accepted(row_cell(lv[row as int], j), schema.fields@[j]));
                        }
                        lemma_first_bad_cell_skip(schema@, lv[row as int], 0, c as int);
                        assert(first_bad_cell_from(schema@, lv[row as int], c as int) == c as int);
                        assert(row_error_message(schema@, lv[row as int]) == cell_error_message(
                            row_cell(lv[row as int], c as int),
                            schema@[c as int],
                        ));
                    }
                    return Err(e);
                },
            }
            c += 1;
        }
        proof {
            assert(toks@.map_values(|t: String| t@).len() == toks@.len());
            assert forall|i: int| 0 <= i < schema@.len() implies cell_accepted(
                row_cell(lv[row as int], i),
                #[trigger] schema@[i],
            ) by {
                assert(columnar@[i]@.len() == row + 1);
                assert(cell_accepted(row_cell(lv[row as int], i), schema.fields@[i]));
            }
            assert(row_ok(schema@, lv[row as int]));
        }
        row += 1;
    }
    let mut columns: Vec<ColumnVector> = Vec::new();
    let ghost columnar_snapshot = columnar@;
    let mut c2: usize = 0;
    while c2 < cols
        invariant
            0 <= c2 <= cols,
            columnar@.len() == cols,
            columnar@ == columnar_snapshot,
            columns@.len() == c2,
            forall|cc: int|
                0 <= cc < c2 ==> (#[trigger] columns@[cc]).values@ == columnar_snapshot[cc]@,
        decreases cols - c2,
    {
        let col = columnar[c2].clone();
        proof {
            assert(col@ =~= columnar_snapshot[c2 as int]@);
        }
        columns.push(ColumnVector::new(col));
        c2 += 1;
    }
    let schema_copy = schema.clone();
    match RecordBatch::new(schema_copy, columns) {
        Ok(b) => {
            proof {
                assert(batch_matches(b, schema@, lv));
                assert(b.typed());
            }
            Ok(b)
        },
        Err(e) => {
            proof {
                assert(false);
            }
            Err(e)
        },
    }
}

/// The fixed chunk size of a scan: each pulled batch holds at most this
/// many data rows.
pub const CSV_BATCH_SIZE: usize = 16;

/// The pull-based state of one scan: the header is consumed exactly once
/// before any data chunk, and the scan finishes when a read reaches the
/// end of the file. The caller owns the file cursor and hands each read's
/// outcome to this state.
pub struct CsvScanState {
    schema: Schema,
    header_skipped: bool,
    finished: bool,
}

impl CsvScanState {
    /// The schema the scan parses against.
    pub closed spec fn schema_spec(&self) -> Seq<Field> {
        self.schema@
    }

    /// Whether the header line was consumed.
    pub closed spec fn header_done(&self) -> bool {
        self.header_skipped
    }

    /// Whether the scan has ended; a finished scan yields nothing more.
    pub closed spec fn is_finished(&self) -> bool {
        self.finished
    }

    pub fn new(schema: Schema) -> (s: Self)
        ensures
            s.schema_spec() == schema@,
            !s.header_done(),
            !s.is_finished(),
    {
        CsvScanState { schema, header_skipped: false, finished: false }
    }

    pub fn done(&self) -> (r: bool)
        ensures
            r == self.is_finished(),
    {
        self.finished
    }

    pub fn needs_header(&self) -> (r: bool)
        ensures
            r == !self.header_done(),
    {
        !self.header_skipped
    }

    /// Consumes the outcome of reading the header line: `None` is a
    /// failed read and reports an error without consuming the header;
    /// zero bytes is an empty file, which finishes the scan with no
    /// batches; otherwise the header is skipped, never to appear in a
    /// batch.
    pub fn on_header(&mut self, bytes_read: Option<usize>) -> (r: Option<QueryError>)
        requires
            !old(self).is_finished(),
            !old(self).header_done(),
        ensures
            final(self).schema_spec() == old(self).schema_spec(),
            match bytes_read {
                None => (r matches Some(e) && (e matches QueryError::DataSourceError { message }
                    && message@ == "Failed to read header"@)) && !final(self).header_done()
                    && !final(self).is_finished(),
                Some(n) => r is None && (n == 0 ==> final(self).is_finished()
                    && !final(self).header_done()) && (n > 0 ==> final(self).header_done()
                    && !final(self).is_finished()),
            },
    {
        match bytes_read {
            None => Some(
                QueryError::DataSourceError { message: String::from_str("Failed to read header") },
            ),
            Some(n) => {
                if n == 0 {
                    self.finished = true;
                } else {
                    self.header_skipped = true;
                }
                None
            },
        }
    }

    /// Consumes one chunk of data lines, read after the header: at most
    /// `CSV_BATCH_SIZE` of them, fewer only when the file ended. Yields
    /// the chunk's batch, or nothing when the file ended exactly at the
    /// chunk boundary; an exhausted file finishes the scan, so a scan
    /// over `N` data rows yields one batch per non-empty chunk and never
    /// an empty trailing batch.
    pub fn on_chunk(&mut self, lines: Vec<String>, hit_eof: bool) -> (r: Option<
        Result<RecordBatch, QueryError>,
    >)
        requires
            old(self).header_done(),
            !old(self).is_finished(),
            lines@.len() <= CSV_BATCH_SIZE,
            hit_eof || lines@.len() == CSV_BATCH_SIZE,
        ensures
            final(self).schema_spec() == old(self).schema_spec(),
            final(self).header_done(),
            final(self).is_finished() == hit_eof,
            match r {
                None => lines@.len() == 0,
                Some(res) => lines@.len() > 0 && (match res {
                    Ok(b) => lines_ok(old(self).schema_spec(), lines_view(lines@))
                        && batch_matches(b, old(self).schema_spec(), lines_view(lines@))
                        && b.typed(),
                    Err(e) => !lines_ok(old(self).schema_spec(), lines_view(lines@)) && (e matches
                        QueryError::DataSourceError { message } && message@ == row_error_message(
                        old(self).schema_spec(),
                        lines_view(lines@)[first_bad_row(old(self).schema_spec(), lines_view(lines@))],
                    )),
                }),
            },
    {
        self.finished = hit_eof;
        if lines.len() == 0 {
            None
        } else {
            Some(parse_batch(&self.schema, &lines))
        }
    }
}

/// The row counts of the batches that a scan over `n` data rows yields:
/// full chunks of sixteen, then the remainder if any.
pub open spec fn chunk_sizes(n: nat) -> Seq<nat>
    decreases n,
{
    if n == 0 {
        Seq::empty()
    } else if n <= 16 {
        seq![n]
    } else {
        seq![16nat] + chunk_sizes((n - 16) as nat)
    }
}

pub open spec fn seq_sum(s: Seq<nat>) -> nat
    decreases s.len(),
{
    if s.len() == 0 {
        0
    } else {
        s[0] + seq_sum(s.drop_first())
    }
}

/// The scan pagination law: a scan over a file with `n` data rows pulls
/// full chunks of sixteen until the file ends, so it yields exactly
/// `ceil(n / 16)` batches that together hold every data row; every batch
/// before the last has sixteen rows, and the last has `n % 16` rows,
/// or sixteen when `n` is a positive multiple of sixteen. The header
/// is consumed before the first chunk and appears in no batch.
pub proof fn lemma_scan_pagination(n: nat)
    ensures
        chunk_sizes(n).len() == (n + 15) / 16,
        seq_sum(chunk_sizes(n)) == n,
        forall|i: int| 0 <= i < chunk_sizes(n).len() - 1 ==> chunk_sizes(n)[i] == 16,
        n > 0 ==> chunk_sizes(n).last() == (if n % 16 == 0 {
            16nat
        } else {
            n % 16
        }),
    decreases n,
{
    if n == 0 {
    } else if n <= 16 {
        assert(chunk_sizes(n) =~= seq![n]);
        assert(seq_sum(seq![n]) == n + seq_sum(seq![n].drop_first()));
        assert(seq![n].drop_first() =~= Seq::<nat>::empty());
    } else {
        lemma_scan_pagination((n - 16) as nat);
        let rest = chunk_sizes((n - 16) as nat);
        let whole = chunk_sizes(n);
        assert(whole == seq![16nat] + rest);
        assert(whole.drop_first() =~= rest);
        assert(seq_sum(whole) == 16 + seq_sum(rest));
        assert(whole.len() == 1 + rest.len());
        assert((n + 15) / 16 == 1 + ((n - 16) + 15) / 16) by (nonlinear_arith)
            requires
                n > 16,
        ;
        assert(n % 16 == ((n - 16) as nat) % 16) by (nonlinear_arith)
            requires
                n > 16,
        ;
        assert(whole.last() == rest.last());
        assert forall|i: int| 0 <= i < whole.len() - 1 implies whole[i] == 16 by {
            if i > 0 {
                assert(whole[i] == rest[i - 1]);
            }
        }
    }
}

} // verus!

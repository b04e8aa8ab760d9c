//! The columnar store: a schema and one homogeneously typed, nullable
//! column per schema entry.

use vstd::prelude::*;

use crate::error::LiquidError;
use crate::row::{copy_data, fits, write_outcome, Data, Row, Value};
use crate::schema::{DataType, Schema};

verus! {

/// One column of a data frame: a cell per row, `None` for null. Float cells
/// hold IEEE-754 bit patterns.
#[derive(Debug, PartialEq)]
pub enum Column {
    Int(Vec<Option<i64>>),
    Bool(Vec<Option<bool>>),
    Float(Vec<Option<u64>>),
    String(Vec<Option<String>>),
}

/// The abstract value of an optional cell of a column.
pub open spec fn opt_value<T>(o: Option<T>, f: spec_fn(T) -> Value) -> Value {
    match o {
        Some(x) => f(x),
        None => Value::Null,
    }
}

impl Column {
    /// The declared type of this column.
    pub open spec fn data_type(&self) -> DataType {
        match self {
            Column::Int(_) => DataType::Int,
            Column::Bool(_) => DataType::Bool,
            Column::Float(_) => DataType::Float,
            Column::String(_) => DataType::String,
        }
    }

    /// The cells of this column, as abstract values.
    pub open spec fn cells(&self) -> Seq<Value> {
        match self {
            Column::Int(v) => v@.map_values(|o: Option<i64>| opt_value(o, |x: i64| Value::Int(x))),
            Column::Bool(v) => v@.map_values(
                |o: Option<bool>| opt_value(o, |x: bool| Value::Bool(x)),
            ),
            Column::Float(v) => v@.map_values(
                |o: Option<u64>| opt_value(o, |x: u64| Value::Float(x)),
            ),
            Column::String(v) => v@.map_values(
                |o: Option<String>| opt_value(o, |x: String| Value::Str(x@)),
            ),
        }
    }

    /// Every cell fits the column's type.
    pub proof fn lemma_cells_fit(&self, i: int)
        requires
            0 <= i < self.cells().len(),
        ensures
            fits(self.data_type(), self.cells()[i]),
    {
    }

    /// An empty column of type `t`.
    pub fn empty(t: DataType) -> (r: Self)
        ensures
            r.data_type() == t,
            r.cells().len() == 0,
    {
        match t {
            DataType::Bool => Column::Bool(Vec::new()),
            DataType::Int => Column::Int(Vec::new()),
            DataType::Float => Column::Float(Vec::new()),
            DataType::String => Column::String(Vec::new()),
        }
    }

    /// The number of cells.
    pub fn len(&self) -> (r: usize)
        ensures
            r == self.cells().len(),
    {
        match self {
            Column::Int(v) => v.len(),
            Column::Bool(v) => v.len(),
            Column::Float(v) => v.len(),
            Column::String(v) => v.len(),
        }
    }

    /// The cell at `i`.
    pub fn cell(&self, i: usize) -> (r: Data)
        requires
            i < self.cells().len(),
        ensures
            r@ == self.cells()[i as int],
    {
        match self {
            Column::Int(v) => match v[i] {
                Some(x) => Data::Int(x),
                None => Data::Null,
            },
            Column::Bool(v) => match v[i] {
                Some(x) => Data::Bool(x),
                None => Data::Null,
            },
            Column::Float(v) => match v[i] {
                Some(x) => Data::Float(x),
                None => Data::Null,
            },
            Column::String(v) => match &v[i] {
                Some(x) => Data::String(x.clone()),
                None => Data::Null,
            },
        }
    }

    /// Appends a cell that fits this column's type.
    pub fn push(&mut self, d: Data)
        requires
            fits(old(self).data_type(), d@),
        ensures
            final(self).data_type() == old(self).data_type(),
            final(self).cells() == old(self).cells().push(d@),
    {
        match self {
            Column::Int(v) => {
                match d {
                    Data::Int(x) => v.push(Some(x)),
                    _ => v.push(None),
                }
                assert(self.cells() =~= old(self).cells().push(d@));
            },
            Column::Bool(v) => {
                match d {
                    Data::Bool(x) => v.push(Some(x)),
                    _ => v.push(None),
                }
                assert(self.cells() =~= old(self).cells().push(d@));
            },
            Column::Float(v) => {
                match d {
                    Data::Float(x) => v.push(Some(x)),
                    _ => v.push(None),
                }
                assert(self.cells() =~= old(self).cells().push(d@));
            },
            Column::String(v) => {
                match d {
                    Data::String(x) => v.push(Some(x)),
                    _ => v.push(None),
                }
                assert(self.cells() =~= old(self).cells().push(d@));
            },
        }
    }

    /// Replaces the cell at `i` with `d`, which fits this column's type.
    pub fn set(&mut self, i: usize, d: Data)
        requires
            i < old(self).cells().len(),
            fits(old(self).data_type(), d@),
        ensures
            final(self).data_type() == old(self).data_type(),
            final(self).cells() == old(self).cells().update(i as int, d@),
    {
        match self {
            Column::Int(v) => {
                match d {
                    Data::Int(x) => v.set(i, Some(x)),
                    _ => v.set(i, None),
                }
                assert(self.cells() =~= old(self).cells().update(i as int, d@));
            },
            Column::Bool(v) => {
                match d {
                    Data::Bool(x) => v.set(i, Some(x)),
                    _ => v.set(i, None),
                }
                assert(self.cells() =~= old(self).cells().update(i as int, d@));
            },
            Column::Float(v) => {
                match d {
                    Data::Float(x) => v.set(i, Some(x)),
                    _ => v.set(i, None),
                }
                assert(self.cells() =~= old(self).cells().update(i as int, d@));
            },
            Column::String(v) => {
                match d {
                    Data::String(x) => v.set(i, Some(x)),
                    _ => v.set(i, None),
                }
                assert(self.cells() =~= old(self).cells().update(i as int, d@));
            },
        }
    }
}

/// Rows appended one by one to an empty data frame come back in order:
/// when each `frames[k + 1]` is `frames[k]` after `add_row` of a row with
/// cells `rows[k]`, the last frame's row `i` (what `fill_row(i, ..)` copies
/// out) is `rows[i]`, null markers included. Data frames without columns
/// hold no rows and are left out.
pub proof fn lemma_round_trip(frames: Seq<DataFrame>, rows: Seq<Seq<Value>>)
    requires
        frames.len() == rows.len() + 1,
        frames[0].table().len() == 0,
        forall|k: int|
            0 <= k < rows.len() ==> (#[trigger] frames[k + 1]).table() == frames[k].table().push(
                rows[k],
            ),
    ensures
        frames.last().table() == rows,
        forall|i: int| 0 <= i < rows.len() ==> frames.last().table()[i] == #[trigger] rows[i],
{
    lemma_round_trip_prefix(frames, rows, rows.len() as int);
}

proof fn lemma_round_trip_prefix(frames: Seq<DataFrame>, rows: Seq<Seq<Value>>, k: int)
    requires
        0 <= k <= rows.len(),
        frames.len() == rows.len() + 1,
        frames[0].table().len() == 0,
        forall|j: int|
            0 <= j < rows.len() ==> (#[trigger] frames[j + 1]).table() == frames[j].table().push(
                rows[j],
            ),
    ensures
        frames[k].table() == rows.subrange(0, k),
    decreases k,
{
    if k == 0 {
        assert(frames[0].table() =~= rows.subrange(0, 0));
    } else {
        lemma_round_trip_prefix(frames, rows, k - 1);
        assert(frames[k].table() == frames[k - 1].table().push(rows[k - 1]));
        assert(rows.subrange(0, k - 1).push(rows[k - 1]) =~= rows.subrange(0, k));
    }
}

/// Writes are checked against the schema: writing an integer into a column
/// declared `Float` is `TypeMismatch` for every row, and writing any type at
/// a column index at or past the number of columns is `ColIndexOutOfBounds`
/// for every row.
pub proof fn lemma_type_enforcement(df: DataFrame, col: int, row: int, t: DataType)
    requires
        df.wf(),
    ensures
        0 <= col < df.types().len() && df.types()[col] == DataType::Float ==> df.set_outcome(
            col,
            row,
            DataType::Int,
        ) == Err::<(), LiquidError>(LiquidError::TypeMismatch),
        col >= df.types().len() ==> df.set_outcome(col, row, t) == Err::<(), LiquidError>(
            LiquidError::ColIndexOutOfBounds,
        ),
{
}

/// Relies on num_cpus::get: the number of CPUs this process may run on,
/// which its documentation promises is at least 1.
#[verifier::external_body]
fn available_threads() -> (r: usize)
    ensures
        r >= 1,
{
    num_cpus::get()
}

/// Column types are equal, element by element.
fn same_types(a: &Vec<DataType>, b: &Vec<DataType>) -> (r: bool)
    ensures
        r == (a@ == b@),
{
    if a.len() != b.len() {
        return false;
    }
    let mut i: usize = 0;
    while i < a.len()
        invariant
            a@.len() == b@.len(),
            i <= a@.len(),
            forall|j: int| 0 <= j < i ==> a@[j] == b@[j],
        decreases a@.len() - i,
    {
        if a[i] != b[i] {
            return false;
        }
        i = i + 1;
    }
    assert(a@ =~= b@);
    true
}

/// One column per type, each of that type.
pub open spec fn columns_match_types(columns: Seq<Column>, types: Seq<DataType>) -> bool {
    &&& columns.len() == types.len()
    &&& forall|c: int| 0 <= c < columns.len() ==> (#[trigger] columns[c]).data_type() == types[c]
}

/// All columns have the same number of cells.
pub open spec fn columns_of_one_length(columns: Seq<Column>) -> bool {
    forall|c: int| 0 <= c < columns.len() ==> (#[trigger] columns[c]).cells().len() == columns[0].cells().len()
}

/// A schema together with its columnar data.
pub struct DataFrame {
    /// The schema of this data frame.
    pub schema: Schema,
    /// The columns, one per schema entry.
    pub data: Vec<Column>,
    /// The number of threads a parallel scan splits the rows over.
    pub n_threads: usize,
}

impl DataFrame {
    /// The column types.
    pub open spec fn types(&self) -> Seq<DataType> {
        self.schema.types()
    }

    /// The number of rows: the length of every column, 0 without columns.
    pub open spec fn nrows(&self) -> nat {
        if self.data@.len() == 0 {
            0
        } else {
            self.data@[0].cells().len()
        }
    }

    /// The cell at column `c`, row `r`.
    pub open spec fn cell(&self, c: int, r: int) -> Value {
        self.data@[c].cells()[r]
    }

    /// The cells of row `r`, in column order.
    pub open spec fn row_cells(&self, r: int) -> Seq<Value> {
        Seq::new(self.data@.len(), |c: int| self.cell(c, r))
    }

    /// The rows, in order.
    pub open spec fn table(&self) -> Seq<Seq<Value>> {
        Seq::new(self.nrows(), |r: int| self.row_cells(r))
    }

    /// One column per schema entry, of the declared type, all of one length.
    pub open spec fn wf(&self) -> bool {
        &&& self.schema.wf()
        &&& self.data@.len() == self.types().len()
        &&& forall|c: int|
            0 <= c < self.data@.len() ==> (#[trigger] self.data@[c]).data_type() == self.types()[c]
                && self.data@[c].cells().len() == self.nrows()
        &&& self.n_threads >= 1
    }

    /// Constructs an empty data frame with the given schema.
    pub fn new(s: Schema) -> (r: Self)
        requires
            s.wf(),
        ensures
            r.wf(),
            r.types() == s.types(),
            r.schema.names() == s.names(),
            r.nrows() == 0,
    {
        let mut data: Vec<Column> = Vec::new();
        let mut i: usize = 0;
        while i < s.schema.len()
            invariant
                s.wf(),
                i <= s.schema@.len(),
                data@.len() == i,
                forall|c: int|
                    0 <= c < i ==> (#[trigger] data@[c]).data_type() == s.schema@[c]
                        && data@[c].cells().len() == 0,
            decreases s.schema@.len() - i,
        {
            data.push(Column::empty(s.schema[i]));
            i = i + 1;
        }
        DataFrame { schema: s, data, n_threads: available_threads() }
    }

    /// Constructs a data frame from a schema and its columns; `TypeMismatch`
    /// when the counts differ or a column's type differs from its schema
    /// entry, else `RowIndexOutOfBounds` when the columns differ in length.
    pub fn from_columns(s: Schema, columns: Vec<Column>) -> (r: Result<Self, LiquidError>)
        requires
            s.wf(),
        ensures
            !columns_match_types(columns@, s.types()) ==> r == Err::<Self, LiquidError>(
                LiquidError::TypeMismatch,
            ),
            columns_match_types(columns@, s.types()) && !columns_of_one_length(columns@) ==> r
                == Err::<Self, LiquidError>(LiquidError::RowIndexOutOfBounds),
            r is Ok <==> columns_match_types(columns@, s.types()) && columns_of_one_length(
                columns@,
            ),
            r matches Ok(df) ==> df.wf() && df.schema == s && df.data == columns,
    {
        if columns.len() != s.schema.len() {
            return Err(LiquidError::TypeMismatch);
        }
        let mut i: usize = 0;
        while i < columns.len()
            invariant
                columns@.len() == s.schema@.len(),
                i <= columns@.len(),
                forall|c: int| 0 <= c < i ==> (#[trigger] columns@[c]).data_type() == s.schema@[c],
            decreases columns@.len() - i,
        {
            if !Self::is_of_type(&columns[i], s.schema[i]) {
                return Err(LiquidError::TypeMismatch);
            }
            i = i + 1;
        }
        assert(columns_match_types(columns@, s.types()));
        let mut j: usize = 0;
        while j < columns.len()
            invariant
                s.wf(),
                columns_match_types(columns@, s.types()),
                j <= columns@.len(),
                forall|c: int|
                    0 <= c < j ==> (#[trigger] columns@[c]).cells().len() == columns@[0].cells().len(),
            decreases columns@.len() - j,
        {
            if columns[j].len() != columns[0].len() {
                return Err(LiquidError::RowIndexOutOfBounds);
            }
            j = j + 1;
        }
        Ok(DataFrame { schema: s, data: columns, n_threads: available_threads() })
    }

    /// Whether `col` has type `t`.
    fn is_of_type(col: &Column, t: DataType) -> (r: bool)
        ensures
            r == (col.data_type() == t),
    {
        match col {
            Column::Int(_) => t == DataType::Int,
            Column::Bool(_) => t == DataType::Bool,
            Column::Float(_) => t == DataType::Float,
            Column::String(_) => t == DataType::String,
        }
    }

    /// The schema of this data frame.
    pub fn get_schema(&self) -> (r: &Schema)
        ensures
            *r == self.schema,
    {
        &self.schema
    }

    /// Adds a column with an optional name. `NameAlreadyExists` when the name
    /// is taken; `RowIndexOutOfBounds` when the data frame has columns and
    /// the new one differs from them in length. Either leaves it unchanged.
    pub fn add_column(&mut self, col: Column, name: Option<String>) -> (r: Result<(), LiquidError>)
        requires
            old(self).wf(),
        ensures
            final(self).wf(),
            (match name {
                Some(n) => old(self).schema.has_name(n@),
                None => false,
            }) ==> r == Err::<(), LiquidError>(LiquidError::NameAlreadyExists),
            (match name {
                Some(n) => !old(self).schema.has_name(n@),
                None => true,
            }) && old(self).data@.len() > 0 && col.cells().len() != old(self).nrows() ==> r == Err::<
                (),
                LiquidError,
            >(LiquidError::RowIndexOutOfBounds),
            r is Err ==> *final(self) == *old(self),
            r is Ok ==> final(self).types() == old(self).types().push(col.data_type())
                && final(self).schema.names() == old(self).schema.names().push(
                crate::schema::name_view(name),
            ) && final(self).data@ == old(self).data@.push(col),
            (match name {
                Some(n) => !old(self).schema.has_name(n@),
                None => true,
            }) && (old(self).data@.len() == 0 || col.cells().len() == old(self).nrows()) ==> r is Ok,
    {
        if self.data.len() > 0 && col.len() != self.data[0].len() {
            if let Some(n) = &name {
                if self.schema.col_idx(n.as_str()).is_some() {
                    return Err(LiquidError::NameAlreadyExists);
                }
            }
            return Err(LiquidError::RowIndexOutOfBounds);
        }
        let t = Self::data_type_of(&col);
        let res = self.schema.add_column(t, name);
        match res {
            Ok(()) => {
                self.data.push(col);
                Ok(())
            },
            Err(e) => Err(e),
        }
    }

    /// The declared type of `col`.
    fn data_type_of(col: &Column) -> (r: DataType)
        ensures
            r == col.data_type(),
    {
        match col {
            Column::Int(_) => DataType::Int,
            Column::Bool(_) => DataType::Bool,
            Column::Float(_) => DataType::Float,
            Column::String(_) => DataType::String,
        }
    }

    /// The cell at column `col_idx`, row `row_idx`.
    pub fn get(&self, col_idx: usize, row_idx: usize) -> (r: Result<Data, LiquidError>)
        requires
            self.wf(),
        ensures
            col_idx >= self.data@.len() ==> r == Err::<Data, LiquidError>(
                LiquidError::ColIndexOutOfBounds,
            ),
            col_idx < self.data@.len() && row_idx >= self.nrows() ==> r == Err::<Data, LiquidError>(
                LiquidError::RowIndexOutOfBounds,
            ),
            r is Ok <==> col_idx < self.data@.len() && row_idx < self.nrows(),
            r matches Ok(d) ==> d@ == self.cell(col_idx as int, row_idx as int),
    {
        if col_idx >= self.data.len() {
            return Err(LiquidError::ColIndexOutOfBounds);
        }
        if row_idx >= self.data[col_idx].len() {
            return Err(LiquidError::RowIndexOutOfBounds);
        }
        Ok(self.data[col_idx].cell(row_idx))
    }

    /// The index of the column named `col_name`, if there is one.
    pub fn get_col(&self, col_name: &str) -> (r: Option<usize>)
        requires
            self.wf(),
        ensures
            match r {
                Some(i) => i < self.data@.len() && self.schema.names()[i as int] == Some(col_name@),
                None => !self.schema.has_name(col_name@),
            },
    {
        self.schema.col_idx(col_name)
    }

    /// The outcome of writing a value of type `t` at `(col, row)`.
    pub open spec fn set_outcome(&self, col: int, row: int, t: DataType) -> Result<(), LiquidError> {
        match write_outcome(self.types(), col, t) {
            Err(e) => Err(e),
            Ok(()) => if row < 0 || row >= self.nrows() {
                Err(LiquidError::RowIndexOutOfBounds)
            } else {
                Ok(())
            },
        }
    }

    /// The rows after `d` is written at `(col, row)`.
    pub open spec fn written(&self, col: int, row: int, v: Value) -> Seq<Seq<Value>> {
        self.table().update(row, self.table()[row].update(col, v))
    }

    proof fn lemma_table_after_set(&self, other: &Self, col: int, row: int, v: Value)
        requires
            self.wf(),
            0 <= col < self.data@.len(),
            0 <= row < self.nrows(),
            other.data@ == self.data@.update(col, other.data@[col]),
            other.data@[col].cells() == self.data@[col].cells().update(row, v),
        ensures
            other.nrows() == self.nrows(),
            other.table() == self.written(col, row, v),
    {
        assert(other.nrows() == self.nrows());
        assert forall|r: int| 0 <= r < self.nrows() implies #[trigger] other.table()[r]
            == self.written(col, row, v)[r] by {
            assert(other.row_cells(r) =~= self.written(col, row, v)[r]);
        }
        assert(other.table() =~= self.written(col, row, v));
    }

    /// Writes `d`, of type `t`, at `(col_idx, row_idx)`.
    fn set_typed(&mut self, col_idx: usize, row_idx: usize, t: DataType, d: Data) -> (r: Result<
        (),
        LiquidError,
    >)
        requires
            old(self).wf(),
            d@ != Value::Null,
            fits(t, d@),
        ensures
            final(self).wf(),
            r == old(self).set_outcome(col_idx as int, row_idx as int, t),
            r is Ok ==> final(self).table() == old(self).written(col_idx as int, row_idx as int, d@),
            r is Err ==> *final(self) == *old(self),
            final(self).schema == old(self).schema,
    {
        if col_idx >= self.schema.schema.len() {
            return Err(LiquidError::ColIndexOutOfBounds);
        }
        if self.schema.schema[col_idx] != t {
            return Err(LiquidError::TypeMismatch);
        }
        if row_idx >= self.data[col_idx].len() {
            return Err(LiquidError::RowIndexOutOfBounds);
        }
        let ghost before = *self;
        let mut col = self.data.remove(col_idx);
        col.set(row_idx, d);
        self.data.insert(col_idx, col);
        proof {
            assert(self.data@ =~= before.data@.update(col_idx as int, self.data@[col_idx as int]));
            assert forall|c: int| 0 <= c < self.data@.len() implies (#[trigger] self.data@[c]).data_type()
                == self.types()[c] && self.data@[c].cells().len() == self.nrows() by {
                if c != 0 && col_idx != 0 {
                    assert(self.data@[0] == before.data@[0]);
                }
            }
            before.lemma_table_after_set(self, col_idx as int, row_idx as int, d@);
        }
        Ok(())
    }

    /// Writes the integer `data` at `(col_idx, row_idx)`: `ColIndexOutOfBounds`,
    /// then `TypeMismatch` unless the column is of type `Int`, then
    /// `RowIndexOutOfBounds`.
    pub fn set_int(&mut self, col_idx: usize, row_idx: usize, data: i64) -> (r: Result<(), LiquidError>)
        requires
            old(self).wf(),
        ensures
            final(self).wf(),
            r == old(self).set_outcome(col_idx as int, row_idx as int, DataType::Int),
            r is Ok ==> final(self).table() == old(self).written(
                col_idx as int,
                row_idx as int,
                Value::Int(data),
            ),
            r is Err ==> *final(self) == *old(self),
            final(self).schema == old(self).schema,
    {
        self.set_typed(col_idx, row_idx, DataType::Int, Data::Int(data))
    }

    /// Writes the float with bit pattern `data` at `(col_idx, row_idx)`; the
    /// column must be of type `Float`.
    pub fn set_float(&mut self, col_idx: usize, row_idx: usize, data: u64) -> (r: Result<(), LiquidError>)
        requires
            old(self).wf(),
        ensures
            final(self).wf(),
            r == old(self).set_outcome(col_idx as int, row_idx as int, DataType::Float),
            r is Ok ==> final(self).table() == old(self).written(
                col_idx as int,
                row_idx as int,
                Value::Float(data),
            ),
            r is Err ==> *final(self) == *old(self),
            final(self).schema == old(self).schema,
    {
        self.set_typed(col_idx, row_idx, DataType::Float, Data::Float(data))
    }

    /// Writes the boolean `data` at `(col_idx, row_idx)`; the column must be
    /// of type `Bool`.
    pub fn set_bool(&mut self, col_idx: usize, row_idx: usize, data: bool) -> (r: Result<(), LiquidError>)
        requires
            old(self).wf(),
        ensures
            final(self).wf(),
            r == old(self).set_outcome(col_idx as int, row_idx as int, DataType::Bool),
            r is Ok ==> final(self).table() == old(self).written(
                col_idx as int,
                row_idx as int,
                Value::Bool(data),
            ),
            r is Err ==> *final(self) == *old(self),
            final(self).schema == old(self).schema,
    {
        self.set_typed(col_idx, row_idx, DataType::Bool, Data::Bool(data))
    }

    /// Writes the string `data` at `(col_idx, row_idx)`; the column must be
    /// of type `String`.
    pub fn set_string(&mut self, col_idx: usize, row_idx: usize, data: String) -> (r: Result<
        (),
        LiquidError,
    >)
        requires
            old(self).wf(),
        ensures
            final(self).wf(),
            r == old(self).set_outcome(col_idx as int, row_idx as int, DataType::String),
            r is Ok ==> final(self).table() == old(self).written(
                col_idx as int,
                row_idx as int,
                Value::Str(data@),
            ),
            r is Err ==> *final(self) == *old(self),
            final(self).schema == old(self).schema,
    {
        self.set_typed(col_idx, row_idx, DataType::String, Data::String(data))
    }

    /// Overwrites `row` with the cells of row `idx` and records `idx` as its
    /// index. `TypeMismatch` when `row` has other column types,
    /// `RowIndexOutOfBounds` when `idx` is not a row; either leaves `row`
    /// unchanged.
    pub fn fill_row(&self, idx: usize, row: &mut Row) -> (r: Result<(), LiquidError>)
        requires
            self.wf(),
            old(row).wf(),
        ensures
            final(row).wf(),
            old(row).schema@ != self.types() ==> r == Err::<(), LiquidError>(
                LiquidError::TypeMismatch,
            ),
            old(row).schema@ == self.types() && idx >= self.nrows() ==> r == Err::<(), LiquidError>(
                LiquidError::RowIndexOutOfBounds,
            ),
            r is Ok <==> old(row).schema@ == self.types() && idx < self.nrows(),
            r is Ok ==> final(row).cells() == self.table()[idx as int] && final(row).idx == Some(
                idx,
            ) && final(row).schema == old(row).schema,
            r is Err ==> *final(row) == *old(row),
    {
        if !same_types(&row.schema, &self.schema.schema) {
            return Err(LiquidError::TypeMismatch);
        }
        if idx >= self.n_rows() {
            return Err(LiquidError::RowIndexOutOfBounds);
        }
        let mut c: usize = 0;
        while c < self.data.len()
            invariant
                self.wf(),
                idx < self.nrows(),
                row.schema == old(row).schema,
                row.schema@ == self.types(),
                row.data@.len() == self.data@.len(),
                c <= self.data@.len(),
                forall|j: int| 0 <= j < c ==> (#[trigger] row.data@[j])@ == self.cell(j, idx as int),
                forall|j: int| c <= j < row.data@.len() ==> #[trigger] row.data@[j] == old(row).data@[j],
            decreases self.data@.len() - c,
        {
            let d = self.data[c].cell(idx);
            row.data.set(c, d);
            c = c + 1;
        }
        row.idx = Some(idx);
        proof {
            assert(row.cells() =~= self.row_cells(idx as int));
            assert forall|j: int| 0 <= j < row.data@.len() implies fits(
                row.schema@[j],
                #[trigger] row.data@[j]@,
            ) by {
                assert(self.data@[j].cells().len() == self.nrows());
                self.data@[j].lemma_cells_fit(idx as int);
            }
        }
        Ok(())
    }

    /// Appends `row` as a new last row. `TypeMismatch`, leaving the data
    /// frame unchanged, when `row` has other column types.
    pub fn add_row(&mut self, row: &Row) -> (r: Result<(), LiquidError>)
        requires
            old(self).wf(),
            row.wf(),
        ensures
            final(self).wf(),
            r is Ok <==> row.schema@ == old(self).types(),
            r matches Err(e) ==> e == LiquidError::TypeMismatch,
            r is Err ==> *final(self) == *old(self),
            r is Ok && old(self).types().len() > 0 ==> final(self).table() == old(self).table().push(
                row.cells(),
            ),
            final(self).schema == old(self).schema,
    {
        if !same_types(&row.schema, &self.schema.schema) {
            return Err(LiquidError::TypeMismatch);
        }
        let ghost before = *self;
        let mut c: usize = 0;
        while c < self.data.len()
            invariant
                before.wf(),
                row.wf(),
                row.schema@ == before.types(),
                self.schema == before.schema,
                self.n_threads == before.n_threads,
                self.data@.len() == before.data@.len(),
                c <= self.data@.len(),
                forall|j: int|
                    0 <= j < self.data@.len() ==> (#[trigger] self.data@[j]).data_type()
                        == before.data@[j].data_type(),
                forall|j: int|
                    0 <= j < c ==> (#[trigger] self.data@[j]).cells() == before.data@[j].cells().push(
                        row.data@[j]@,
                    ),
                forall|j: int| c <= j < self.data@.len() ==> #[trigger] self.data@[j] == before.data@[j],
            decreases self.data@.len() - c,
        {
            let d = copy_data(&row.data[c]);
            self.data[c].push(d);
            c = c + 1;
        }
        proof {
            if before.types().len() > 0 {
                assert(self.nrows() == before.nrows() + 1);
                assert forall|r: int| 0 <= r < self.nrows() implies #[trigger] self.table()[r]
                    == before.table().push(row.cells())[r] by {
                    assert(self.row_cells(r) =~= before.table().push(row.cells())[r]);
                }
                assert(self.table() =~= before.table().push(row.cells()));
            }
        }
        Ok(())
    }

    /// The number of rows.
    pub fn n_rows(&self) -> (r: usize)
        requires
            self.wf(),
        ensures
            r == self.nrows(),
    {
        if self.data.len() == 0 {
            0
        } else {
            self.data[0].len()
        }
    }

    /// The number of columns.
    pub fn n_cols(&self) -> (r: usize)
        requires
            self.wf(),
        ensures
            r == self.types().len(),
    {
        self.schema.width()
    }
}

} // verus!

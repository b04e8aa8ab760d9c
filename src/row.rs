//! Rows: fixed-width, schema-typed scratch buffers of cells, and the
//! field visitors that walk them.

use vstd::prelude::*;

use crate::error::LiquidError;
use crate::schema::{DataType, Schema};

verus! {

/// One cell's value. A float is held by its IEEE-754 bit pattern.
#[derive(Debug, PartialEq)]
pub enum Data {
    String(String),
    Int(i64),
    Float(u64),
    Bool(bool),
    Null,
}

/// The abstract value of a cell.
pub enum Value {
    Str(Seq<char>),
    Int(i64),
    Float(u64),
    Bool(bool),
    Null,
}

impl View for Data {
    type V = Value;

    open spec fn view(&self) -> Value {
        match self {
            Data::String(s) => Value::Str(s@),
            Data::Int(i) => Value::Int(*i),
            Data::Float(f) => Value::Float(*f),
            Data::Bool(b) => Value::Bool(*b),
            Data::Null => Value::Null,
        }
    }
}

/// A cell value may stand in a column of type `t`: it is null or of type `t`.
pub open spec fn fits(t: DataType, v: Value) -> bool {
    match v {
        Value::Str(_) => t == DataType::String,
        Value::Int(_) => t == DataType::Int,
        Value::Float(_) => t == DataType::Float,
        Value::Bool(_) => t == DataType::Bool,
        Value::Null => true,
    }
}

/// The outcome of writing a value of type `t` into column `col` of a row or
/// data frame whose column types are `types`.
pub open spec fn write_outcome(types: Seq<DataType>, col: int, t: DataType) -> Result<
    (),
    LiquidError,
> {
    if col < 0 || col >= types.len() {
        Err(LiquidError::ColIndexOutOfBounds)
    } else if types[col] != t {
        Err(LiquidError::TypeMismatch)
    } else {
        Ok(())
    }
}

/// A copy of a cell, equal to it.
pub fn copy_data(d: &Data) -> (r: Data)
    ensures
        r == *d,
{
    match d {
        Data::String(s) => Data::String(s.clone()),
        Data::Int(i) => Data::Int(*i),
        Data::Float(f) => Data::Float(*f),
        Data::Bool(b) => Data::Bool(*b),
        Data::Null => Data::Null,
    }
}

/// A visitor of the cells of one row, in column order.
pub trait Fielder: Sized {
    /// The state after `start` with the given row index; unknown unless the
    /// implementation states it.
    closed spec fn started(self, idx: usize) -> Self {
        arbitrary()
    }

    /// The state after visiting one cell; unknown unless the implementation
    /// states it.
    closed spec fn visited(self, v: Value) -> Self {
        arbitrary()
    }

    /// The state after `done`; unknown unless the implementation states it.
    closed spec fn finished(self) -> Self {
        arbitrary()
    }

    /// Called once before the cells of the row with index `starting_row_index`.
    fn start(&mut self, starting_row_index: usize)
        ensures
            *final(self) == old(self).started(starting_row_index),
    ;

    fn visit_bool(&mut self, b: bool)
        ensures
            *final(self) == old(self).visited(Value::Bool(b)),
    ;

    /// Visits a float, given by its IEEE-754 bit pattern.
    fn visit_float(&mut self, f: u64)
        ensures
            *final(self) == old(self).visited(Value::Float(f)),
    ;

    fn visit_int(&mut self, i: i64)
        ensures
            *final(self) == old(self).visited(Value::Int(i)),
    ;

    fn visit_string(&mut self, s: &String)
        ensures
            *final(self) == old(self).visited(Value::Str(s@)),
    ;

    fn visit_null(&mut self)
        ensures
            *final(self) == old(self).visited(Value::Null),
    ;

    /// Called once after the last cell.
    fn done(&mut self)
        ensures
            *final(self) == old(self).finished(),
    ;
}

/// The state of a field visitor after visiting `cells` in order.
pub open spec fn visit_cells<F: Fielder>(f: F, cells: Seq<Value>) -> F
    decreases cells.len(),
{
    if cells.len() == 0 {
        f
    } else {
        visit_cells(f, cells.drop_last()).visited(cells.last())
    }
}

/// A schema-typed buffer of cells, with an optional source-row index.
pub struct Row {
    /// The type of each cell.
    pub schema: Vec<DataType>,
    /// The cells.
    pub data: Vec<Data>,
    /// The index of the data frame row this row was filled from, if any.
    pub idx: Option<usize>,
}

impl Row {
    /// The cells, as abstract values.
    pub open spec fn cells(&self) -> Seq<Value> {
        self.data@.map_values(|d: Data| d@)
    }

    /// One cell per column, each fitting its column's type.
    pub open spec fn wf(&self) -> bool {
        &&& self.schema@.len() == self.data@.len()
        &&& forall|i: int| 0 <= i < self.data@.len() ==> fits(self.schema@[i], #[trigger] self.data@[i]@)
    }

    /// Constructs a row of the given schema with every cell null.
    pub fn new(schema: &Schema) -> (r: Self)
        requires
            schema.wf(),
        ensures
            r.wf(),
            r.schema@ == schema.types(),
            r.cells() == Seq::new(schema.types().len(), |i: int| Value::Null),
            r.idx is None,
    {
        let mut types: Vec<DataType> = Vec::new();
        let mut data: Vec<Data> = Vec::new();
        let mut i: usize = 0;
        while i < schema.schema.len()
            invariant
                i <= schema.schema@.len(),
                types@ == schema.schema@.subrange(0, i as int),
                data@.len() == i,
                forall|j: int| 0 <= j < i ==> #[trigger] data@[j] == Data::Null,
            decreases schema.schema@.len() - i,
        {
            types.push(schema.schema[i]);
            data.push(Data::Null);
            i = i + 1;
            assert(types@ =~= schema.schema@.subrange(0, i as int));
        }
        assert(types@ =~= schema.schema@);
        let r = Row { schema: types, data, idx: None };
        assert(r.cells() =~= Seq::new(schema.types().len(), |i: int| Value::Null));
        r
    }

    /// Writes `d` into column `col_idx` if that column has type `t`.
    fn set_typed(&mut self, col_idx: usize, t: DataType, d: Data) -> (r: Result<(), LiquidError>)
        requires
            old(self).wf(),
            d@ != Value::Null,
            fits(t, d@),
        ensures
            final(self).wf(),
            r == write_outcome(old(self).schema@, col_idx as int, t),
            r is Ok ==> final(self).cells() == old(self).cells().update(col_idx as int, d@),
            r is Err ==> final(self).cells() == old(self).cells(),
            final(self).schema@ == old(self).schema@,
            final(self).idx == old(self).idx,
    {
        if col_idx >= self.schema.len() {
            return Err(LiquidError::ColIndexOutOfBounds);
        }
        if self.schema[col_idx] != t {
            return Err(LiquidError::TypeMismatch);
        }
        self.data.set(col_idx, d);
        assert(self.cells() =~= old(self).cells().update(col_idx as int, d@));
        Ok(())
    }

    /// Sets the cell at `col_idx` to the integer `data`; the column must be
    /// of type `Int`.
    pub fn set_int(&mut self, col_idx: usize, data: i64) -> (r: Result<(), LiquidError>)
        requires
            old(self).wf(),
        ensures
            final(self).wf(),
            r == write_outcome(old(self).schema@, col_idx as int, DataType::Int),
            r is Ok ==> final(self).cells() == old(self).cells().update(col_idx as int, Value::Int(data)),
            r is Err ==> final(self).cells() == old(self).cells(),
            final(self).schema@ == old(self).schema@,
            final(self).idx == old(self).idx,
    {
        self.set_typed(col_idx, DataType::Int, Data::Int(data))
    }

    /// Sets the cell at `col_idx` to the float with bit pattern `data`; the
    /// column must be of type `Float`.
    pub fn set_float(&mut self, col_idx: usize, data: u64) -> (r: Result<(), LiquidError>)
        requires
            old(self).wf(),
        ensures
            final(self).wf(),
            r == write_outcome(old(self).schema@, col_idx as int, DataType::Float),
            r is Ok ==> final(self).cells() == old(self).cells().update(col_idx as int, Value::Float(data)),
            r is Err ==> final(self).cells() == old(self).cells(),
            final(self).schema@ == old(self).schema@,
            final(self).idx == old(self).idx,
    {
        self.set_typed(col_idx, DataType::Float, Data::Float(data))
    }

    /// Sets the cell at `col_idx` to the boolean `data`; the column must be
    /// of type `Bool`.
    pub fn set_bool(&mut self, col_idx: usize, data: bool) -> (r: Result<(), LiquidError>)
        requires
            old(self).wf(),
        ensures
            final(self).wf(),
            r == write_outcome(old(self).schema@, col_idx as int, DataType::Bool),
            r is Ok ==> final(self).cells() == old(self).cells().update(col_idx as int, Value::Bool(data)),
            r is Err ==> final(self).cells() == old(self).cells(),
            final(self).schema@ == old(self).schema@,
            final(self).idx == old(self).idx,
    {
        self.set_typed(col_idx, DataType::Bool, Data::Bool(data))
    }

    /// Sets the cell at `col_idx` to the string `data`; the column must be
    /// of type `String`.
    pub fn set_string(&mut self, col_idx: usize, data: String) -> (r: Result<(), LiquidError>)
        requires
            old(self).wf(),
        ensures
            final(self).wf(),
            r == write_outcome(old(self).schema@, col_idx as int, DataType::String),
            r is Ok ==> final(self).cells() == old(self).cells().update(col_idx as int, Value::Str(data@)),
            r is Err ==> final(self).cells() == old(self).cells(),
            final(self).schema@ == old(self).schema@,
            final(self).idx == old(self).idx,
    {
        self.set_typed(col_idx, DataType::String, Data::String(data))
    }

    /// Sets the cell at `col_idx` to null.
    pub fn set_null(&mut self, col_idx: usize) -> (r: Result<(), LiquidError>)
        requires
            old(self).wf(),
        ensures
            final(self).wf(),
            col_idx < old(self).data@.len() <==> r is Ok,
            r matches Err(e) ==> e == LiquidError::ColIndexOutOfBounds,
            r is Ok ==> final(self).cells() == old(self).cells().update(col_idx as int, Value::Null),
            r is Err ==> final(self).cells() == old(self).cells(),
            final(self).schema@ == old(self).schema@,
            final(self).idx == old(self).idx,
    {
        if col_idx >= self.data.len() {
            return Err(LiquidError::ColIndexOutOfBounds);
        }
        self.data.set(col_idx, Data::Null);
        assert(self.cells() =~= old(self).cells().update(col_idx as int, Value::Null));
        Ok(())
    }

    /// Sets the index of the data frame row this row stands for.
    pub fn set_idx(&mut self, idx: usize)
        ensures
            final(self).idx == Some(idx),
            final(self).schema == old(self).schema,
            final(self).data == old(self).data,
    {
        self.idx = Some(idx);
    }

    /// The index of the data frame row this row stands for; `NotSet` before
    /// one was set.
    pub fn get_idx(&self) -> (r: Result<usize, LiquidError>)
        ensures
            r == (match self.idx {
                Some(i) => Ok(i),
                None => Err(LiquidError::NotSet),
            }),
    {
        match self.idx {
            Some(index) => Ok(index),
            None => Err(LiquidError::NotSet),
        }
    }

    /// The cell at `idx`.
    pub fn get(&self, idx: usize) -> (r: Result<&Data, LiquidError>)
        ensures
            idx < self.data@.len() <==> r is Ok,
            r matches Ok(d) ==> *d == self.data@[idx as int],
            r matches Err(e) ==> e == LiquidError::ColIndexOutOfBounds,
    {
        if idx < self.data.len() {
            Ok(&self.data[idx])
        } else {
            Err(LiquidError::ColIndexOutOfBounds)
        }
    }

    /// The number of cells.
    pub fn width(&self) -> (r: usize)
        ensures
            r == self.data@.len(),
    {
        self.data.len()
    }

    /// The type of the column at `idx`.
    pub fn col_type(&self, idx: usize) -> (r: Result<&DataType, LiquidError>)
        ensures
            idx < self.schema@.len() <==> r is Ok,
            r matches Ok(t) ==> *t == self.schema@[idx as int],
            r matches Err(e) ==> e == LiquidError::ColIndexOutOfBounds,
    {
        if idx < self.schema.len() {
            Ok(&self.schema[idx])
        } else {
            Err(LiquidError::ColIndexOutOfBounds)
        }
    }

    /// Walks `f` over this row: `start` with the row index, each cell in
    /// column order, then `done`. `NotSet`, with `f` untouched, when the row
    /// has no index.
    pub fn accept<T: Fielder>(&self, f: &mut T) -> (r: Result<(), LiquidError>)
        ensures
            self.idx is None ==> r == Err::<(), LiquidError>(LiquidError::NotSet) && *final(f)
                == *old(f),
            self.idx matches Some(i) ==> r is Ok && *final(f) == visit_cells(
                old(f).started(i),
                self.cells(),
            ).finished(),
    {
        let idx = match self.idx {
            Some(i) => i,
            None => {
                return Err(LiquidError::NotSet);
            },
        };
        f.start(idx);
        let mut k: usize = 0;
        while k < self.data.len()
            invariant
                k <= self.data@.len(),
                *f == visit_cells(old(f).started(idx), self.cells().subrange(0, k as int)),
            decreases self.data@.len() - k,
        {
            proof {
                let next = self.cells().subrange(0, k + 1);
                assert(next.drop_last() =~= self.cells().subrange(0, k as int));
            }
            match &self.data[k] {
                Data::Int(d) => f.visit_int(*d),
                Data::Bool(d) => f.visit_bool(*d),
                Data::Float(d) => f.visit_float(*d),
                Data::String(d) => f.visit_string(d),
                Data::Null => f.visit_null(),
            }
            k = k + 1;
        }
        assert(self.cells().subrange(0, self.data@.len() as int) =~= self.cells());
        f.done();
        Ok(())
    }
}

} // verus!

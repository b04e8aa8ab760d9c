//! The schema of a data frame: the ordered column types and optional,
//! unique column names.

use vstd::prelude::*;

use vstd::string::StringSliceAdditionalSpecFns;

use crate::error::LiquidError;

verus! {

/// The type of the values held by one column.
#[derive(Debug, Clone, Copy, PartialEq, Eq, Structural)]
pub enum DataType {
    String,
    Float,
    Int,
    Bool,
}

/// The abstract value of an optional column name.
pub open spec fn name_view(n: Option<String>) -> Option<Seq<char>> {
    match n {
        Some(s) => Some(s@),
        None => None,
    }
}

/// The column type named by a type letter: `B`, `I`, `F` or `S`.
pub open spec fn type_of_letter(c: u8) -> Option<DataType> {
    if c == 66 {
        Some(DataType::Bool)
    } else if c == 73 {
        Some(DataType::Int)
    } else if c == 70 {
        Some(DataType::Float)
    } else if c == 83 {
        Some(DataType::String)
    } else {
        None
    }
}

/// Some entry of `names` is the name `n`.
pub open spec fn name_taken(names: Seq<Option<Seq<char>>>, n: Seq<char>) -> bool {
    exists|i: int| 0 <= i < names.len() && #[trigger] names[i] == Some(n)
}

/// The column types and names after adding a column of type `t` named
/// `name`, or the error when the name is taken.
pub open spec fn add_column_spec(
    types: Seq<DataType>,
    names: Seq<Option<Seq<char>>>,
    t: DataType,
    name: Option<Seq<char>>,
) -> Result<(Seq<DataType>, Seq<Option<Seq<char>>>), LiquidError> {
    match name {
        Some(n) => if name_taken(names, n) {
            Err(LiquidError::NameAlreadyExists)
        } else {
            Ok((types.push(t), names.push(name)))
        },
        None => Ok((types.push(t), names.push(name))),
    }
}

/// Adding a column named `x` twice keeps the first column only: the first
/// addition succeeds and the second is `NameAlreadyExists`.
pub proof fn lemma_add_column_twice(
    types: Seq<DataType>,
    names: Seq<Option<Seq<char>>>,
    t1: DataType,
    t2: DataType,
    x: Seq<char>,
)
    requires
        !name_taken(names, x),
    ensures
        add_column_spec(types, names, t1, Some(x)) == Ok::<_, LiquidError>(
            (types.push(t1), names.push(Some(x))),
        ),
        add_column_spec(types.push(t1), names.push(Some(x)), t2, Some(x)) == Err::<
            (Seq<DataType>, Seq<Option<Seq<char>>>),
            _,
        >(LiquidError::NameAlreadyExists),
{
    assert(names.push(Some(x))[names.len() as int] == Some(x));
}

/// The ordered column types of a data set, with an optional name per column.
pub struct Schema {
    /// The type of each column, in order.
    pub schema: Vec<DataType>,
    /// The optional name of each column, in order.
    pub col_names: Vec<Option<String>>,
}

impl Schema {
    /// The column types.
    pub open spec fn types(&self) -> Seq<DataType> {
        self.schema@
    }

    /// The column names, as abstract values.
    pub open spec fn names(&self) -> Seq<Option<Seq<char>>> {
        self.col_names@.map_values(|n: Option<String>| name_view(n))
    }

    /// One name per column, and no name used twice.
    pub open spec fn wf(&self) -> bool {
        &&& self.schema@.len() == self.col_names@.len()
        &&& forall|i: int, j: int|
            0 <= i < j < self.names().len() && (#[trigger] self.names()[i]) is Some
                ==> self.names()[i] != #[trigger] self.names()[j]
    }

    /// Some column carries the name `n`.
    pub open spec fn has_name(&self, n: Seq<char>) -> bool {
        name_taken(self.names(), n)
    }

    /// Constructs an empty schema.
    pub fn new() -> (r: Self)
        ensures
            r.wf(),
            r.types() =~= Seq::<DataType>::empty(),
            r.names() =~= Seq::<Option<Seq<char>>>::empty(),
    {
        Schema { schema: Vec::new(), col_names: Vec::new() }
    }

    /// Constructs a schema of unnamed columns of the given types.
    pub fn from_types(types: Vec<DataType>) -> (r: Self)
        ensures
            r.wf(),
            r.types() == types@,
            r.names() == Seq::new(types@.len(), |i: int| None::<Seq<char>>),
    {
        let mut col_names: Vec<Option<String>> = Vec::new();
        let mut i: usize = 0;
        while i < types.len()
            invariant
                i <= types@.len(),
                col_names@.len() == i,
                forall|j: int| 0 <= j < i ==> col_names@[j] is None,
            decreases types@.len() - i,
        {
            col_names.push(None);
            i = i + 1;
        }
        let r = Schema { schema: types, col_names };
        assert(r.names() =~= Seq::new(r.schema@.len(), |i: int| None::<Seq<char>>));
        r
    }

    /// The column type of a type letter, if it names one.
    pub fn char_to_data_type(c: u8) -> (r: Option<DataType>)
        ensures
            r == type_of_letter(c),
    {
        if c == 66 {
            Some(DataType::Bool)
        } else if c == 73 {
            Some(DataType::Int)
        } else if c == 70 {
            Some(DataType::Float)
        } else if c == 83 {
            Some(DataType::String)
        } else {
            None
        }
    }

    /// Constructs a schema of unnamed columns from a string of type letters
    /// (`B`ool, `I`nt, `F`loat, `S`tring), one letter per column. Any other
    /// character is a `TypeMismatch`.
    pub fn from_type_str(types: &str) -> (r: Result<Self, LiquidError>)
        ensures
            (forall|i: int| 0 <= i < types.spec_bytes().len()
                ==> (#[trigger] type_of_letter(types.spec_bytes()[i])) is Some) <==> r is Ok,
            r matches Ok(s) ==> {
                &&& s.wf()
                &&& s.types().len() == types.spec_bytes().len()
                &&& forall|i: int| 0 <= i < s.types().len()
                    ==> Some(#[trigger] s.types()[i]) == type_of_letter(types.spec_bytes()[i])
                &&& forall|i: int| 0 <= i < s.names().len() ==> #[trigger] s.names()[i] is None
            },
            r matches Err(e) ==> e == LiquidError::TypeMismatch,
    {
        let bytes = types.as_bytes();
        let mut out: Vec<DataType> = Vec::new();
        let mut i: usize = 0;
        while i < bytes.len()
            invariant
                bytes@ == types.spec_bytes(),
                i <= bytes@.len(),
                out@.len() == i,
                forall|j: int| 0 <= j < i ==> Some(#[trigger] out@[j]) == type_of_letter(bytes@[j]),
            decreases bytes@.len() - i,
        {
            match Self::char_to_data_type(bytes[i]) {
                Some(t) => out.push(t),
                None => {
                    assert(type_of_letter(types.spec_bytes()[i as int]) is None);
                    return Err(LiquidError::TypeMismatch);
                },
            }
            i = i + 1;
        }
        assert forall|j: int| 0 <= j < types.spec_bytes().len() implies (#[trigger] type_of_letter(
            types.spec_bytes()[j],
        )) is Some by {
            assert(Some(out@[j]) == type_of_letter(bytes@[j]));
        }
        let s = Self::from_types(out);
        assert(forall|j: int| 0 <= j < s.names().len() ==> #[trigger] s.names()[j] is None);
        Ok(s)
    }

    /// Adds a column of the given type with an optional name. A name that the
    /// schema already holds leaves it unchanged and is `NameAlreadyExists`.
    pub fn add_column(
        &mut self,
        data_type: DataType,
        col_name: Option<String>,
    ) -> (r: Result<(), LiquidError>)
        requires
            old(self).wf(),
        ensures
            final(self).wf(),
            (match col_name {
                Some(n) => old(self).has_name(n@),
                None => false,
            }) <==> r is Err,
            r matches Err(e) ==> e == LiquidError::NameAlreadyExists,
            r is Err ==> *final(self) == *old(self),
            match add_column_spec(old(self).types(), old(self).names(), data_type, name_view(col_name)) {
                Ok(p) => r is Ok && final(self).types() == p.0 && final(self).names() == p.1,
                Err(e) => r == Err::<(), LiquidError>(e),
            },
            r is Ok ==> final(self).types() == old(self).types().push(data_type),
            r is Ok ==> final(self).names() == old(self).names().push(name_view(col_name)),
    {
        if let Some(name) = &col_name {
            if self.col_idx_of(name).is_some() {
                return Err(LiquidError::NameAlreadyExists);
            }
        }
        self.schema.push(data_type);
        self.col_names.push(col_name);
        assert(self.names() =~= old(self).names().push(name_view(col_name)));
        Ok(())
    }

    /// The first column that carries the name `target`.
    fn col_idx_of(&self, target: &String) -> (r: Option<usize>)
        requires
            self.wf(),
        ensures
            match r {
                Some(i) => i < self.names().len() && self.names()[i as int] == Some(target@)
                    && forall|j: int| 0 <= j < i ==> self.names()[j] != Some(target@),
                None => !self.has_name(target@),
            },
    {
        let mut i: usize = 0;
        while i < self.col_names.len()
            invariant
                self.wf(),
                i <= self.col_names@.len(),
                forall|j: int| 0 <= j < i ==> self.names()[j] != Some(target@),
            decreases self.col_names@.len() - i,
        {
            assert(self.names()[i as int] == name_view(self.col_names@[i as int]));
            match &self.col_names[i] {
                Some(name) => {
                    if name.eq(target) {
                        return Some(i);
                    }
                },
                None => {},
            }
            i = i + 1;
        }
        None
    }

    /// The optional name of the column at `idx`.
    pub fn col_name(&self, idx: usize) -> (r: Result<&Option<String>, LiquidError>)
        requires
            self.wf(),
        ensures
            idx < self.names().len() <==> r is Ok,
            r matches Ok(n) ==> name_view(*n) == self.names()[idx as int],
            r matches Err(e) ==> e == LiquidError::ColIndexOutOfBounds,
    {
        if idx < self.col_names.len() {
            Ok(&self.col_names[idx])
        } else {
            Err(LiquidError::ColIndexOutOfBounds)
        }
    }

    /// The type of the column at `idx`.
    pub fn col_type(&self, idx: usize) -> (r: Result<&DataType, LiquidError>)
        requires
            self.wf(),
        ensures
            idx < self.types().len() <==> r is Ok,
            r matches Ok(t) ==> *t == self.types()[idx as int],
            r matches Err(e) ==> e == LiquidError::ColIndexOutOfBounds,
    {
        if idx < self.schema.len() {
            Ok(&self.schema[idx])
        } else {
            Err(LiquidError::ColIndexOutOfBounds)
        }
    }

    /// The index of the column named `col_name`, if there is one.
    pub fn col_idx(&self, col_name: &str) -> (r: Option<usize>)
        requires
            self.wf(),
        ensures
            match r {
                Some(i) => i < self.names().len() && self.names()[i as int] == Some(col_name@),
                None => !self.has_name(col_name@),
            },
    {
        let target: String = col_name.to_owned();
        self.col_idx_of(&target)
    }

    /// The number of columns.
    pub fn width(&self) -> (r: usize)
        requires
            self.wf(),
        ensures
            r == self.types().len(),
    {
        self.col_names.len()
    }
}

} // verus!

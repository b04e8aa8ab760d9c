//! Errors reported by the engine.

use vstd::prelude::*;

verus! {

/// The kinds of failure that the engine reports to its caller.
#[derive(Debug, Clone, Copy, PartialEq, Eq, Structural)]
pub enum LiquidError {
    /// A value of one type was written where another type is declared.
    TypeMismatch,
    /// A column index at or past the number of columns.
    ColIndexOutOfBounds,
    /// A row index at or past the number of rows.
    RowIndexOutOfBounds,
    /// A column name that the schema already holds.
    NameAlreadyExists,
    /// A row's source index was asked for before it was set.
    NotSet,
    /// No partition is stored under the requested key.
    PartitionNotFound,
    /// An inbound blob could not be decoded.
    Serialization,
}

} // verus!

//! A small distributed data-processing engine: typed columnar data frames,
//! rows and visitors over them, local block-parallel scans and the
//! chain-reduce protocol that combines per-node results on node 1.

pub mod chain;
pub mod dataframe;
pub mod engine;
pub mod error;
pub mod row;
pub mod rower;
pub mod schema;

pub use chain::{Coordinator, Key, Step};
pub use dataframe::{Column, DataFrame};
pub use error::LiquidError;
pub use row::{Data, Fielder, Row, Value};
pub use rower::{Rower, RowCounter};
pub use schema::{DataType, Schema};

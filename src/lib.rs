//! A small object-relational mapping core: typed storage values, table
//! schemas rendered to SQL, a registry of table-creation statements, and a
//! query engine that turns model records into bound statements and fetched
//! rows back into records.
use vstd::prelude::*;

pub mod query;
pub mod record;
pub mod registry;
pub mod schema;
pub mod sql;
pub mod text;
pub mod value;

pub use query::{OrmError, QuerySet, SaveStep, Statement};
pub use record::{DecodeError, Record};
pub use registry::{setup_db, Registry};
pub use schema::{ModelField, ModelSchema, SchemaError};
pub use value::{column_type_of, ColumnType, StorageValue};

verus! {

/// The fields of a model, in column order.
pub type ModelFields = Vec<ModelField>;

/// Another name for the engine of one model.
pub type Objects = QuerySet;

} // verus!

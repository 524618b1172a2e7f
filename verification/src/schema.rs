//! The reflected structure of a database.
use vstd::prelude::*;
use vstd::view::View as _;

use crate::types::DataType;

verus! {

/// Every schema that the connected credential can see, and everything in it.
#[derive(Debug, Clone)]
pub struct Catalog {
    pub schemas: Vec<Schema>,
}

impl Default for Catalog {
    fn default() -> (r: Catalog)
        ensures
            r.schemas@.len() == 0,
    {
        Catalog { schemas: Vec::new() }
    }
}

#[derive(Debug, Clone)]
pub struct Schema {
    pub name: String,
    pub tables: Vec<Table>,
    pub views: Vec<View>,
    pub sequences: Vec<Sequence>,
    pub functions: Vec<Function>,
}

/// Names a table without carrying its reflected structure around.
#[derive(Debug, Clone, PartialEq, Eq, Hash)]
pub struct TableRef {
    pub schema: String,
    pub name: String,
}

#[derive(Debug, Clone)]
pub struct Table {
    pub schema: String,
    pub name: String,
    pub columns: Vec<Column>,
    pub primary_key: Option<PrimaryKey>,
    pub foreign_keys: Vec<ForeignKey>,
    pub unique_constraints: Vec<UniqueConstraint>,
    pub check_constraints: Vec<CheckConstraint>,
    /// Empty on engines without exclusion constraints.
    pub exclusion_constraints: Vec<ExclusionConstraint>,
    pub indexes: Vec<Index>,
    pub triggers: Vec<Trigger>,
    pub comment: Option<String>,
    /// How a partitioned table divides its rows; none for other tables.
    pub partition_key: Option<String>,
    /// The partitioned table that this one is a partition of.
    pub partition_parent: Option<TableRef>,
}

impl Table {
    /// The table's schema and name.
    pub fn table_ref(&self) -> (r: TableRef)
        ensures
            r.schema@ == self.schema@,
            r.name@ == self.name@,
    {
        TableRef { schema: self.schema.clone(), name: self.name.clone() }
    }
}

#[derive(Debug, Clone)]
pub struct Column {
    pub name: String,
    pub ordinal_position: u32,
    pub data_type: DataType,
    pub nullable: bool,
    pub default: Option<String>,
    pub is_identity: bool,
    pub identity_generation: Option<IdentityGeneration>,
    pub comment: Option<String>,
}

#[derive(Debug, Clone, Copy, PartialEq, Eq, Structural)]
pub enum IdentityGeneration {
    Always,
    ByDefault,
}

#[derive(Debug, Clone)]
pub struct PrimaryKey {
    pub name: Option<String>,
    pub columns: Vec<String>,
}

#[derive(Debug, Clone, Copy, PartialEq, Eq, Structural)]
pub enum ReferentialAction {
    NoAction,
    Restrict,
    Cascade,
    SetNull,
    SetDefault,
}

#[derive(Debug, Clone)]
pub struct ForeignKey {
    pub name: String,
    pub columns: Vec<String>,
    pub referenced_schema: String,
    pub referenced_table: String,
    pub referenced_columns: Vec<String>,
    pub on_delete: ReferentialAction,
    pub on_update: ReferentialAction,
}

#[derive(Debug, Clone)]
pub struct UniqueConstraint {
    pub name: String,
    pub columns: Vec<String>,
}

#[derive(Debug, Clone)]
pub struct CheckConstraint {
    pub name: String,
    pub expression: String,
}

/// A constraint that no two rows may conflict under the operators that
/// `definition` names.
#[derive(Debug, Clone)]
pub struct ExclusionConstraint {
    pub name: String,
    pub definition: String,
}

#[derive(Debug, Clone)]
pub struct IndexColumn {
    pub name: String,
    pub descending: bool,
}

#[derive(Debug, Clone)]
pub struct Index {
    pub name: String,
    pub columns: Vec<IndexColumn>,
    pub unique: bool,
    /// The engine's access method ("btree", "gin", "hash"), not normalized
    /// across engines.
    pub method: Option<String>,
}

#[derive(Debug, Clone, Copy, PartialEq, Eq, Structural)]
pub enum TriggerTiming {
    Before,
    After,
    InsteadOf,
}

#[derive(Debug, Clone, Copy, PartialEq, Eq, Structural)]
pub enum TriggerEvent {
    Insert,
    Update,
    Delete,
    Truncate,
}

/// Name, timing and events are normalized; the body is the engine's own text.
#[derive(Debug, Clone)]
pub struct Trigger {
    pub name: String,
    pub timing: TriggerTiming,
    pub events: Vec<TriggerEvent>,
    pub function_name: Option<String>,
    pub body: Option<String>,
}

/// A function or procedure; the body is the engine's own text.
#[derive(Debug, Clone)]
pub struct Function {
    pub schema: String,
    pub name: String,
    pub arguments: Vec<FunctionArgument>,
    pub return_type: Option<String>,
    pub language: String,
    pub body: Option<String>,
}

#[derive(Debug, Clone)]
pub struct FunctionArgument {
    pub name: Option<String>,
    pub native_type: String,
}

#[derive(Debug, Clone)]
pub struct View {
    pub schema: String,
    pub name: String,
    pub definition: String,
    pub columns: Vec<Column>,
}

#[derive(Debug, Clone)]
pub struct Sequence {
    pub schema: String,
    pub name: String,
    pub data_type: DataType,
    pub start_value: i64,
    pub increment: i64,
    pub min_value: Option<i64>,
    pub max_value: Option<i64>,
    pub cycle: bool,
}

} // verus!

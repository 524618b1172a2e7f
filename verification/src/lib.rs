//! DDBCore: an engine-agnostic database abstraction layer.
//!
//! The canonical model (types, schema, values), how an engine writes SQL, and
//! for each engine the rules that turn one into the other. Everything that
//! talks to a server stands outside this library and hands it plain values.
pub mod adapter;
pub mod case;
pub mod error;
pub mod mysql;
pub mod native_type;
pub mod number;
pub mod postgres;
pub mod reflect;
pub mod scalar;
pub mod schema;
pub mod sql;
pub mod testkit;
pub mod text;
pub mod types;
pub mod value;

pub use adapter::{
    ColumnDefinition, ConnectionConfig, ConstraintDefinition, Dialect, EncryptionMode,
    IndexDefinition, KeyRange, ParamStyle, StreamOptions, TableAlteration, TableDefinition,
    TransportSecurity,
};
pub use error::DdbCoreError;
pub use schema::{
    Catalog, CheckConstraint, Column, ExclusionConstraint, ForeignKey, Function, FunctionArgument,
    IdentityGeneration, Index, IndexColumn, PrimaryKey, ReferentialAction, Schema, Sequence, Table,
    TableRef, Trigger, TriggerEvent, TriggerTiming, UniqueConstraint, View,
};
pub use types::{DataType, TypeCategory};
pub use value::{Row, Value};

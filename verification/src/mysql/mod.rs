//! MySQL and MariaDB: type strings, DDL, reading and writing rows.
pub mod bulk;
pub mod catalog;
pub mod connection;
pub mod ddl;
pub mod definitions;
pub mod dialect;
pub mod kinds;
pub mod laws;
pub mod query;
pub mod reflect;
pub mod round_trip;
pub mod statements;
pub mod stream;
pub mod types;

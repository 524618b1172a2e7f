//! PostgreSQL: type strings, bulk data, reading rows.
pub mod bulk;
pub mod catalog;
pub mod connection;
pub mod dialect;
pub mod kinds;
pub mod laws;
pub mod lossless;
pub mod query;
pub mod reading;
pub mod reflect;
pub mod round_trip;
pub mod statements;
pub mod stream;
pub mod types;

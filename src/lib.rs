//! Persistence core of a small relational engine: a catalog of databases,
//! schemas, tables and columns, a fixed-layout typed row codec, and an
//! append-only heap file format.

pub mod le;
pub mod types;
pub mod codec;
pub mod catalog;
pub mod storage;
pub mod engine;
pub mod render;
mod clock;

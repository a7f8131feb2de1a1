//! Catalog metadata: databases, schemas, tables, columns and indexes.

pub mod column;
pub mod index;
pub mod table;
pub mod function;
pub mod name_map;
pub mod schema;
pub mod database;
pub mod global;

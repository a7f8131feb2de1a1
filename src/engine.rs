//! The bridge from the query planner's INSERT plans to heap files.

pub mod text;
pub mod plan;
pub mod uuid_text;
pub mod insert;

//! On-disk layout and the heap-file row format.

pub mod path;
pub mod heap;
pub mod header;

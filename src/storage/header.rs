//! A table header record as the storage layer lays it out.

use vstd::prelude::*;
use crate::catalog::column::Column;
use crate::catalog::index::Index;

verus! {

#[derive(Debug)]
pub struct TableHeader {
    pub rel_id: u32,
    pub rel_name: String,
    /// Id of the schema that owns the table.
    pub rel_namespace: u32,
    pub rel_type: Vec<Column>,
    pub rel_tuples: u32,
    pub rel_pages: u32,
    pub rel_page_size: u32,
    pub rel_indexes: Vec<Index>,
    /// Positions of the primary-key columns.
    pub primary_key_columns: Vec<u16>,
}

} // verus!

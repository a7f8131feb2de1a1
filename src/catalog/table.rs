//! Table metadata, stored in the table's header file.

use vstd::prelude::*;
use crate::catalog::column::{Column, Field, logical_type_of};
use crate::catalog::index::Index;

verus! {

/// Tuple count of a freshly created table.
pub const NEW_TABLE_TUPLES: u32 = 0;

/// Page count of a freshly created table.
pub const NEW_TABLE_PAGES: u32 = 1;

/// Page size of every table, in bytes.
pub const PAGE_SIZE: u32 = 8192;

#[derive(Debug)]
pub struct Table {
    pub tab_id: u32,
    pub tab_name: String,
    /// Id of the schema that owns the table.
    pub tab_namespace: u32,
    pub tab_tuples: u32,
    pub tab_pages: u32,
    pub tab_page_size: u32,
    /// Columns in row-layout order.
    pub tab_columns: Vec<Column>,
    pub tab_indexes: Vec<Index>,
}

impl Table {
    pub fn new(
        tab_id: u32,
        tab_name: String,
        tab_namespace: u32,
        tab_tuples: u32,
        tab_pages: u32,
        tab_page_size: u32,
        tab_columns: Vec<Column>,
        tab_indexes: Vec<Index>,
    ) -> (r: Self)
        ensures
            r.tab_id == tab_id,
            r.tab_name@ == tab_name@,
            r.tab_namespace == tab_namespace,
            r.tab_tuples == tab_tuples,
            r.tab_pages == tab_pages,
            r.tab_page_size == tab_page_size,
            r.tab_columns@ == tab_columns@,
            r.tab_indexes@ == tab_indexes@,
    {
        Table {
            tab_id,
            tab_name,
            tab_namespace,
            tab_tuples,
            tab_pages,
            tab_page_size,
            tab_columns,
            tab_indexes,
        }
    }

    /// The header of a table as CREATE TABLE writes it: no tuples, one page
    /// of [`PAGE_SIZE`] bytes, and the columns and indexes as given.
    pub fn created(
        tab_id: u32,
        tab_name: String,
        tab_namespace: u32,
        tab_columns: Vec<Column>,
        tab_indexes: Vec<Index>,
    ) -> (r: Self)
        ensures
            r.tab_id == tab_id,
            r.tab_name@ == tab_name@,
            r.tab_namespace == tab_namespace,
            r.tab_tuples == 0,
            r.tab_pages == 1,
            r.tab_page_size == 8192,
            r.tab_columns@ == tab_columns@,
            r.tab_indexes@ == tab_indexes@,
    {
        Table::new(
            tab_id,
            tab_name,
            tab_namespace,
            NEW_TABLE_TUPLES,
            NEW_TABLE_PAGES,
            PAGE_SIZE,
            tab_columns,
            tab_indexes,
        )
    }

    pub fn get_tab_id(&self) -> (r: u32)
        ensures
            r == self.tab_id,
    {
        self.tab_id
    }

    pub fn get_tab_name(&self) -> (r: String)
        ensures
            r@ == self.tab_name@,
    {
        self.tab_name.clone()
    }

    pub fn get_tab_namespace(&self) -> (r: u32)
        ensures
            r == self.tab_namespace,
    {
        self.tab_namespace
    }

    pub fn get_tab_tuples(&self) -> (r: u32)
        ensures
            r == self.tab_tuples,
    {
        self.tab_tuples
    }

    pub fn get_tab_pages(&self) -> (r: u32)
        ensures
            r == self.tab_pages,
    {
        self.tab_pages
    }

    pub fn get_tab_page_size(&self) -> (r: u32)
        ensures
            r == self.tab_page_size,
    {
        self.tab_page_size
    }

    pub fn get_tab_columns(&self) -> (r: &Vec<Column>)
        ensures
            r@ == self.tab_columns@,
    {
        &self.tab_columns
    }

    pub fn get_tab_indexes(&self) -> (r: &Vec<Index>)
        ensures
            r@ == self.tab_indexes@,
    {
        &self.tab_indexes
    }

    /// Appends a column at the end of the row layout.
    pub fn add_column(&mut self, column: Column)
        ensures
            final(self).tab_columns@ == old(self).tab_columns@.push(column),
            final(self).tab_indexes@ == old(self).tab_indexes@,
            final(self).tab_id == old(self).tab_id,
            final(self).tab_name == old(self).tab_name,
            final(self).tab_namespace == old(self).tab_namespace,
            final(self).tab_tuples == old(self).tab_tuples,
            final(self).tab_pages == old(self).tab_pages,
            final(self).tab_page_size == old(self).tab_page_size,
    {
        self.tab_columns.push(column);
    }

    pub fn add_index(&mut self, index: Index)
        ensures
            final(self).tab_indexes@ == old(self).tab_indexes@.push(index),
            final(self).tab_columns@ == old(self).tab_columns@,
            final(self).tab_id == old(self).tab_id,
            final(self).tab_name == old(self).tab_name,
            final(self).tab_namespace == old(self).tab_namespace,
            final(self).tab_tuples == old(self).tab_tuples,
            final(self).tab_pages == old(self).tab_pages,
            final(self).tab_page_size == old(self).tab_page_size,
    {
        self.tab_indexes.push(index);
    }

    /// The planner's view of the table's columns, in order; `None` when a
    /// column's type id names no type.
    pub fn to_arrow_schema(&self) -> (r: Option<Vec<Field>>)
        ensures
            r is None <==> exists|i: int|
                0 <= i < self.tab_columns@.len()
                    && (#[trigger] logical_type_of(self.tab_columns@[i].att_type_id)) is None,
            r matches Some(fs) ==> {
                &&& fs@.len() == self.tab_columns@.len()
                &&& forall|i: int|
                    0 <= i < fs@.len() ==> {
                        &&& (#[trigger] fs@[i]).name@ == self.tab_columns@[i].att_name@
                        &&& Some(fs@[i].data_type) == logical_type_of(
                            self.tab_columns@[i].att_type_id,
                        )
                        &&& fs@[i].nullable == !self.tab_columns@[i].att_not_null
                    }
            },
    {
        let mut fields: Vec<Field> = Vec::new();
        let mut i: usize = 0;
        while i < self.tab_columns.len()
            invariant
                i <= self.tab_columns@.len(),
                fields@.len() == i,
                forall|k: int|
                    0 <= k < i ==> logical_type_of(self.tab_columns@[k].att_type_id) is Some,
                forall|k: int|
                    0 <= k < i ==> {
                        &&& (#[trigger] fields@[k]).name@ == self.tab_columns@[k].att_name@
                        &&& Some(fields@[k].data_type) == logical_type_of(
                            self.tab_columns@[k].att_type_id,
                        )
                        &&& fields@[k].nullable == !self.tab_columns@[k].att_not_null
                    },
            decreases self.tab_columns@.len() - i,
        {
            match self.tab_columns[i].to_arrow_field() {
                Some(f) => fields.push(f),
                None => return None,
            }
            i = i + 1;
        }
        Some(fields)
    }
}

} // verus!

//! Index metadata. Only the description is kept; no index structure is built.

use vstd::prelude::*;

verus! {

#[derive(Debug, Clone)]
pub struct Index {
    pub idx_id: u32,
    /// Numeric id of the index's [`crate::types::IndexType`].
    pub idx_type: u8,
    pub idx_name: String,
    /// Path of the file that backs the index.
    pub idx_file: String,
    pub idx_tuples: u64,
    /// Positions of the indexed columns in the table's column list.
    pub idx_columns: Vec<u16>,
    pub idx_is_primary: bool,
}

impl Index {
    pub fn new(
        idx_id: u32,
        idx_type: u8,
        idx_name: String,
        idx_file: String,
        idx_tuples: u64,
        idx_columns: Vec<u16>,
        idx_is_primary: bool,
    ) -> (r: Self)
        ensures
            r.idx_id == idx_id,
            r.idx_type == idx_type,
            r.idx_name@ == idx_name@,
            r.idx_file@ == idx_file@,
            r.idx_tuples == idx_tuples,
            r.idx_columns@ == idx_columns@,
            r.idx_is_primary == idx_is_primary,
    {
        Index { idx_id, idx_type, idx_name, idx_file, idx_tuples, idx_columns, idx_is_primary }
    }

    pub fn get_idx_id(&self) -> (r: u32)
        ensures
            r == self.idx_id,
    {
        self.idx_id
    }

    pub fn get_idx_name(&self) -> (r: String)
        ensures
            r@ == self.idx_name@,
    {
        self.idx_name.clone()
    }

    pub fn get_idx_type(&self) -> (r: u8)
        ensures
            r == self.idx_type,
    {
        self.idx_type
    }

    pub fn get_idx_file(&self) -> (r: String)
        ensures
            r@ == self.idx_file@,
    {
        self.idx_file.clone()
    }

    pub fn get_idx_tuples(&self) -> (r: u64)
        ensures
            r == self.idx_tuples,
    {
        self.idx_tuples
    }

    pub fn get_idx_columns(&self) -> (r: Vec<u16>)
        ensures
            r@ == self.idx_columns@,
    {
        let mut out: Vec<u16> = Vec::new();
        let mut i: usize = 0;
        while i < self.idx_columns.len()
            invariant
                i <= self.idx_columns@.len(),
                out@ == self.idx_columns@.take(i as int),
            decreases self.idx_columns@.len() - i,
        {
            out.push(self.idx_columns[i]);
            i = i + 1;
            assert(out@ =~= self.idx_columns@.take(i as int));
        }
        assert(self.idx_columns@.take(i as int) =~= self.idx_columns@);
        out
    }

    pub fn get_idx_is_primary(&self) -> (r: bool)
        ensures
            r == self.idx_is_primary,
    {
        self.idx_is_primary
    }
}

} // verus!

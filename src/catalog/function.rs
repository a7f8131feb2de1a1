//! User-defined function metadata. Declared only: functions are not stored.

use vstd::prelude::*;

verus! {

#[derive(Debug, Clone)]
pub struct Function {
    pub fn_id: u32,
    pub fn_name: String,
    pub fn_type: String,
    pub fn_file_path: String,
}

} // verus!

//! One column of a table.

use vstd::prelude::*;
use crate::types::LogicalType;

verus! {

/// One column of a table. Its position in the table's column list fixes
/// where its bytes sit in each row.
#[derive(Debug, Clone)]
pub struct Column {
    pub att_name: String,
    /// Numeric id of the column's [`crate::types::DataTypeTag`].
    pub att_type_id: u8,
    /// Byte width for fixed types, character capacity for CHAR/VARCHAR.
    pub att_len: u32,
    pub att_not_null: bool,
    pub att_has_def: bool,
}

/// A column as the query planner sees it: name, logical type, nullability.
#[derive(Debug, Clone)]
pub struct Field {
    pub name: String,
    pub data_type: LogicalType,
    pub nullable: bool,
}

/// The logical type that the planner uses for column type `type_id`.
pub open spec fn logical_type_of(type_id: u8) -> Option<LogicalType> {
    if type_id == 1 {
        Some(LogicalType::Int16)
    } else if type_id == 2 {
        Some(LogicalType::Int32)
    } else if type_id == 3 {
        Some(LogicalType::Int64)
    } else if type_id == 4 {
        Some(LogicalType::Float64)
    } else if type_id == 5 || type_id == 6 || type_id == 8 || type_id == 12 {
        Some(LogicalType::Utf8)
    } else if type_id == 7 {
        Some(LogicalType::Boolean)
    } else if type_id == 9 {
        Some(LogicalType::Date32)
    } else if type_id == 10 {
        Some(LogicalType::Time64Microsecond)
    } else if type_id == 11 {
        Some(LogicalType::TimestampMicrosecondUtc)
    } else {
        None
    }
}

impl Column {
    pub fn new(
        att_name: String,
        att_type_id: u8,
        att_len: u32,
        att_not_null: bool,
        att_has_def: bool,
    ) -> (r: Self)
        ensures
            r.att_name@ == att_name@,
            r.att_type_id == att_type_id,
            r.att_len == att_len,
            r.att_not_null == att_not_null,
            r.att_has_def == att_has_def,
    {
        Column { att_name, att_type_id, att_len, att_not_null, att_has_def }
    }

    pub fn get_att_name(&self) -> (r: String)
        ensures
            r@ == self.att_name@,
    {
        self.att_name.clone()
    }

    pub fn get_att_type_id(&self) -> (r: u8)
        ensures
            r == self.att_type_id,
    {
        self.att_type_id
    }

    pub fn get_att_len(&self) -> (r: u32)
        ensures
            r == self.att_len,
    {
        self.att_len
    }

    pub fn get_att_not_null(&self) -> (r: bool)
        ensures
            r == self.att_not_null,
    {
        self.att_not_null
    }

    pub fn get_att_has_def(&self) -> (r: bool)
        ensures
            r == self.att_has_def,
    {
        self.att_has_def
    }

    /// The planner's view of this column: nullable unless declared NOT NULL.
    /// `None` when the column's type id names no type.
    pub fn to_arrow_field(&self) -> (r: Option<Field>)
        ensures
            r is None <==> logical_type_of(self.att_type_id) is None,
            r matches Some(f) ==> {
                &&& f.name@ == self.att_name@
                &&& Some(f.data_type) == logical_type_of(self.att_type_id)
                &&& f.nullable == !self.att_not_null
            },
    {
        let t = self.att_type_id;
        let data_type = if t == 1 {
            LogicalType::Int16
        } else if t == 2 {
            LogicalType::Int32
        } else if t == 3 {
            LogicalType::Int64
        } else if t == 4 {
            LogicalType::Float64
        } else if t == 5 || t == 6 || t == 8 || t == 12 {
            LogicalType::Utf8
        } else if t == 7 {
            LogicalType::Boolean
        } else if t == 9 {
            LogicalType::Date32
        } else if t == 10 {
            LogicalType::Time64Microsecond
        } else if t == 11 {
            LogicalType::TimestampMicrosecondUtc
        } else {
            return None;
        };
        Some(Field { name: self.att_name.clone(), data_type, nullable: !self.att_not_null })
    }
}

} // verus!

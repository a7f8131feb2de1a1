//! Column type tags, index type tags and the typed values stored in rows.

use vstd::prelude::*;

verus! {

/// The logical type of a column. Its numeric id is what a column stores.
#[derive(Debug, Clone, Copy, PartialEq, Eq, Structural)]
#[allow(non_camel_case_types)]
pub enum DataTypeTag {
    SMALLINT,
    INT,
    BIGINT,
    DOUBLE,
    CHAR,
    VARCHAR,
    BOOLEAN,
    UUID,
    DATE,
    TIME,
    /// Timestamp with time zone.
    TIMESTAMP,
    GEOMETRIC,
}

pub open spec fn tag_id_spec(t: DataTypeTag) -> u8 {
    match t {
        DataTypeTag::SMALLINT => 1,
        DataTypeTag::INT => 2,
        DataTypeTag::BIGINT => 3,
        DataTypeTag::DOUBLE => 4,
        DataTypeTag::CHAR => 5,
        DataTypeTag::VARCHAR => 6,
        DataTypeTag::BOOLEAN => 7,
        DataTypeTag::UUID => 8,
        DataTypeTag::DATE => 9,
        DataTypeTag::TIME => 10,
        DataTypeTag::TIMESTAMP => 11,
        DataTypeTag::GEOMETRIC => 12,
    }
}

impl DataTypeTag {
    /// The numeric id under which columns store this type.
    pub fn id(&self) -> (r: u8)
        ensures
            r == tag_id_spec(*self),
            1 <= r <= 12,
    {
        match self {
            DataTypeTag::SMALLINT => 1,
            DataTypeTag::INT => 2,
            DataTypeTag::BIGINT => 3,
            DataTypeTag::DOUBLE => 4,
            DataTypeTag::CHAR => 5,
            DataTypeTag::VARCHAR => 6,
            DataTypeTag::BOOLEAN => 7,
            DataTypeTag::UUID => 8,
            DataTypeTag::DATE => 9,
            DataTypeTag::TIME => 10,
            DataTypeTag::TIMESTAMP => 11,
            DataTypeTag::GEOMETRIC => 12,
        }
    }

    /// The type whose id is `id`, if there is one.
    pub fn from_id(id: u8) -> (r: Option<DataTypeTag>)
        ensures
            r matches Some(t) ==> tag_id_spec(t) == id,
            r is None <==> !(1 <= id <= 12),
    {
        match id {
            1 => Some(DataTypeTag::SMALLINT),
            2 => Some(DataTypeTag::INT),
            3 => Some(DataTypeTag::BIGINT),
            4 => Some(DataTypeTag::DOUBLE),
            5 => Some(DataTypeTag::CHAR),
            6 => Some(DataTypeTag::VARCHAR),
            7 => Some(DataTypeTag::BOOLEAN),
            8 => Some(DataTypeTag::UUID),
            9 => Some(DataTypeTag::DATE),
            10 => Some(DataTypeTag::TIME),
            11 => Some(DataTypeTag::TIMESTAMP),
            12 => Some(DataTypeTag::GEOMETRIC),
            _ => None,
        }
    }
}

/// Kind of an index structure. Declared only: no index is built here.
#[derive(Debug, Clone, Copy, PartialEq, Eq, Structural)]
pub enum IndexType {
    Sequential,
    AVL,
    ISAM,
    HashingExtensible,
    BPlusTree,
    RTree,
}

impl IndexType {
    /// The numeric id under which indexes store this type (1 to 6).
    pub fn id(&self) -> (r: u8)
        ensures
            1 <= r <= 6,
            *self == IndexType::Sequential <==> r == 1,
            *self == IndexType::AVL <==> r == 2,
            *self == IndexType::ISAM <==> r == 3,
            *self == IndexType::HashingExtensible <==> r == 4,
            *self == IndexType::BPlusTree <==> r == 5,
            *self == IndexType::RTree <==> r == 6,
    {
        match self {
            IndexType::Sequential => 1,
            IndexType::AVL => 2,
            IndexType::ISAM => 3,
            IndexType::HashingExtensible => 4,
            IndexType::BPlusTree => 5,
            IndexType::RTree => 6,
        }
    }
}

/// A typed value of one column of one row.
#[derive(Debug, Clone)]
pub enum DataValue {
    SmallInt(i16),
    Int(i32),
    BigInt(i64),
    /// The IEEE-754 binary64 bit pattern of the value.
    Double(u64),
    Char(Vec<u8>),
    VarChar(Vec<u8>),
    Bool(bool),
    Uuid([u8; 16]),
    /// Days, as the planner hands them over.
    Date(i32),
    Time(i64),
    Timestamp(i64),
}

/// Mathematical form of a [`DataValue`].
pub enum ValueView {
    SmallInt(i16),
    Int(i32),
    BigInt(i64),
    Double(u64),
    Char(Seq<u8>),
    VarChar(Seq<u8>),
    Bool(bool),
    Uuid(Seq<u8>),
    Date(i32),
    Time(i64),
    Timestamp(i64),
}

impl View for DataValue {
    type V = ValueView;

    open spec fn view(&self) -> ValueView {
        match self {
            DataValue::SmallInt(v) => ValueView::SmallInt(*v),
            DataValue::Int(v) => ValueView::Int(*v),
            DataValue::BigInt(v) => ValueView::BigInt(*v),
            DataValue::Double(v) => ValueView::Double(*v),
            DataValue::Char(b) => ValueView::Char(b@),
            DataValue::VarChar(b) => ValueView::VarChar(b@),
            DataValue::Bool(v) => ValueView::Bool(*v),
            DataValue::Uuid(b) => ValueView::Uuid(b@),
            DataValue::Date(v) => ValueView::Date(*v),
            DataValue::Time(v) => ValueView::Time(*v),
            DataValue::Timestamp(v) => ValueView::Timestamp(*v),
        }
    }
}

/// The view of a sequence of values.
pub open spec fn values_view(s: Seq<DataValue>) -> Seq<ValueView> {
    s.map_values(|v: DataValue| v@)
}

/// Logical column types of the query planner that columns map onto.
#[derive(Debug, Clone, Copy, PartialEq, Eq, Structural)]
pub enum LogicalType {
    Int16,
    Int32,
    Int64,
    Float64,
    Utf8,
    Boolean,
    Date32,
    Time64Microsecond,
    TimestampMicrosecondUtc,
}

/// Broad class of a SQL statement.
#[derive(Debug, Clone, Copy, PartialEq, Eq, Structural)]
pub enum StatementType {
    DML,
    DDL,
    OTHER,
}

} // verus!

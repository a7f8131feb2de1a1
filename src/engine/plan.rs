//! The planner's logical plans, as far as this engine executes them.

use vstd::prelude::*;

verus! {

/// A fully or partly qualified table reference: `catalog.schema.table`.
#[derive(Debug)]
pub struct TableReference {
    /// The database name, when the reference names one.
    pub catalog: Option<String>,
    /// The schema name, when the reference names one.
    pub schema: Option<String>,
    pub table: String,
}

/// One expression of a VALUES row.
#[derive(Debug)]
pub enum PlanExpr {
    /// A literal under a type cast, in the planner's text form. For the
    /// benefit of DOUBLE columns, `float_bits` holds the IEEE-754 binary64
    /// bits of the text read as a float, when it reads as one.
    CastLiteral { text: String, float_bits: Option<u64> },
    /// Any other expression. It yields no value.
    Other,
}

/// A logical plan: an INSERT of literal rows, or anything else.
#[derive(Debug)]
pub enum LogicalPlan {
    /// `INSERT INTO table VALUES rows`.
    Insert { table: TableReference, rows: Vec<Vec<PlanExpr>> },
    /// Any other plan, with the planner's description of it.
    Unsupported(String),
}

} // verus!

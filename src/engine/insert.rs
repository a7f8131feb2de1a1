//! Execution of literal INSERT plans: literals become typed values by their
//! column's type, and rows go to the table's heap file.

use vstd::prelude::*;
use vstd::slice::slice_to_vec;
use vstd::utf8::encode_utf8;
use crate::catalog::column::Column;
use crate::engine::plan::{LogicalPlan, PlanExpr, TableReference};
use crate::storage::path::{FilePath, PathBuilder, table_header_of};
use crate::engine::text::{integer_in, parse_integer, parse_bool};
use crate::engine::uuid_text::{parse_uuid, parsed_uuid};
use crate::storage::heap::{HeapFile, encode_rows};
use crate::types::{DataValue, ValueView, values_view};

verus! {

/// Why a plan could not be executed.
#[derive(Debug, Clone)]
pub enum ExecError {
    /// The plan is not a literal INSERT; holds the planner's description.
    Unsupported(String),
    /// The table reference names no database; holds the table name.
    MissingDatabase(String),
    /// The table reference names no schema; holds the table name.
    MissingSchema(String),
    /// The table is not in the catalog; holds the table name.
    UnknownTable(String),
    /// A literal does not read as a value of its column's type.
    Conversion { type_id: u8, text: String },
    /// The column's type has no values (GEOMETRIC, or no type at all).
    UnsupportedType(u8),
}

/// The value that literal text `text` gives in a column of type `type_id`;
/// `None` when it reads as no value of that type. DOUBLE columns take the
/// bits that the planner read, `float_bits`.
pub open spec fn literal_value(text: Seq<char>, float_bits: Option<u64>, type_id: u8) -> Option<
    ValueView,
> {
    if type_id == 1 {
        match integer_in(text, -0x8000, 0x7fff) {
            Some(v) => Some(ValueView::SmallInt(v as i16)),
            None => None,
        }
    } else if type_id == 2 {
        match integer_in(text, -0x8000_0000, 0x7fff_ffff) {
            Some(v) => Some(ValueView::Int(v as i32)),
            None => None,
        }
    } else if type_id == 3 {
        match integer_in(text, i64::MIN as int, i64::MAX as int) {
            Some(v) => Some(ValueView::BigInt(v as i64)),
            None => None,
        }
    } else if type_id == 4 {
        match float_bits {
            Some(b) => Some(ValueView::Double(b)),
            None => None,
        }
    } else if type_id == 5 {
        Some(ValueView::Char(encode_utf8(text)))
    } else if type_id == 6 {
        Some(ValueView::VarChar(encode_utf8(text)))
    } else if type_id == 7 {
        if text == "true"@ {
            Some(ValueView::Bool(true))
        } else if text == "false"@ {
            Some(ValueView::Bool(false))
        } else {
            None
        }
    } else if type_id == 8 {
        match parsed_uuid(text) {
            Some(b) => Some(ValueView::Uuid(b)),
            None => None,
        }
    } else if type_id == 9 {
        match integer_in(text, -0x8000_0000, 0x7fff_ffff) {
            Some(v) => Some(ValueView::Date(v as i32)),
            None => None,
        }
    } else if type_id == 10 {
        match integer_in(text, i64::MIN as int, i64::MAX as int) {
            Some(v) => Some(ValueView::Time(v as i64)),
            None => None,
        }
    } else if type_id == 11 {
        match integer_in(text, i64::MIN as int, i64::MAX as int) {
            Some(v) => Some(ValueView::Timestamp(v as i64)),
            None => None,
        }
    } else {
        None
    }
}

/// The values of the first `n` expressions of a VALUES row, paired with the
/// table's columns by position. Expressions other than cast literals give no
/// value; a literal that reads as no value fails the row.
pub open spec fn row_values(exprs: Seq<PlanExpr>, cols: Seq<Column>, n: nat) -> Option<
    Seq<ValueView>,
>
    decreases n,
{
    if n == 0 {
        Some(Seq::empty())
    } else {
        match row_values(exprs, cols, (n - 1) as nat) {
            None => None,
            Some(vs) => match exprs[n - 1] {
                PlanExpr::CastLiteral { text, float_bits } => match literal_value(
                    text@,
                    float_bits,
                    cols[n - 1].att_type_id,
                ) {
                    Some(v) => Some(vs.push(v)),
                    None => None,
                },
                PlanExpr::Other => Some(vs),
            },
        }
    }
}

/// The values of a VALUES row, as far as the shorter of the row and the
/// column list goes.
pub open spec fn row_of(exprs: Seq<PlanExpr>, cols: Seq<Column>) -> Option<Seq<ValueView>> {
    row_values(exprs, cols, if exprs.len() <= cols.len() { exprs.len() } else { cols.len() })
}

/// The values of the first `n` rows; the first row that fails fails all.
pub open spec fn rows_values(rows: Seq<Vec<PlanExpr>>, cols: Seq<Column>, n: nat) -> Option<
    Seq<Seq<ValueView>>,
>
    decreases n,
{
    if n == 0 {
        Some(Seq::empty())
    } else {
        match rows_values(rows, cols, (n - 1) as nat) {
            None => None,
            Some(vs) => match row_of(rows[n - 1]@, cols) {
                Some(r) => Some(vs.push(r)),
                None => None,
            },
        }
    }
}

/// The value that literal text `text` gives in a column of type `type_id`.
/// DOUBLE columns take `float_bits`, the bits that the planner read.
pub fn literal_to_value(text: &String, float_bits: Option<u64>, type_id: u8) -> (r: Result<
    DataValue,
    ExecError,
>)
    ensures
        r matches Ok(v) ==> literal_value(text@, float_bits, type_id) == Some(v@),
        r is Err ==> literal_value(text@, float_bits, type_id) is None,
        r matches Err(ExecError::UnsupportedType(t)) <==> !(1 <= type_id <= 11),
        r matches Err(ExecError::UnsupportedType(t)) ==> t == type_id,
        r matches Err(ExecError::Conversion { type_id: t, text: s }) ==> t == type_id && s@ == text@,
        r is Err ==> (r matches Err(ExecError::UnsupportedType(_)) || r matches Err(
            ExecError::Conversion { .. },
        )),
{
    let s = text.as_str();
    let failed = ExecError::Conversion { type_id, text: text.clone() };
    if type_id == 1 {
        match parse_integer(s, -0x8000, 0x7fff) {
            Some(v) => Ok(DataValue::SmallInt(v as i16)),
            None => Err(failed),
        }
    } else if type_id == 2 {
        match parse_integer(s, -0x8000_0000, 0x7fff_ffff) {
            Some(v) => Ok(DataValue::Int(v as i32)),
            None => Err(failed),
        }
    } else if type_id == 3 {
        match parse_integer(s, i64::MIN, i64::MAX) {
            Some(v) => Ok(DataValue::BigInt(v)),
            None => Err(failed),
        }
    } else if type_id == 4 {
        match float_bits {
            Some(b) => Ok(DataValue::Double(b)),
            None => Err(failed),
        }
    } else if type_id == 5 {
        Ok(DataValue::Char(slice_to_vec(s.as_bytes())))
    } else if type_id == 6 {
        Ok(DataValue::VarChar(slice_to_vec(s.as_bytes())))
    } else if type_id == 7 {
        match parse_bool(s) {
            Some(b) => Ok(DataValue::Bool(b)),
            None => Err(failed),
        }
    } else if type_id == 8 {
        match parse_uuid(s) {
            Some(b) => Ok(DataValue::Uuid(b)),
            None => Err(failed),
        }
    } else if type_id == 9 {
        match parse_integer(s, -0x8000_0000, 0x7fff_ffff) {
            Some(v) => Ok(DataValue::Date(v as i32)),
            None => Err(failed),
        }
    } else if type_id == 10 {
        match parse_integer(s, i64::MIN, i64::MAX) {
            Some(v) => Ok(DataValue::Time(v)),
            None => Err(failed),
        }
    } else if type_id == 11 {
        match parse_integer(s, i64::MIN, i64::MAX) {
            Some(v) => Ok(DataValue::Timestamp(v)),
            None => Err(failed),
        }
    } else {
        Err(ExecError::UnsupportedType(type_id))
    }
}

/// The values of one VALUES row, paired with `cols` by position.
pub fn expr_to_data_value(exprs: &Vec<PlanExpr>, cols: &Vec<Column>) -> (r: Result<
    Vec<DataValue>,
    ExecError,
>)
    ensures
        r matches Ok(vs) ==> row_of(exprs@, cols@) == Some(values_view(vs@)),
        r is Err ==> row_of(exprs@, cols@) is None,
        r is Err ==> (r matches Err(ExecError::UnsupportedType(_)) || r matches Err(
            ExecError::Conversion { .. },
        )),
{
    let n = if exprs.len() <= cols.len() {
        exprs.len()
    } else {
        cols.len()
    };
    let mut row: Vec<DataValue> = Vec::new();
    assert(values_view(row@) =~= Seq::<ValueView>::empty());
    let mut i: usize = 0;
    while i < n
        invariant
            i <= n,
            n <= exprs@.len(),
            n <= cols@.len(),
            n == (if exprs@.len() <= cols@.len() { exprs@.len() } else { cols@.len() }),
            row_values(exprs@, cols@, i as nat) == Some(values_view(row@)),
        decreases n - i,
    {
        match &exprs[i] {
            PlanExpr::CastLiteral { text, float_bits } => {
                match literal_to_value(text, *float_bits, cols[i].att_type_id) {
                    Ok(v) => {
                        let ghost before = row@;
                        row.push(v);
                        assert(values_view(row@) =~= values_view(before).push(v@));
                    },
                    Err(e) => {
                        proof {
                            lemma_row_failure_persists(exprs@, cols@, (i + 1) as nat, n as nat);
                        }
                        return Err(e);
                    },
                }
            },
            PlanExpr::Other => {},
        }
        i = i + 1;
    }
    Ok(row)
}

proof fn lemma_row_failure_persists(exprs: Seq<PlanExpr>, cols: Seq<Column>, m: nat, n: nat)
    requires
        m <= n,
        row_values(exprs, cols, m) is None,
    ensures
        row_values(exprs, cols, n) is None,
    decreases n,
{
    if m < n {
        lemma_row_failure_persists(exprs, cols, m, (n - 1) as nat);
    }
}

proof fn lemma_rows_failure_persists(rows: Seq<Vec<PlanExpr>>, cols: Seq<Column>, m: nat, n: nat)
    requires
        m <= n,
        rows_values(rows, cols, m) is None,
    ensures
        rows_values(rows, cols, n) is None,
    decreases n,
{
    if m < n {
        lemma_rows_failure_persists(rows, cols, m, (n - 1) as nat);
    }
}

/// Where the header of the table that `reference` names is stored. Only a
/// fully qualified reference (`database.schema.table`) names a table.
pub fn table_header_path(paths: &PathBuilder, reference: &TableReference) -> (r: Result<
    FilePath,
    ExecError,
>)
    ensures
        reference.catalog is None ==> (r matches Err(ExecError::MissingDatabase(t)) && t@
            == reference.table@),
        (reference.catalog is Some && reference.schema is None) ==> (r matches Err(
            ExecError::MissingSchema(t),
        ) && t@ == reference.table@),
        (reference.catalog is Some && reference.schema is Some) ==> (r matches Ok(p) && p@
            == table_header_of(
            paths.base_dir@,
            reference.catalog->Some_0@,
            reference.schema->Some_0@,
            reference.table@,
        )),
{
    match &reference.catalog {
        None => Err(ExecError::MissingDatabase(reference.table.clone())),
        Some(db) => match &reference.schema {
            None => Err(ExecError::MissingSchema(reference.table.clone())),
            Some(sch) => Ok(paths.table_header(db.as_str(), sch.as_str(), reference.table.as_str())),
        },
    }
}

/// A literal INSERT into one table.
#[derive(Debug)]
pub struct Insert {
    pub db_name: String,
    pub sch_name: String,
    pub tab_name: String,
    /// The VALUES rows, in order.
    pub rows: Vec<Vec<PlanExpr>>,
}

impl Insert {
    pub fn new(db_name: String, sch_name: String, tab_name: String, rows: Vec<Vec<PlanExpr>>) -> (r: Self)
        ensures
            r.db_name@ == db_name@,
            r.sch_name@ == sch_name@,
            r.tab_name@ == tab_name@,
            r.rows@ == rows@,
    {
        Insert { db_name, sch_name, tab_name, rows }
    }

    /// The INSERT that `plan` asks for. Any plan that is not a literal
    /// INSERT is refused with the planner's description of it; so is an
    /// INSERT whose table reference lacks its database or schema.
    pub fn from_plan(plan: LogicalPlan) -> (r: Result<Insert, ExecError>)
        ensures
            plan matches LogicalPlan::Unsupported(d) ==> (r matches Err(ExecError::Unsupported(e))
                && e@ == d@),
            plan matches LogicalPlan::Insert { table, rows } ==> {
                &&& table.catalog is None ==> (r matches Err(ExecError::MissingDatabase(t)) && t@
                    == table.table@)
                &&& (table.catalog is Some && table.schema is None) ==> (r matches Err(
                    ExecError::MissingSchema(t),
                ) && t@ == table.table@)
                &&& (table.catalog is Some && table.schema is Some) ==> (r matches Ok(ins) && {
                    &&& ins.db_name@ == table.catalog->Some_0@
                    &&& ins.sch_name@ == table.schema->Some_0@
                    &&& ins.tab_name@ == table.table@
                    &&& ins.rows@ == rows@
                })
            },
    {
        match plan {
            LogicalPlan::Unsupported(d) => Err(ExecError::Unsupported(d)),
            LogicalPlan::Insert { table, rows } => {
                let db = match table.catalog {
                    Some(db) => db,
                    None => return Err(ExecError::MissingDatabase(table.table)),
                };
                let sch = match table.schema {
                    Some(sch) => sch,
                    None => return Err(ExecError::MissingSchema(table.table)),
                };
                Ok(Insert::new(db, sch, table.table, rows))
            },
        }
    }

    /// Converts every row by the heap's table columns and, only when all of
    /// them convert, appends them to the heap in order. On failure the heap
    /// is left as it was.
    pub fn execute(&self, heap: &mut HeapFile) -> (r: Result<(), ExecError>)
        ensures
            final(heap).table_info == old(heap).table_info,
            ({
                let cols = old(heap).table_info.tab_columns@;
                match rows_values(self.rows@, cols, self.rows@.len()) {
                    Some(vals) => r is Ok && final(heap).pending@ == old(heap).pending@
                        + encode_rows(vals, cols, vals.len()),
                    None => r is Err && final(heap).pending@ == old(heap).pending@,
                }
            }),
            r is Err ==> (r matches Err(ExecError::UnsupportedType(_)) || r matches Err(
                ExecError::Conversion { .. },
            )),
    {
        let ghost cols = heap.table_info.tab_columns@;
        let mut converted: Vec<Vec<DataValue>> = Vec::new();
        let mut i: usize = 0;
        while i < self.rows.len()
            invariant
                i <= self.rows@.len(),
                cols == heap.table_info.tab_columns@,
                heap == old(heap),
                converted@.len() == i,
                rows_values(self.rows@, cols, i as nat) == Some(
                    converted@.map_values(|r: Vec<DataValue>| values_view(r@)),
                ),
            decreases self.rows@.len() - i,
        {
            match expr_to_data_value(&self.rows[i], &heap.table_info.tab_columns) {
                Ok(row) => {
                    let ghost before = converted@;
                    converted.push(row);
                    assert(converted@.map_values(|r: Vec<DataValue>| values_view(r@)) =~= before.map_values(
                        |r: Vec<DataValue>| values_view(r@),
                    ).push(values_view(row@)));
                },
                Err(e) => {
                    proof {
                        lemma_rows_failure_persists(self.rows@, cols, (i + 1) as nat, self.rows@.len());
                    }
                    return Err(e);
                },
            }
            i = i + 1;
        }
        let ghost all = converted@;
        let ghost vals = all.map_values(|r: Vec<DataValue>| values_view(r@));
        let ghost start = heap.pending@;
        let ghost mut k: int = 0;
        while converted.len() > 0
            invariant
                0 <= k <= all.len(),
                converted@ == all.subrange(k, all.len() as int),
                vals.len() == all.len(),
                vals == all.map_values(|r: Vec<DataValue>| values_view(r@)),
                cols == heap.table_info.tab_columns@,
                heap.table_info == old(heap).table_info,
                heap.pending@ == start + encode_rows(vals, cols, k as nat),
            decreases converted@.len(),
        {
            let row = converted.remove(0);
            assert(row == all[k]);
            assert(values_view(row@) == vals[k]);
            heap.insert_row(row);
            proof {
                k = k + 1;
            }
            assert(converted@ =~= all.subrange(k, all.len() as int));
            assert(heap.pending@ =~= start + encode_rows(vals, cols, k as nat));
        }
        assert(k == all.len());
        Ok(())
    }
}

} // verus!

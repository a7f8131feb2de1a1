//! Display text of typed values and of execution errors.

use vstd::prelude::*;
use vstd::string::StringExecFns;
use crate::engine::insert::ExecError;
use crate::engine::text::{decimal_of, decimal_text};
use crate::engine::uuid_text::{hyphenated, uuid_to_text};
use crate::types::{DataValue, ValueView};

verus! {

/// The text of the bytes `b` read as UTF-8, each invalid sequence replaced
/// by U+FFFD.
pub uninterp spec fn lossy_text(b: Seq<u8>) -> Seq<char>;

/// Relies on `String::from_utf8_lossy`: the text of `b` read as UTF-8 with
/// each invalid sequence replaced by U+FFFD; it depends on the bytes alone.
#[verifier::external_body]
fn utf8_lossy(b: &Vec<u8>) -> (r: String)
    ensures
        r@ == lossy_text(b@),
{
    String::from_utf8_lossy(b).into_owned()
}

/// Display text of a value that is not a DOUBLE: integers and temporal
/// values in decimal, booleans as `true`/`false`, CHAR/VARCHAR bytes as
/// UTF-8 text, UUIDs in hyphenated form.
pub open spec fn value_text(v: ValueView) -> Seq<char> {
    match v {
        ValueView::SmallInt(x) => decimal_of(x as int),
        ValueView::Int(x) => decimal_of(x as int),
        ValueView::BigInt(x) => decimal_of(x as int),
        ValueView::Double(_) => Seq::empty(),
        ValueView::Char(b) => lossy_text(b),
        ValueView::VarChar(b) => lossy_text(b),
        ValueView::Bool(b) => if b {
            "true"@
        } else {
            "false"@
        },
        ValueView::Uuid(b) => hyphenated(b),
        ValueView::Date(x) => decimal_of(x as int),
        ValueView::Time(x) => decimal_of(x as int),
        ValueView::Timestamp(x) => decimal_of(x as int),
    }
}

impl DataValue {
    /// Display text of the value. A DOUBLE is displayed from its float
    /// value, which this crate does not handle; it is left to the caller.
    pub fn to_string(&self) -> (r: String)
        requires
            !(self is Double),
        ensures
            r@ == value_text(self@),
    {
        match self {
            DataValue::SmallInt(v) => decimal_text(*v as i64),
            DataValue::Int(v) => decimal_text(*v as i64),
            DataValue::BigInt(v) => decimal_text(*v),
            DataValue::Double(_) => String::new(),
            DataValue::Char(b) => utf8_lossy(b),
            DataValue::VarChar(b) => utf8_lossy(b),
            DataValue::Bool(b) => if *b {
                String::from_str("true")
            } else {
                String::from_str("false")
            },
            DataValue::Uuid(b) => uuid_to_text(b),
            DataValue::Date(v) => decimal_text(*v as i64),
            DataValue::Time(v) => decimal_text(*v),
            DataValue::Timestamp(v) => decimal_text(*v),
        }
    }
}

fn joined(a: &str, b: &str) -> (r: String)
    ensures
        r@ == a@ + b@,
{
    let mut s = String::from_str(a);
    s.append(b);
    s
}

impl ExecError {
    /// A sentence that says what went wrong.
    pub fn message(&self) -> (r: String)
        ensures
            self matches ExecError::Unsupported(d) ==> r@ == "Planner not supported: "@ + d@,
            self matches ExecError::MissingDatabase(t) ==> r@ == "Database not found for table: "@ + t@,
            self matches ExecError::MissingSchema(t) ==> r@ == "Schema not found for table: "@ + t@,
            self matches ExecError::UnknownTable(t) ==> r@ == "Table not found: "@ + t@,
            self matches ExecError::Conversion { type_id, text } ==> r@ == "Literal does not fit column type "@
                + decimal_of(*type_id as int) + ": "@ + text@,
            self matches ExecError::UnsupportedType(t) ==> r@ == "Column type has no values: "@
                + decimal_of(*t as int),
    {
        match self {
            ExecError::Unsupported(d) => joined("Planner not supported: ", d.as_str()),
            ExecError::MissingDatabase(t) => joined("Database not found for table: ", t.as_str()),
            ExecError::MissingSchema(t) => joined("Schema not found for table: ", t.as_str()),
            ExecError::UnknownTable(t) => joined("Table not found: ", t.as_str()),
            ExecError::Conversion { type_id, text } => {
                let mut s = String::from_str("Literal does not fit column type ");
                let id = decimal_text(*type_id as i64);
                s.append(id.as_str());
                s.append(": ");
                s.append(text.as_str());
                s
            },
            ExecError::UnsupportedType(t) => {
                let mut s = String::from_str("Column type has no values: ");
                let id = decimal_text(*t as i64);
                s.append(id.as_str());
                s
            },
        }
    }
}

} // verus!

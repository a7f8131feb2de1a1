use relstore::catalog::column::Column;
use relstore::catalog::table::Table;
use relstore::engine::insert::{expr_to_data_value, literal_to_value, table_header_path, ExecError, Insert};
use relstore::engine::plan::{LogicalPlan, PlanExpr, TableReference};
use relstore::engine::text::{decimal_text, parse_bool, parse_integer, same_text};
use relstore::storage::heap::HeapFile;
use relstore::storage::path::{FilePath, PathBuilder};
use relstore::types::DataValue;

fn lit(text: &str) -> PlanExpr {
    PlanExpr::CastLiteral { text: text.to_string(), float_bits: text.parse::<f64>().ok().map(f64::to_bits) }
}

fn user_table() -> Table {
    let columns = vec![
        Column::new("id".to_string(), 2, 4, true, false),
        Column::new("name".to_string(), 6, 45, true, false),
        Column::new("last_name".to_string(), 6, 45, true, false),
    ];
    Table::created(1, "user".to_string(), 1, columns, vec![])
}

fn full_ref(table: &str) -> TableReference {
    TableReference { catalog: Some("crunchy".to_string()), schema: Some("store".to_string()), table: table.to_string() }
}

#[test]
fn integers_read_like_from_str() {
    assert_eq!(parse_integer("42", -100, 100), Some(42));
    assert_eq!(parse_integer("-7", -100, 100), Some(-7));
    assert_eq!(parse_integer("+7", -100, 100), Some(7));
    assert_eq!(parse_integer("007", -100, 100), Some(7));
    assert_eq!(parse_integer("101", -100, 100), None);
    assert_eq!(parse_integer("", -100, 100), None);
    assert_eq!(parse_integer("-", -100, 100), None);
    assert_eq!(parse_integer("1a", -100, 100), None);
    assert_eq!(parse_integer(" 1", -100, 100), None);
    assert_eq!(parse_integer("-9223372036854775808", i64::MIN, i64::MAX), Some(i64::MIN));
    assert_eq!(parse_integer("9223372036854775808", i64::MIN, i64::MAX), None);
    assert_eq!(parse_integer("99999999999999999999999999", i64::MIN, i64::MAX), None);
}

#[test]
fn booleans_and_text_compare() {
    assert_eq!(parse_bool("true"), Some(true));
    assert_eq!(parse_bool("false"), Some(false));
    assert_eq!(parse_bool("True"), None);
    assert!(same_text("abc", "abc"));
    assert!(!same_text("abc", "abd"));
    assert_eq!(decimal_text(-905), "-905");
    assert_eq!(decimal_text(0), "0");
}

#[test]
fn literals_convert_by_column_type() {
    assert!(matches!(literal_to_value(&"1".to_string(), None, 1), Ok(DataValue::SmallInt(1))));
    assert!(matches!(literal_to_value(&"70000".to_string(), None, 1), Err(ExecError::Conversion { type_id: 1, .. })));
    assert!(matches!(literal_to_value(&"-5".to_string(), None, 2), Ok(DataValue::Int(-5))));
    assert!(matches!(literal_to_value(&"5000000000".to_string(), None, 3), Ok(DataValue::BigInt(5000000000))));
    match literal_to_value(&"2.5".to_string(), Some(2.5f64.to_bits()), 4) {
        Ok(DataValue::Double(b)) => assert_eq!(f64::from_bits(b), 2.5),
        other => panic!("{:?}", other),
    }
    assert!(matches!(literal_to_value(&"x".to_string(), None, 4), Err(ExecError::Conversion { type_id: 4, .. })));
    match literal_to_value(&"José".to_string(), None, 6) {
        Ok(DataValue::VarChar(b)) => assert_eq!(b, "José".as_bytes().to_vec()),
        other => panic!("{:?}", other),
    }
    match literal_to_value(&"ab".to_string(), None, 5) {
        Ok(DataValue::Char(b)) => assert_eq!(b, b"ab".to_vec()),
        other => panic!("{:?}", other),
    }
    assert!(matches!(literal_to_value(&"true".to_string(), None, 7), Ok(DataValue::Bool(true))));
    assert!(matches!(literal_to_value(&"yes".to_string(), None, 7), Err(ExecError::Conversion { .. })));
    match literal_to_value(&"550e8400-e29b-41d4-a716-446655440000".to_string(), None, 8) {
        Ok(DataValue::Uuid(b)) => {
            assert_eq!(b[0], 0x55);
            assert_eq!(b[15], 0x00);
            assert_eq!(b[6], 0x41);
        },
        other => panic!("{:?}", other),
    }
    assert!(matches!(literal_to_value(&"not-a-uuid".to_string(), None, 8), Err(ExecError::Conversion { .. })));
    assert!(matches!(literal_to_value(&"19000".to_string(), None, 9), Ok(DataValue::Date(19000))));
    assert!(matches!(literal_to_value(&"-1".to_string(), None, 10), Ok(DataValue::Time(-1))));
    assert!(matches!(literal_to_value(&"12".to_string(), None, 11), Ok(DataValue::Timestamp(12))));
    assert!(matches!(literal_to_value(&"1".to_string(), None, 12), Err(ExecError::UnsupportedType(12))));
    assert!(matches!(literal_to_value(&"1".to_string(), None, 0), Err(ExecError::UnsupportedType(0))));
}

#[test]
fn rows_convert_positionally() {
    let t = user_table();
    let row = expr_to_data_value(&vec![lit("1"), lit("Ana"), lit("Pérez")], t.get_tab_columns()).unwrap();
    assert_eq!(row.len(), 3);
    assert!(matches!(row[0], DataValue::Int(1)));
    let short = expr_to_data_value(&vec![lit("1"), PlanExpr::Other, lit("x")], t.get_tab_columns()).unwrap();
    assert_eq!(short.len(), 2);
    assert!(matches!(
        expr_to_data_value(&vec![lit("one"), lit("a"), lit("b")], t.get_tab_columns()),
        Err(ExecError::Conversion { type_id: 2, .. })
    ));
}

#[test]
fn unsupported_plan_is_refused_with_a_message() {
    let r = Insert::from_plan(LogicalPlan::Unsupported("Projection: users.name".to_string()));
    match r {
        Err(e) => {
            assert!(matches!(e, ExecError::Unsupported(_)));
            assert_eq!(e.message(), "Planner not supported: Projection: users.name");
        },
        Ok(_) => panic!("accepted"),
    }
}

#[test]
fn insert_needs_qualified_table() {
    let plan = LogicalPlan::Insert {
        table: TableReference { catalog: None, schema: None, table: "user".to_string() },
        rows: vec![],
    };
    match Insert::from_plan(plan) {
        Err(e) => assert_eq!(e.message(), "Database not found for table: user"),
        Ok(_) => panic!("accepted"),
    }
    let plan = LogicalPlan::Insert {
        table: TableReference { catalog: Some("crunchy".to_string()), schema: None, table: "user".to_string() },
        rows: vec![],
    };
    assert!(matches!(Insert::from_plan(plan), Err(ExecError::MissingSchema(_))));
}

#[test]
fn insert_plan_writes_rows_to_heap() {
    let plan = LogicalPlan::Insert {
        table: full_ref("user"),
        rows: vec![vec![lit("1"), lit("a"), lit("b")], vec![lit("2"), lit("c"), lit("d")]],
    };
    let insert = Insert::from_plan(plan).unwrap();
    assert_eq!(insert.db_name, "crunchy");
    assert_eq!(insert.sch_name, "store");
    assert_eq!(insert.tab_name, "user");
    let mut heap = HeapFile::new(user_table());
    insert.execute(&mut heap).unwrap();
    let bytes = heap.finalize();
    assert_eq!(bytes.len(), 188);
    let rows = HeapFile::new(user_table()).get_all_rows(&bytes).unwrap();
    assert_eq!(rows.len(), 2);
    assert!(matches!(rows[1][0], DataValue::Int(2)));
    match &rows[1][2] {
        DataValue::VarChar(b) => assert_eq!(b, &b"d".to_vec()),
        other => panic!("{:?}", other),
    }
}

#[test]
fn failed_insert_leaves_heap_untouched() {
    let insert = Insert::new(
        "crunchy".to_string(),
        "store".to_string(),
        "user".to_string(),
        vec![vec![lit("1"), lit("a"), lit("b")], vec![lit("two"), lit("c"), lit("d")]],
    );
    let mut heap = HeapFile::new(user_table());
    let e = insert.execute(&mut heap).unwrap_err();
    assert_eq!(e.message(), "Literal does not fit column type 2: two");
    assert!(heap.finalize().is_empty());
}

#[test]
fn header_path_of_table_reference() {
    let b = PathBuilder::new(&FilePath::new(vec!["data".to_string()]));
    let p = table_header_path(&b, &full_ref("user")).unwrap();
    assert_eq!(p.parts, b.table_header("crunchy", "store", "user").parts);
    let partial = TableReference { catalog: None, schema: Some("store".to_string()), table: "user".to_string() };
    assert!(matches!(table_header_path(&b, &partial), Err(ExecError::MissingDatabase(_))));
}

#[test]
fn error_messages() {
    assert_eq!(ExecError::UnknownTable("user".to_string()).message(), "Table not found: user");
    assert_eq!(ExecError::UnsupportedType(12).message(), "Column type has no values: 12");
}

use relstore::catalog::column::Column;
use relstore::catalog::table::Table;
use relstore::codec::CodecError;
use relstore::storage::heap::HeapFile;
use relstore::types::DataValue;

fn user_table() -> Table {
    let columns = vec![
        Column::new("id".to_string(), 2, 4, true, false),
        Column::new("name".to_string(), 6, 45, true, false),
        Column::new("last_name".to_string(), 6, 45, true, false),
    ];
    Table::created(1, "user".to_string(), 1, columns, vec![])
}

fn row(id: i32, a: &str, b: &str) -> Vec<DataValue> {
    vec![
        DataValue::Int(id),
        DataValue::VarChar(a.as_bytes().to_vec()),
        DataValue::VarChar(b.as_bytes().to_vec()),
    ]
}

fn texts(r: &[DataValue]) -> (i32, Vec<u8>, Vec<u8>) {
    match (&r[0], &r[1], &r[2]) {
        (DataValue::Int(i), DataValue::VarChar(a), DataValue::VarChar(b)) => (*i, a.clone(), b.clone()),
        other => panic!("{:?}", other),
    }
}

#[test]
fn append_then_scan_returns_rows_in_order() {
    let mut heap = HeapFile::new(user_table());
    heap.insert_row(row(1, "a", "b"));
    heap.insert_row(row(2, "c", "d"));
    let reader = HeapFile::new(user_table());
    let file = heap.finalize();
    assert_eq!(file.len(), 2 * 94);
    assert_eq!(&file[0..4], &[1, 0, 0, 0]);
    assert_eq!(file[4], b'a');
    assert!(file[5..49].iter().all(|b| *b == 0));
    assert_eq!(file[49], b'b');
    assert!(file[50..94].iter().all(|b| *b == 0));
    let rows = reader.get_all_rows(&file).unwrap();
    assert_eq!(rows.len(), 2);
    assert_eq!(texts(&rows[0]), (1, b"a".to_vec(), b"b".to_vec()));
    assert_eq!(texts(&rows[1]), (2, b"c".to_vec(), b"d".to_vec()));
}

#[test]
fn partial_last_row_is_dropped() {
    let mut heap = HeapFile::new(user_table());
    heap.insert_row(row(1, "a", "b"));
    heap.insert_row(row(2, "c", "d"));
    let reader = HeapFile::new(user_table());
    let mut file = heap.finalize();
    file.extend_from_slice(&[3, 0, 0, 0, b'e']);
    let rows = reader.get_all_rows(&file).unwrap();
    assert_eq!(rows.len(), 2);
    assert_eq!(texts(&rows[1]), (2, b"c".to_vec(), b"d".to_vec()));
}

#[test]
fn empty_or_short_file_has_no_rows() {
    let reader = HeapFile::new(user_table());
    assert!(reader.get_all_rows(&[]).unwrap().is_empty());
    assert!(reader.get_all_rows(&[0u8; 93]).unwrap().is_empty());
}

#[test]
fn table_without_columns_has_no_rows() {
    let reader = HeapFile::new(Table::created(1, "t".to_string(), 1, vec![], vec![]));
    assert!(reader.get_all_rows(&[1, 2, 3]).unwrap().is_empty());
}

#[test]
fn values_pair_with_columns_by_position() {
    let mut heap = HeapFile::new(user_table());
    heap.insert_row(vec![DataValue::Int(5)]);
    assert_eq!(heap.finalize(), vec![5, 0, 0, 0]);
    let mut heap = HeapFile::new(user_table());
    let mut long = row(1, "x", "y");
    long.push(DataValue::Int(99));
    heap.insert_row(long);
    assert_eq!(heap.finalize().len(), 94);
}

#[test]
fn undecodable_column_fails_scan() {
    let columns = vec![Column::new("g".to_string(), 12, 4, false, false)];
    let reader = HeapFile::new(Table::created(1, "shapes".to_string(), 1, columns, vec![]));
    assert!(matches!(reader.get_all_rows(&[0, 0, 0, 0]), Err(CodecError::UnsupportedType(12))));
    let columns = vec![Column::new("n".to_string(), 3, 4, false, false)];
    let reader = HeapFile::new(Table::created(1, "nums".to_string(), 1, columns, vec![]));
    assert!(matches!(reader.get_all_rows(&[0, 0, 0, 0]), Err(CodecError::ShortBuffer)));
}

#[test]
fn interrupted_append_after_several_rows() {
    let mut heap = HeapFile::new(user_table());
    for i in 0..3 {
        heap.insert_row(row(i, "n", "m"));
    }
    let reader = HeapFile::new(user_table());
    let mut file = heap.finalize();
    file.extend_from_slice(&[0u8; 93]);
    let rows = reader.get_all_rows(&file).unwrap();
    assert_eq!(rows.len(), 3);
    assert_eq!(texts(&rows[2]), (2, b"n".to_vec(), b"m".to_vec()));
}

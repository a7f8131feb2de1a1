use relstore::catalog::column::Column;
use relstore::catalog::database::Database;
use relstore::catalog::global::{CatalogError, GlobalCatalog};
use relstore::catalog::index::Index;
use relstore::catalog::name_map::{max_id, next_id, NameMap};
use relstore::catalog::schema::Schema;
use relstore::catalog::table::Table;
use relstore::types::LogicalType;

#[test]
fn new_catalog_is_empty_and_versioned() {
    let c = GlobalCatalog::new();
    assert_eq!(c.version, "0.0.1");
    assert!(c.get_database_names().is_empty());
    assert_eq!(c.generate_database_id(), Some(1));
}

#[test]
fn database_ids_increase_by_one() {
    let mut c = GlobalCatalog::new();
    assert_eq!(c.create_database("crunchy").unwrap(), 1);
    assert_eq!(c.create_database("shop").unwrap(), 2);
    assert_eq!(c.create_database("hr").unwrap(), 3);
    assert_eq!(c.get_database("shop").unwrap().get_id(), 2);
    assert_eq!(c.get_database_names(), vec!["crunchy", "shop", "hr"]);
}

#[test]
fn creating_a_database_again_replaces_it_with_a_new_id() {
    let mut c = GlobalCatalog::new();
    c.create_database("crunchy").unwrap();
    c.create_schema("crunchy", "store").unwrap();
    assert_eq!(c.create_database("crunchy").unwrap(), 2);
    let db = c.get_database("crunchy").unwrap();
    assert_eq!(db.get_id(), 2);
    assert_eq!(db.get_schema_id("store"), None);
    assert_eq!(c.get_database_names().len(), 1);
}

#[test]
fn schema_ids_are_scoped_per_database() {
    let mut c = GlobalCatalog::new();
    c.create_database("a").unwrap();
    c.create_database("b").unwrap();
    assert_eq!(c.create_schema("a", "s1").unwrap(), (1, 1));
    assert_eq!(c.create_schema("a", "s2").unwrap(), (2, 1));
    assert_eq!(c.create_schema("b", "s1").unwrap(), (1, 2));
    assert_eq!(c.create_schema("a", "s1").unwrap(), (3, 1));
    let a = c.get_database("a").unwrap();
    assert_eq!(a.get_schema_id("s1"), Some(3));
    assert_eq!(a.get_schema_id("s2"), Some(2));
    assert_eq!(a.get_schema_id("s3"), None);
    assert_eq!(c.get_schemas("b").unwrap().entries.len(), 1);
    assert!(c.get_schemas("zzz").is_none());
}

#[test]
fn schema_in_unknown_database_fails() {
    let mut c = GlobalCatalog::new();
    match c.create_schema("nope", "s") {
        Err(CatalogError::UnknownDatabase(n)) => assert_eq!(n, "nope"),
        other => panic!("{:?}", other),
    }
    assert!(c.get_database("nope").is_none());
}

#[test]
fn exhausted_ids_are_reported() {
    let mut c = GlobalCatalog::new();
    c.create_database("a").unwrap();
    c.databases.entries[0].1.db_id = u32::MAX;
    assert!(matches!(c.create_database("b"), Err(CatalogError::IdsExhausted)));
    assert_eq!(c.get_database_names().len(), 1);
    let mut s = Schema::new(1, "s".to_string(), 1);
    s.add_table("t".to_string(), u32::MAX);
    assert_eq!(s.register_table("u".to_string()), None);
    assert_eq!(s.get_tables().entries.len(), 1);
}

#[test]
fn table_ids_are_scoped_per_schema() {
    let mut s = Schema::new(4, "store".to_string(), 1);
    assert_eq!(s.generate_table_id(), Some(1));
    assert_eq!(s.register_table("user".to_string()), Some(1));
    assert_eq!(s.register_table("order".to_string()), Some(2));
    s.delete_table("user".to_string());
    assert_eq!(s.register_table("item".to_string()), Some(3));
    assert_eq!(s.get_tables().get(&"item".to_string()), Some(&3));
    assert_eq!(s.get_tables().get(&"user".to_string()), None);
    let other = Schema::new(5, "hr".to_string(), 1);
    assert_eq!(other.generate_table_id(), Some(1));
    assert_eq!(s.get_id(), 4);
    assert_eq!(s.get_name(), "store");
    assert_eq!(s.get_database_id(), 1);
}

#[test]
fn schema_functions_map() {
    let mut s = Schema::new(1, "s".to_string(), 1);
    assert_eq!(s.generate_function_id(), Some(1));
    s.add_function("f".to_string(), 7);
    assert_eq!(s.generate_function_id(), Some(8));
    assert_eq!(s.get_functions().get(&"f".to_string()), Some(&7));
    s.delete_function("f".to_string());
    assert!(s.get_functions().entries.is_empty());
}

#[test]
fn name_map_keeps_names_unique() {
    let mut m: NameMap<u32> = NameMap::new();
    m.insert("a".to_string(), 5);
    m.insert("b".to_string(), 2);
    m.insert("a".to_string(), 9);
    assert_eq!(m.entries.len(), 2);
    assert_eq!(m.get(&"a".to_string()), Some(&9));
    assert_eq!(m.find(&"b".to_string()), Some(1));
    assert_eq!(m.next_id(), Some(10));
    m.remove(&"a".to_string());
    m.remove(&"zz".to_string());
    assert_eq!(m.id_list(), vec![2]);
}

#[test]
fn max_scan_allocation() {
    assert_eq!(max_id(&vec![]), 0);
    assert_eq!(max_id(&vec![3, 9, 4]), 9);
    assert_eq!(next_id(&vec![]), Some(1));
    assert_eq!(next_id(&vec![3, 9, 4]), Some(10));
    assert_eq!(next_id(&vec![u32::MAX]), None);
}

#[test]
fn database_schema_map() {
    let mut d = Database::new(3, "crunchy".to_string());
    assert_eq!(d.get_id(), 3);
    assert_eq!(d.get_name(), "crunchy");
    assert!(d.get_created_at() > 0);
    d.add_schema("store".to_string(), 1);
    assert_eq!(d.get_schema_id("store"), Some(1));
    d.delete_schema("store".to_string(), 1);
    assert_eq!(d.get_schema_id("store"), None);
    assert!(d.get_schemas().entries.is_empty());
}

#[test]
fn created_table_header() {
    let cols = vec![Column::new("id".to_string(), 2, 4, true, false)];
    let t = Table::created(7, "user".to_string(), 2, cols, vec![]);
    assert_eq!(t.get_tab_id(), 7);
    assert_eq!(t.get_tab_name(), "user");
    assert_eq!(t.get_tab_namespace(), 2);
    assert_eq!(t.get_tab_tuples(), 0);
    assert_eq!(t.get_tab_pages(), 1);
    assert_eq!(t.get_tab_page_size(), 8192);
    assert_eq!(t.get_tab_columns().len(), 1);
    assert!(t.get_tab_indexes().is_empty());
}

#[test]
fn table_columns_and_indexes_are_appended() {
    let mut t = Table::new(1, "t".to_string(), 1, 5, 2, 4096, vec![], vec![]);
    t.add_column(Column::new("a".to_string(), 7, 1, false, true));
    t.add_column(Column::new("b".to_string(), 3, 8, true, false));
    t.add_index(Index::new(1, 5, "pk".to_string(), "idx_pk_t.dat".to_string(), 0, vec![0], true));
    assert_eq!(t.get_tab_columns()[1].get_att_name(), "b");
    assert_eq!(t.get_tab_indexes()[0].get_idx_name(), "pk");
    assert_eq!(t.get_tab_tuples(), 5);
}

#[test]
fn column_and_index_accessors() {
    let c = Column::new("name".to_string(), 6, 45, true, false);
    assert_eq!(c.get_att_name(), "name");
    assert_eq!(c.get_att_type_id(), 6);
    assert_eq!(c.get_att_len(), 45);
    assert!(c.get_att_not_null());
    assert!(!c.get_att_has_def());
    let i = Index::new(3, 2, "by_name".to_string(), "f.dat".to_string(), 10, vec![1, 2], false);
    assert_eq!(i.get_idx_id(), 3);
    assert_eq!(i.get_idx_type(), 2);
    assert_eq!(i.get_idx_name(), "by_name");
    assert_eq!(i.get_idx_file(), "f.dat");
    assert_eq!(i.get_idx_tuples(), 10);
    assert_eq!(i.get_idx_columns(), vec![1, 2]);
    assert!(!i.get_idx_is_primary());
}

#[test]
fn columns_map_to_planner_fields() {
    let f = Column::new("id".to_string(), 2, 4, true, false).to_arrow_field().unwrap();
    assert_eq!(f.name, "id");
    assert_eq!(f.data_type, LogicalType::Int32);
    assert!(!f.nullable);
    let f = Column::new("at".to_string(), 11, 8, false, false).to_arrow_field().unwrap();
    assert_eq!(f.data_type, LogicalType::TimestampMicrosecondUtc);
    assert!(f.nullable);
    assert_eq!(
        Column::new("u".to_string(), 8, 16, false, false).to_arrow_field().unwrap().data_type,
        LogicalType::Utf8
    );
    assert!(Column::new("x".to_string(), 0, 4, false, false).to_arrow_field().is_none());
    let t = Table::created(
        1,
        "t".to_string(),
        1,
        vec![
            Column::new("a".to_string(), 1, 2, false, false),
            Column::new("b".to_string(), 10, 8, true, false),
        ],
        vec![],
    );
    let fields = t.to_arrow_schema().unwrap();
    assert_eq!(fields.len(), 2);
    assert_eq!(fields[0].data_type, LogicalType::Int16);
    assert_eq!(fields[1].data_type, LogicalType::Time64Microsecond);
    let bad = Table::created(1, "t".to_string(), 1, vec![Column::new("a".to_string(), 13, 2, false, false)], vec![]);
    assert!(bad.to_arrow_schema().is_none());
}

#[test]
fn schema_creation_succeeds_with_next_id() {
    let mut c = GlobalCatalog::new();
    c.create_database("a").unwrap();
    assert_eq!(c.create_schema("a", "s").unwrap(), (1, 1));
    assert!(matches!(c.create_schema("a", "t"), Ok((2, 1))));
}

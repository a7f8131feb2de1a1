use relstore::storage::path::{FilePath, FsOp, PathBuilder};

fn parts(p: &FilePath) -> Vec<String> {
    p.parts.clone()
}

fn builder() -> PathBuilder {
    PathBuilder::new(&FilePath::new(vec!["data".to_string()]))
}

#[test]
fn artifact_paths() {
    let b = builder();
    assert_eq!(parts(&b.base_dir()), vec!["data"]);
    assert_eq!(parts(&b.system_dir("system")), vec!["data", "system"]);
    assert_eq!(parts(&b.catalog_file()), vec!["data", "system", "catalog.dat"]);
    assert_eq!(parts(&b.database_dir("crunchy")), vec!["data", "db_crunchy"]);
    assert_eq!(parts(&b.database_meta("crunchy")), vec!["data", "db_crunchy", "meta.dat"]);
    assert_eq!(parts(&b.schema_dir("crunchy", "store")), vec!["data", "db_crunchy", "schema_store"]);
    assert_eq!(
        parts(&b.schema_meta("crunchy", "store")),
        vec!["data", "db_crunchy", "schema_store", "meta.dat"]
    );
    assert_eq!(
        parts(&b.table_dir("crunchy", "store", "user")),
        vec!["data", "db_crunchy", "schema_store", "table_user"]
    );
    assert_eq!(
        parts(&b.table_data("crunchy", "store", "user")),
        vec!["data", "db_crunchy", "schema_store", "table_user", "data.dat"]
    );
    assert_eq!(
        parts(&b.table_header("crunchy", "store", "user")),
        vec!["data", "db_crunchy", "schema_store", "table_user", "header.dat"]
    );
    assert_eq!(
        parts(&b.table_index("crunchy", "store", "user", "pk")),
        vec!["data", "db_crunchy", "schema_store", "table_user", "idx_pk_user.dat"]
    );
    assert_eq!(
        parts(&b.function_file("crunchy", "store", "user", "sum")),
        vec!["data", "db_crunchy", "schema_store", "fn_sum_user.dat"]
    );
}

#[test]
fn paths_are_deterministic_and_unvetted() {
    let b = builder();
    assert_eq!(parts(&b.table_data("d", "s", "t")), parts(&b.table_data("d", "s", "t")));
    assert_eq!(parts(&b.database_dir("a/b")), vec!["data", "db_a/b"]);
}

fn op_parts(op: &FsOp) -> (bool, Vec<String>) {
    match op {
        FsOp::CreateDir(p) => (true, parts(p)),
        FsOp::CreateFile(p) => (false, parts(p)),
    }
}

#[test]
fn creation_steps() {
    let b = builder();
    let db: Vec<_> = b.database_ops("x").iter().map(op_parts).collect();
    assert_eq!(db, vec![
        (true, vec!["data".to_string(), "db_x".to_string()]),
        (false, vec!["data".to_string(), "db_x".to_string(), "meta.dat".to_string()]),
    ]);
    let sch: Vec<_> = b.schema_ops("x", "s").iter().map(op_parts).collect();
    assert_eq!(sch[0], (true, parts(&b.schema_dir("x", "s"))));
    assert_eq!(sch[1], (false, parts(&b.schema_meta("x", "s"))));
    let again: Vec<_> = b.schema_ops("x", "s").iter().map(op_parts).collect();
    assert_eq!(sch, again);
    let tab: Vec<_> = b.table_ops("x", "s", "t").iter().map(op_parts).collect();
    assert_eq!(tab.len(), 4);
    assert_eq!(tab[0], (true, parts(&b.table_dir("x", "s", "t"))));
    assert_eq!(tab[1], (false, parts(&b.table_data("x", "s", "t"))));
    assert_eq!(tab[2], (false, parts(&b.table_header("x", "s", "t"))));
    assert_eq!(tab[3], (false, parts(&b.table_index("x", "s", "t", "pk"))));
}

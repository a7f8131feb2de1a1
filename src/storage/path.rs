//! Where each catalog and table artifact lives under the data directory.
//!
//! Paths are lists of components; the platform's separator joins them. The
//! mapping is pure: it neither reads nor checks the file system, and it does
//! not vet names (a name holding a separator is the caller's concern).

use vstd::prelude::*;
use vstd::string::StringExecFns;

verus! {

/// The text of each of `parts`.
pub open spec fn views_of(parts: Seq<String>) -> Seq<Seq<char>> {
    parts.map_values(|s: String| s@)
}

/// A path, as the list of its components.
#[derive(Debug)]
pub struct FilePath {
    pub parts: Vec<String>,
}

impl View for FilePath {
    type V = Seq<Seq<char>>;

    open spec fn view(&self) -> Seq<Seq<char>> {
        views_of(self.parts@)
    }
}

impl FilePath {
    pub fn new(parts: Vec<String>) -> (r: Self)
        ensures
            r.parts@ == parts@,
    {
        FilePath { parts }
    }

    /// This path followed by the component `part`.
    pub fn join(&self, part: String) -> (r: FilePath)
        ensures
            r@ == self@.push(part@),
    {
        let mut parts: Vec<String> = Vec::new();
        let mut i: usize = 0;
        while i < self.parts.len()
            invariant
                i <= self.parts@.len(),
                views_of(parts@) == self@.take(i as int),
            decreases self.parts@.len() - i,
        {
            let ghost before = parts@;
            let c = self.parts[i].clone();
            assert(c@ == self.parts@[i as int]@);
            parts.push(c);
            assert(views_of(parts@) =~= views_of(before).push(c@));
            assert(self@.take(i + 1) =~= self@.take(i as int).push(self@[i as int]));
            i = i + 1;
        }
        assert(self@.take(i as int) =~= self@);
        let ghost before = parts@;
        parts.push(part);
        assert(views_of(parts@) =~= views_of(before).push(part@));
        let r = FilePath { parts };
        r
    }

    /// A copy of this path.
    pub fn duplicate(&self) -> (r: FilePath)
        ensures
            r@ == self@,
    {
        let mut parts: Vec<String> = Vec::new();
        let mut i: usize = 0;
        while i < self.parts.len()
            invariant
                i <= self.parts@.len(),
                views_of(parts@) == self@.take(i as int),
            decreases self.parts@.len() - i,
        {
            let ghost before = parts@;
            let c = self.parts[i].clone();
            assert(c@ == self.parts@[i as int]@);
            parts.push(c);
            assert(views_of(parts@) =~= views_of(before).push(c@));
            assert(self@.take(i + 1) =~= self@.take(i as int).push(self@[i as int]));
            i = i + 1;
        }
        assert(self@.take(i as int) =~= self@);
        FilePath { parts }
    }
}

/// `prefix` followed by `name`.
fn prefixed(prefix: &str, name: &str) -> (r: String)
    ensures
        r@ == prefix@ + name@,
{
    let mut s = String::from_str(prefix);
    s.append(name);
    s
}

/// The component `idx_<property>_<table>.dat`, or `fn_...` for functions.
fn artifact_name(kind: &str, property: &str, table: &str) -> (r: String)
    ensures
        r@ == kind@ + property@ + "_"@ + table@ + ".dat"@,
{
    let mut s = String::from_str(kind);
    s.append(property);
    s.append("_");
    s.append(table);
    s.append(".dat");
    s
}

pub open spec fn database_dir_of(base: Seq<Seq<char>>, db: Seq<char>) -> Seq<Seq<char>> {
    base.push("db_"@ + db)
}

pub open spec fn database_meta_of(base: Seq<Seq<char>>, db: Seq<char>) -> Seq<Seq<char>> {
    database_dir_of(base, db).push("meta.dat"@)
}

pub open spec fn schema_dir_of(base: Seq<Seq<char>>, db: Seq<char>, schema: Seq<char>) -> Seq<Seq<char>> {
    database_dir_of(base, db).push("schema_"@ + schema)
}

pub open spec fn schema_meta_of(base: Seq<Seq<char>>, db: Seq<char>, schema: Seq<char>) -> Seq<Seq<char>> {
    schema_dir_of(base, db, schema).push("meta.dat"@)
}

pub open spec fn table_dir_of(
    base: Seq<Seq<char>>,
    db: Seq<char>,
    schema: Seq<char>,
    table: Seq<char>,
) -> Seq<Seq<char>> {
    schema_dir_of(base, db, schema).push("table_"@ + table)
}

pub open spec fn table_data_of(
    base: Seq<Seq<char>>,
    db: Seq<char>,
    schema: Seq<char>,
    table: Seq<char>,
) -> Seq<Seq<char>> {
    table_dir_of(base, db, schema, table).push("data.dat"@)
}

pub open spec fn table_header_of(
    base: Seq<Seq<char>>,
    db: Seq<char>,
    schema: Seq<char>,
    table: Seq<char>,
) -> Seq<Seq<char>> {
    table_dir_of(base, db, schema, table).push("header.dat"@)
}

pub open spec fn table_index_of(
    base: Seq<Seq<char>>,
    db: Seq<char>,
    schema: Seq<char>,
    table: Seq<char>,
    property: Seq<char>,
) -> Seq<Seq<char>> {
    table_dir_of(base, db, schema, table).push("idx_"@ + property + "_"@ + table + ".dat"@)
}

pub open spec fn function_file_of(
    base: Seq<Seq<char>>,
    db: Seq<char>,
    schema: Seq<char>,
    table: Seq<char>,
    function: Seq<char>,
) -> Seq<Seq<char>> {
    schema_dir_of(base, db, schema).push("fn_"@ + function + "_"@ + table + ".dat"@)
}

/// Maps catalog names to paths under a base directory.
#[derive(Debug)]
pub struct PathBuilder {
    pub base_dir: FilePath,
}

impl PathBuilder {
    pub fn new(base_dir: &FilePath) -> (r: Self)
        ensures
            r.base_dir@ == base_dir@,
    {
        PathBuilder { base_dir: base_dir.duplicate() }
    }

    pub fn base_dir(&self) -> (r: FilePath)
        ensures
            r@ == self.base_dir@,
    {
        self.base_dir.duplicate()
    }

    /// The directory `system` right under the base directory.
    pub fn system_dir(&self, system: &str) -> (r: FilePath)
        ensures
            r@ == self.base_dir@.push(system@),
    {
        self.base_dir.join(String::from_str(system))
    }

    /// The file that holds the persisted catalog: `system/catalog.dat`.
    pub fn catalog_file(&self) -> (r: FilePath)
        ensures
            r@ == self.base_dir@.push("system"@).push("catalog.dat"@),
    {
        self.system_dir("system").join(String::from_str("catalog.dat"))
    }

    pub fn database_dir(&self, db_name: &str) -> (r: FilePath)
        ensures
            r@ == database_dir_of(self.base_dir@, db_name@),
    {
        self.base_dir.join(prefixed("db_", db_name))
    }

    pub fn database_meta(&self, db_name: &str) -> (r: FilePath)
        ensures
            r@ == database_meta_of(self.base_dir@, db_name@),
    {
        self.database_dir(db_name).join(String::from_str("meta.dat"))
    }

    pub fn schema_dir(&self, db_name: &str, schema_name: &str) -> (r: FilePath)
        ensures
            r@ == schema_dir_of(self.base_dir@, db_name@, schema_name@),
    {
        self.database_dir(db_name).join(prefixed("schema_", schema_name))
    }

    pub fn schema_meta(&self, db_name: &str, schema_name: &str) -> (r: FilePath)
        ensures
            r@ == schema_meta_of(self.base_dir@, db_name@, schema_name@),
    {
        self.schema_dir(db_name, schema_name).join(String::from_str("meta.dat"))
    }

    pub fn table_dir(&self, db_name: &str, schema_name: &str, table_name: &str) -> (r: FilePath)
        ensures
            r@ == table_dir_of(self.base_dir@, db_name@, schema_name@, table_name@),
    {
        self.schema_dir(db_name, schema_name).join(prefixed("table_", table_name))
    }

    pub fn table_data(&self, db_name: &str, schema_name: &str, table_name: &str) -> (r: FilePath)
        ensures
            r@ == table_data_of(self.base_dir@, db_name@, schema_name@, table_name@),
    {
        self.table_dir(db_name, schema_name, table_name).join(String::from_str("data.dat"))
    }

    pub fn table_header(&self, db_name: &str, schema_name: &str, table_name: &str) -> (r: FilePath)
        ensures
            r@ == table_header_of(self.base_dir@, db_name@, schema_name@, table_name@),
    {
        self.table_dir(db_name, schema_name, table_name).join(String::from_str("header.dat"))
    }

    /// The index artifact `idx_<property>_<table>.dat` of a table.
    pub fn table_index(
        &self,
        db_name: &str,
        schema_name: &str,
        table_name: &str,
        property: &str,
    ) -> (r: FilePath)
        ensures
            r@ == table_index_of(self.base_dir@, db_name@, schema_name@, table_name@, property@),
    {
        self.table_dir(db_name, schema_name, table_name).join(
            artifact_name("idx_", property, table_name),
        )
    }

    /// The function artifact `fn_<function>_<table>.dat` of a schema.
    pub fn function_file(
        &self,
        db_name: &str,
        schema_name: &str,
        table_name: &str,
        function_name: &str,
    ) -> (r: FilePath)
        ensures
            r@ == function_file_of(
                self.base_dir@,
                db_name@,
                schema_name@,
                table_name@,
                function_name@,
            ),
    {
        self.schema_dir(db_name, schema_name).join(
            artifact_name("fn_", function_name, table_name),
        )
    }
}

/// One step of creating catalog artifacts on disk. Both kinds are
/// create-exclusive: a step fails when its path already exists or when the
/// directory that should hold it does not.
#[derive(Debug)]
pub enum FsOp {
    CreateDir(FilePath),
    CreateFile(FilePath),
}

pub enum FsOpView {
    CreateDir(Seq<Seq<char>>),
    CreateFile(Seq<Seq<char>>),
}

impl View for FsOp {
    type V = FsOpView;

    open spec fn view(&self) -> FsOpView {
        match self {
            FsOp::CreateDir(p) => FsOpView::CreateDir(p@),
            FsOp::CreateFile(p) => FsOpView::CreateFile(p@),
        }
    }
}

pub open spec fn op_path(op: FsOpView) -> Seq<Seq<char>> {
    match op {
        FsOpView::CreateDir(p) => p,
        FsOpView::CreateFile(p) => p,
    }
}

pub open spec fn ops_view(ops: Seq<FsOp>) -> Seq<FsOpView> {
    ops.map_values(|o: FsOp| o@)
}

/// Outcome of running `ops` in order on a file system where the paths
/// `present` exist: the paths present afterwards, or the position of the
/// first step that fails (nothing after it runs).
pub open spec fn run_ops(present: Set<Seq<Seq<char>>>, ops: Seq<FsOpView>) -> Result<
    Set<Seq<Seq<char>>>,
    nat,
>
    decreases ops.len(),
{
    if ops.len() == 0 {
        Ok(present)
    } else {
        let p = op_path(ops[0]);
        if present.contains(p) || p.len() == 0 || !present.contains(p.drop_last()) {
            Err(0)
        } else {
            match run_ops(present.insert(p), ops.drop_first()) {
                Ok(after) => Ok(after),
                Err(k) => Err(k + 1),
            }
        }
    }
}

/// Steps that create a database: its directory, then its metadata file.
pub open spec fn database_ops_of(base: Seq<Seq<char>>, db: Seq<char>) -> Seq<FsOpView> {
    seq![FsOpView::CreateDir(database_dir_of(base, db)), FsOpView::CreateFile(database_meta_of(base, db))]
}

/// Steps that create a schema: its directory, then its metadata file.
pub open spec fn schema_ops_of(base: Seq<Seq<char>>, db: Seq<char>, schema: Seq<char>) -> Seq<FsOpView> {
    seq![
        FsOpView::CreateDir(schema_dir_of(base, db, schema)),
        FsOpView::CreateFile(schema_meta_of(base, db, schema)),
    ]
}

/// Steps that create a table: its directory, then its data file, header
/// file and primary-key index file.
pub open spec fn table_ops_of(
    base: Seq<Seq<char>>,
    db: Seq<char>,
    schema: Seq<char>,
    table: Seq<char>,
) -> Seq<FsOpView> {
    seq![
        FsOpView::CreateDir(table_dir_of(base, db, schema, table)),
        FsOpView::CreateFile(table_data_of(base, db, schema, table)),
        FsOpView::CreateFile(table_header_of(base, db, schema, table)),
        FsOpView::CreateFile(table_index_of(base, db, schema, table, "pk"@)),
    ]
}

/// Creating a schema is not idempotent: once the steps that create schema
/// `schema` of database `db` have all succeeded, running them again fails
/// at the first step, the directory create, because the directory exists.
pub proof fn lemma_schema_creation_not_idempotent(
    present: Set<Seq<Seq<char>>>,
    base: Seq<Seq<char>>,
    db: Seq<char>,
    schema: Seq<char>,
)
    requires
        run_ops(present, schema_ops_of(base, db, schema)) is Ok,
    ensures
        run_ops(
            run_ops(present, schema_ops_of(base, db, schema))->Ok_0,
            schema_ops_of(base, db, schema),
        ) == Err::<Set<Seq<Seq<char>>>, nat>(0),
{
    let ops = schema_ops_of(base, db, schema);
    let dir = schema_dir_of(base, db, schema);
    let meta = schema_meta_of(base, db, schema);
    let rest = ops.drop_first();
    assert(rest.drop_first() =~= Seq::<FsOpView>::empty());
    assert(op_path(ops[0]) == dir);
    assert(op_path(rest[0]) == meta);
    reveal_with_fuel(run_ops, 3);
    let after = run_ops(present, ops)->Ok_0;
    assert(after == present.insert(dir).insert(meta));
    assert(after.contains(dir));
}

impl PathBuilder {
    /// Steps that create database `db_name` on disk.
    pub fn database_ops(&self, db_name: &str) -> (r: Vec<FsOp>)
        ensures
            ops_view(r@) == database_ops_of(self.base_dir@, db_name@),
    {
        let r = vec![FsOp::CreateDir(self.database_dir(db_name)), FsOp::CreateFile(self.database_meta(db_name))];
        assert(ops_view(r@) =~= database_ops_of(self.base_dir@, db_name@));
        r
    }

    /// Steps that create schema `schema_name` of database `db_name` on disk.
    pub fn schema_ops(&self, db_name: &str, schema_name: &str) -> (r: Vec<FsOp>)
        ensures
            ops_view(r@) == schema_ops_of(self.base_dir@, db_name@, schema_name@),
    {
        let r = vec![
            FsOp::CreateDir(self.schema_dir(db_name, schema_name)),
            FsOp::CreateFile(self.schema_meta(db_name, schema_name)),
        ];
        assert(ops_view(r@) =~= schema_ops_of(self.base_dir@, db_name@, schema_name@));
        r
    }

    /// Steps that create table `table_name` on disk.
    pub fn table_ops(&self, db_name: &str, schema_name: &str, table_name: &str) -> (r: Vec<FsOp>)
        ensures
            ops_view(r@) == table_ops_of(self.base_dir@, db_name@, schema_name@, table_name@),
    {
        let r = vec![
            FsOp::CreateDir(self.table_dir(db_name, schema_name, table_name)),
            FsOp::CreateFile(self.table_data(db_name, schema_name, table_name)),
            FsOp::CreateFile(self.table_header(db_name, schema_name, table_name)),
            FsOp::CreateFile(self.table_index(db_name, schema_name, table_name, "pk")),
        ];
        assert(ops_view(r@) =~= table_ops_of(self.base_dir@, db_name@, schema_name@, table_name@));
        r
    }
}

} // verus!

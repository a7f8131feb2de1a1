//! The root of the catalog: every database, by name.

use vstd::prelude::*;
use vstd::string::StringExecFns;
use crate::catalog::database::Database;
use crate::catalog::name_map::{NameMap, max_of, next_id, placed};
use crate::clock::now_micros;

verus! {

/// Format version written into new catalogs.
pub const CATALOG_VERSION: &'static str = "0.0.1";

/// A lookup or allocation in the catalog that cannot be done.
#[derive(Debug, Clone)]
pub enum CatalogError {
    UnknownDatabase(String),
    UnknownSchema(String),
    UnknownTable(String),
    /// The scope's largest id is already `u32::MAX`.
    IdsExhausted,
}

#[derive(Debug)]
pub struct GlobalCatalog {
    /// Database name to database.
    pub databases: NameMap<Database>,
    pub version: String,
    /// Creation time, in microseconds since the Unix epoch (UTC).
    pub created_at: i64,
}

/// Ids of the databases `dbs`, in order.
pub open spec fn ids_of(dbs: Seq<Database>) -> Seq<u32> {
    dbs.map_values(|d: Database| d.db_id)
}

impl GlobalCatalog {
    /// Names are unique, each database sits under its own name, and each
    /// database's schema map is well formed.
    pub open spec fn wf(&self) -> bool {
        &&& self.databases.wf()
        &&& forall|k: Seq<char>|
            #[trigger] self.databases@.contains_key(k) ==> self.databases@[k].wf()
                && self.databases@[k].db_name@ == k
    }

    /// Ids of the databases, in catalog order.
    pub open spec fn db_ids(&self) -> Seq<u32> {
        ids_of(self.databases.values())
    }

    /// An empty catalog of the current format version, created now.
    pub fn new() -> (r: Self)
        ensures
            r.wf(),
            r.databases@ == Map::<Seq<char>, Database>::empty(),
            r.db_ids() == Seq::<u32>::empty(),
            r.version@ == CATALOG_VERSION@,
    {
        let r = GlobalCatalog {
            databases: NameMap::new(),
            version: String::from_str(CATALOG_VERSION),
            created_at: now_micros(),
        };
        assert(r.db_ids() =~= Seq::<u32>::empty());
        r
    }

    /// The id that the next database takes: the largest database id plus
    /// one; `None` once that is `u32::MAX`.
    pub fn generate_database_id(&self) -> (r: Option<u32>)
        ensures
            max_of(self.db_ids()) < u32::MAX ==> r == Some((max_of(self.db_ids()) + 1) as u32),
            max_of(self.db_ids()) >= u32::MAX ==> r is None,
    {
        let mut ids: Vec<u32> = Vec::new();
        let mut i: usize = 0;
        while i < self.databases.entries.len()
            invariant
                i <= self.databases.entries@.len(),
                ids@ == self.db_ids().take(i as int),
            decreases self.databases.entries@.len() - i,
        {
            ids.push(self.databases.entries[i].1.db_id);
            i = i + 1;
            assert(ids@ =~= self.db_ids().take(i as int));
        }
        assert(self.db_ids().take(i as int) =~= self.db_ids());
        next_id(&ids)
    }

    /// Registers a database named `db_name` under the next database id and
    /// returns that id. A database of that name is replaced by the new one.
    /// Fails, changing nothing, once the ids are used up.
    pub fn create_database(&mut self, db_name: &str) -> (r: Result<u32, CatalogError>)
        requires
            old(self).wf(),
        ensures
            final(self).wf(),
            max_of(old(self).db_ids()) >= u32::MAX <==> r is Err,
            r is Err ==> r == Err::<u32, CatalogError>(CatalogError::IdsExhausted) && *final(self) == *old(self),
            r matches Ok(id) ==> {
                &&& id == max_of(old(self).db_ids()) + 1
                &&& exists|pos: int| final(self).db_ids() == #[trigger] placed(old(self).db_ids(), pos, id)
                &&& final(self).databases@ == old(self).databases@.insert(
                    db_name@,
                    final(self).databases@[db_name@],
                )
                &&& final(self).databases@[db_name@].db_id == id
                &&& final(self).databases@[db_name@].db_schemas@ == Map::<Seq<char>, u32>::empty()
                &&& final(self).databases@[db_name@].db_schemas.values() == Seq::<u32>::empty()
                &&& final(self).version == old(self).version
                &&& final(self).created_at == old(self).created_at
            },
    {
        let id = match self.generate_database_id() {
            Some(id) => id,
            None => return Err(CatalogError::IdsExhausted),
        };
        let database = Database::new(id, String::from_str(db_name));
        let ghost prev = self.databases;
        let ghost d = database;
        self.databases.insert(String::from_str(db_name), database);
        proof {
            let pos = choose|pos: int| self.databases.values() == #[trigger] placed(prev.values(), pos, d);
            assert(self.db_ids() =~= placed(ids_of(prev.values()), pos, id));
        }
        Ok(id)
    }

    /// The database named `db_name`.
    pub fn get_database(&self, db_name: &str) -> (r: Option<&Database>)
        requires
            self.wf(),
        ensures
            r is Some <==> self.databases@.contains_key(db_name@),
            r matches Some(d) ==> *d == self.databases@[db_name@],
    {
        let key = String::from_str(db_name);
        self.databases.get(&key)
    }

    /// The schemas of database `db_name`, by name.
    pub fn get_schemas(&self, db_name: &str) -> (r: Option<&NameMap<u32>>)
        requires
            self.wf(),
        ensures
            r is Some <==> self.databases@.contains_key(db_name@),
            r matches Some(m) ==> *m == self.databases@[db_name@].db_schemas,
    {
        match self.get_database(db_name) {
            Some(d) => Some(&d.db_schemas),
            None => None,
        }
    }

    /// The names of all databases, in catalog order.
    pub fn get_database_names(&self) -> (r: Vec<String>)
        ensures
            r@.len() == self.databases.entries@.len(),
            forall|i: int| 0 <= i < r@.len() ==> #[trigger] r@[i]@ == self.databases.entries@[i].0@,
    {
        let mut names: Vec<String> = Vec::new();
        let mut i: usize = 0;
        while i < self.databases.entries.len()
            invariant
                i <= self.databases.entries@.len(),
                names@.len() == i,
                forall|j: int| 0 <= j < i ==> #[trigger] names@[j]@ == self.databases.entries@[j].0@,
            decreases self.databases.entries@.len() - i,
        {
            names.push(self.databases.entries[i].0.clone());
            i = i + 1;
        }
        names
    }

    /// Registers schema `schema_name` in database `db_name` under the next
    /// schema id of that database, and returns the schema id and the
    /// database id. A schema of that name is given the new id. Fails,
    /// changing nothing, when the database is unknown or its schema ids are
    /// used up.
    pub fn create_schema(&mut self, db_name: &str, schema_name: &str) -> (r: Result<(u32, u32), CatalogError>)
        requires
            old(self).wf(),
        ensures
            final(self).wf(),
            r is Err ==> *final(self) == *old(self),
            !old(self).databases@.contains_key(db_name@) <==> r matches Err(CatalogError::UnknownDatabase(_)),
            r matches Err(CatalogError::UnknownDatabase(n)) ==> n@ == db_name@,
            (old(self).databases@.contains_key(db_name@) && max_of(
                old(self).databases@[db_name@].db_schemas.values(),
            ) >= u32::MAX) <==> r matches Err(CatalogError::IdsExhausted),
            r is Ok <==> (old(self).databases@.contains_key(db_name@) && max_of(
                old(self).databases@[db_name@].db_schemas.values(),
            ) < u32::MAX),
            r matches Ok((sid, did)) ==> {
                let before = old(self).databases@[db_name@];
                let after = final(self).databases@[db_name@];
                &&& old(self).databases@.contains_key(db_name@)
                &&& did == before.db_id
                &&& sid == max_of(before.db_schemas.values()) + 1
                &&& final(self).databases@ == old(self).databases@.insert(db_name@, after)
                &&& after.db_schemas@ == before.db_schemas@.insert(schema_name@, sid)
                &&& exists|pos: int| after.db_schemas.values() == #[trigger] placed(before.db_schemas.values(), pos, sid)
                &&& after.db_id == before.db_id
                &&& after.db_name == before.db_name
                &&& after.db_created_at == before.db_created_at
                &&& final(self).version == old(self).version
                &&& final(self).created_at == old(self).created_at
            },
    {
        let key = String::from_str(db_name);
        let i = match self.databases.find(&key) {
            Some(i) => i,
            None => return Err(CatalogError::UnknownDatabase(key)),
        };
        let sid = match self.databases.entries[i].1.db_schemas.next_id() {
            Some(sid) => sid,
            None => return Err(CatalogError::IdsExhausted),
        };
        let ghost prev = self.databases;
        proof {
            assert(prev.has(key@));
            assert(prev@[key@] == prev.entries@[i as int].1);
            assert(old(self).databases@.contains_key(key@));
            assert(prev@[key@].wf());
            assert(prev@[key@].db_name@ == key@);
        }
        let (name, mut database) = self.databases.entries.remove(i);
        let did = database.db_id;
        database.add_schema(String::from_str(schema_name), sid);
        self.databases.entries.insert(i, (name, database));
        proof {
            assert(self.databases.entries@ =~= prev.entries@.update(i as int, self.databases.entries@[i as int]));
            assert forall|a: int, b: int|
                0 <= a < b < self.databases.entries@.len() implies (#[trigger] self.databases.entries@[a].0)@
                != (#[trigger] self.databases.entries@[b].0)@ by {
                assert(prev.entries@[a].0@ != prev.entries@[b].0@);
            }
            self.databases.lemma_view_after_set(prev, i as int);
            assert forall|k: Seq<char>| #[trigger] self.databases@.contains_key(k) implies self.databases@[k].wf()
                && self.databases@[k].db_name@ == k by {
                if k != key@ {
                    assert(prev@.contains_key(k));
                    assert(old(self).databases@.contains_key(k));
                } else {
                    assert(self.databases@[k] == self.databases.entries@[i as int].1);
                }
            }
            let after = self.databases@[db_name@];
            let before = old(self).databases@[db_name@];
            assert(after == self.databases.entries@[i as int].1);
            assert(did == before.db_id);
            assert(sid == max_of(before.db_schemas.values()) + 1);
            assert(self.databases@ == old(self).databases@.insert(db_name@, after));
            assert(after.db_schemas@ == before.db_schemas@.insert(schema_name@, sid));
        }
        Ok((sid, did))
    }
}

} // verus!

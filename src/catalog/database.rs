//! Database metadata: a named set of schemas.

use vstd::prelude::*;
use vstd::string::StringExecFns;
use crate::catalog::name_map::{NameMap, placed};
use crate::clock::now_micros;

verus! {

#[derive(Debug)]
pub struct Database {
    pub db_id: u32,
    pub db_name: String,
    /// Schema name to schema id. Schema ids are unique within the database.
    pub db_schemas: NameMap<u32>,
    /// Creation time, in microseconds since the Unix epoch (UTC).
    pub db_created_at: i64,
}

impl Database {
    pub open spec fn wf(&self) -> bool {
        self.db_schemas.wf()
    }

    /// A database with no schemas, created now.
    pub fn new(id: u32, name: String) -> (r: Self)
        ensures
            r.wf(),
            r.db_id == id,
            r.db_name@ == name@,
            r.db_schemas@ == Map::<Seq<char>, u32>::empty(),
            r.db_schemas.values() == Seq::<u32>::empty(),
    {
        Database { db_id: id, db_name: name, db_schemas: NameMap::new(), db_created_at: now_micros() }
    }

    pub fn get_id(&self) -> (r: u32)
        ensures
            r == self.db_id,
    {
        self.db_id
    }

    pub fn get_name(&self) -> (r: &str)
        ensures
            r@ == self.db_name@,
    {
        self.db_name.as_str()
    }

    pub fn get_schemas(&self) -> (r: &NameMap<u32>)
        ensures
            r == &self.db_schemas,
    {
        &self.db_schemas
    }

    /// Creation time, in microseconds since the Unix epoch (UTC).
    pub fn get_created_at(&self) -> (r: i64)
        ensures
            r == self.db_created_at,
    {
        self.db_created_at
    }

    pub fn add_schema(&mut self, name: String, id: u32)
        requires
            old(self).wf(),
        ensures
            final(self).wf(),
            final(self).db_schemas@ == old(self).db_schemas@.insert(name@, id),
            exists|pos: int| final(self).db_schemas.values() == #[trigger] placed(old(self).db_schemas.values(), pos, id),
            final(self).db_id == old(self).db_id,
            final(self).db_name == old(self).db_name,
            final(self).db_created_at == old(self).db_created_at,
    {
        self.db_schemas.insert(name, id);
    }

    /// Removes schema `name`; `_id` is not consulted.
    pub fn delete_schema(&mut self, name: String, _id: u32)
        requires
            old(self).wf(),
        ensures
            final(self).wf(),
            final(self).db_schemas@ == old(self).db_schemas@.remove(name@),
            final(self).db_id == old(self).db_id,
            final(self).db_name == old(self).db_name,
            final(self).db_created_at == old(self).db_created_at,
    {
        self.db_schemas.remove(&name);
    }

    pub fn get_schema_id(&self, name: &str) -> (r: Option<u32>)
        requires
            self.wf(),
        ensures
            r is Some <==> self.db_schemas@.contains_key(name@),
            r matches Some(id) ==> id == self.db_schemas@[name@],
    {
        let key = String::from_str(name);
        match self.db_schemas.get(&key) {
            Some(id) => Some(*id),
            None => None,
        }
    }
}

} // verus!

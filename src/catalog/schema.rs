//! Schema metadata: a namespace of tables and functions inside a database.

use vstd::prelude::*;
use crate::catalog::name_map::{NameMap, max_of, placed};

verus! {

#[derive(Debug)]
pub struct Schema {
    pub sch_id: u32,
    pub sch_name: String,
    /// Id of the database that owns the schema.
    pub sch_db_id: u32,
    /// Table name to table id. Table ids are unique within the schema only.
    pub sch_tables: NameMap<u32>,
    /// Function name to function id.
    pub sch_functions: NameMap<u32>,
}

impl Schema {
    pub open spec fn wf(&self) -> bool {
        self.sch_tables.wf() && self.sch_functions.wf()
    }

    pub fn new(id: u32, name: String, database_id: u32) -> (r: Self)
        ensures
            r.wf(),
            r.sch_id == id,
            r.sch_name@ == name@,
            r.sch_db_id == database_id,
            r.sch_tables@ == Map::<Seq<char>, u32>::empty(),
            r.sch_tables.values() == Seq::<u32>::empty(),
            r.sch_functions@ == Map::<Seq<char>, u32>::empty(),
            r.sch_functions.values() == Seq::<u32>::empty(),
    {
        Schema {
            sch_id: id,
            sch_name: name,
            sch_db_id: database_id,
            sch_tables: NameMap::new(),
            sch_functions: NameMap::new(),
        }
    }

    pub fn get_id(&self) -> (r: u32)
        ensures
            r == self.sch_id,
    {
        self.sch_id
    }

    pub fn get_name(&self) -> (r: String)
        ensures
            r@ == self.sch_name@,
    {
        self.sch_name.clone()
    }

    pub fn get_database_id(&self) -> (r: u32)
        ensures
            r == self.sch_db_id,
    {
        self.sch_db_id
    }

    pub fn get_tables(&self) -> (r: &NameMap<u32>)
        ensures
            r == &self.sch_tables,
    {
        &self.sch_tables
    }

    pub fn get_functions(&self) -> (r: &NameMap<u32>)
        ensures
            r == &self.sch_functions,
    {
        &self.sch_functions
    }

    pub fn add_table(&mut self, name: String, id: u32)
        requires
            old(self).wf(),
        ensures
            final(self).wf(),
            final(self).sch_tables@ == old(self).sch_tables@.insert(name@, id),
            exists|pos: int| final(self).sch_tables.values() == #[trigger] placed(old(self).sch_tables.values(), pos, id),
            final(self).sch_functions == old(self).sch_functions,
            final(self).sch_id == old(self).sch_id,
            final(self).sch_name == old(self).sch_name,
            final(self).sch_db_id == old(self).sch_db_id,
    {
        self.sch_tables.insert(name, id);
    }

    pub fn delete_table(&mut self, name: String)
        requires
            old(self).wf(),
        ensures
            final(self).wf(),
            final(self).sch_tables@ == old(self).sch_tables@.remove(name@),
            final(self).sch_functions == old(self).sch_functions,
            final(self).sch_id == old(self).sch_id,
            final(self).sch_name == old(self).sch_name,
            final(self).sch_db_id == old(self).sch_db_id,
    {
        self.sch_tables.remove(&name);
    }

    pub fn add_function(&mut self, name: String, id: u32)
        requires
            old(self).wf(),
        ensures
            final(self).wf(),
            final(self).sch_functions@ == old(self).sch_functions@.insert(name@, id),
            exists|pos: int| final(self).sch_functions.values() == #[trigger] placed(old(self).sch_functions.values(), pos, id),
            final(self).sch_tables == old(self).sch_tables,
            final(self).sch_id == old(self).sch_id,
            final(self).sch_name == old(self).sch_name,
            final(self).sch_db_id == old(self).sch_db_id,
    {
        self.sch_functions.insert(name, id);
    }

    pub fn delete_function(&mut self, name: String)
        requires
            old(self).wf(),
        ensures
            final(self).wf(),
            final(self).sch_functions@ == old(self).sch_functions@.remove(name@),
            final(self).sch_tables == old(self).sch_tables,
            final(self).sch_id == old(self).sch_id,
            final(self).sch_name == old(self).sch_name,
            final(self).sch_db_id == old(self).sch_db_id,
    {
        self.sch_functions.remove(&name);
    }

    /// The id that the next table of this schema takes: the largest table id
    /// of the schema plus one; `None` once that is `u32::MAX`.
    pub fn generate_table_id(&self) -> (r: Option<u32>)
        ensures
            max_of(self.sch_tables.values()) < u32::MAX ==> r == Some(
                (max_of(self.sch_tables.values()) + 1) as u32,
            ),
            max_of(self.sch_tables.values()) >= u32::MAX ==> r is None,
    {
        self.sch_tables.next_id()
    }

    /// The id that the next function of this schema takes: the largest
    /// function id of the schema plus one; `None` once that is `u32::MAX`.
    pub fn generate_function_id(&self) -> (r: Option<u32>)
        ensures
            max_of(self.sch_functions.values()) < u32::MAX ==> r == Some(
                (max_of(self.sch_functions.values()) + 1) as u32,
            ),
            max_of(self.sch_functions.values()) >= u32::MAX ==> r is None,
    {
        self.sch_functions.next_id()
    }

    /// Registers table `name` under the next table id of the schema and
    /// returns that id; `None` (and no change) once the ids are used up.
    pub fn register_table(&mut self, name: String) -> (r: Option<u32>)
        requires
            old(self).wf(),
        ensures
            final(self).wf(),
            max_of(old(self).sch_tables.values()) >= u32::MAX <==> r is None,
            r is None ==> *final(self) == *old(self),
            r matches Some(id) ==> {
                &&& id == max_of(old(self).sch_tables.values()) + 1
                &&& final(self).sch_tables@ == old(self).sch_tables@.insert(name@, id)
                &&& exists|pos: int| final(self).sch_tables.values() == #[trigger] placed(old(self).sch_tables.values(), pos, id)
                &&& final(self).sch_functions == old(self).sch_functions
                &&& final(self).sch_id == old(self).sch_id
                &&& final(self).sch_name == old(self).sch_name
                &&& final(self).sch_db_id == old(self).sch_db_id
            },
    {
        match self.generate_table_id() {
            Some(id) => {
                self.add_table(name, id);
                Some(id)
            },
            None => None,
        }
    }
}

} // verus!

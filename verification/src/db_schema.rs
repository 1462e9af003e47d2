//! The table registry: a map from table names to storage backends that
//! routes lookups and inserts by name.

use vstd::prelude::*;
use std::marker::PhantomData;
use crate::db_error::DbError;
use crate::db_error::DbErrorType;
use crate::db_interfaces::DbStorage;
use crate::db_interfaces::DbStorageEntry;

verus! {

/// Whether `find_entry_by_id`, called with `id` on a backend in the state
/// `table`, can return `found`.
pub open spec fn backend_finds<T: DbStorage<B>, B: DbStorageEntry>(
    table: T,
    id: u64,
    found: Option<&B>,
) -> bool {
    call_ensures(T::find_entry_by_id, (&table, id), found)
}

/// A registry of tables. Each table has a name and a backend that stores
/// entries of type `B`; no two tables share a name.
pub struct DbSchema<T: DbStorage<B>, B: DbStorageEntry> {
    names: Vec<String>,
    tables: Vec<T>,
    entry_type: PhantomData<B>,
}

impl<T: DbStorage<B>, B: DbStorageEntry> View for DbSchema<T, B> {
    type V = Map<Seq<char>, T>;

    /// The registered tables, by name.
    closed spec fn view(&self) -> Map<Seq<char>, T> {
        Map::new(|name: Seq<char>| self.holds(name), |name: Seq<char>| self.tables[self.slot(name)])
    }
}

impl<T: DbStorage<B>, B: DbStorageEntry> DbSchema<T, B> {
    #[verifier::type_invariant]
    spec fn well_formed(&self) -> bool {
        &&& self.names.len() == self.tables.len()
        &&& forall|i: int, j: int|
            0 <= i < j < self.names.len() ==> self.names[i]@ != self.names[j]@
    }

    spec fn holds(&self, name: Seq<char>) -> bool {
        exists|i: int| 0 <= i < self.names.len() && self.names[i]@ == name
    }

    spec fn slot(&self, name: Seq<char>) -> int {
        choose|i: int| 0 <= i < self.names.len() && self.names[i]@ == name
    }

    proof fn lemma_slot(&self, i: int)
        requires
            self.well_formed(),
            0 <= i < self.names.len(),
        ensures
            self.holds(self.names[i]@),
            self.slot(self.names[i]@) == i,
            self@.contains_key(self.names[i]@),
            self@[self.names[i]@] == self.tables[i],
    {
        let c = self.slot(self.names[i]@);
        assert(c == i) by {
            if c < i {
                assert(self.names[c]@ != self.names[i]@);
            } else if i < c {
                assert(self.names[i]@ != self.names[c]@);
            }
        }
    }

    /// Makes a registry with no tables.
    pub fn new() -> (schema: DbSchema<T, B>)
        ensures
            schema@ == Map::<Seq<char>, T>::empty(),
    {
        DbSchema { names: Vec::new(), tables: Vec::new(), entry_type: PhantomData }
    }

    /// The place of the table named `table_name`, if it is registered.
    fn position(&self, table_name: &String) -> (place: Option<usize>)
        ensures
            match place {
                Some(i) => i < self.names.len() && self.names[i as int]@ == table_name@,
                None => !self.holds(table_name@),
            },
    {
        let mut i: usize = 0;
        while i < self.names.len()
            invariant
                i <= self.names.len(),
                forall|j: int| 0 <= j < i ==> self.names[j]@ != table_name@,
            decreases self.names.len() - i,
        {
            if self.names[i] == *table_name {
                return Some(i);
            }
            i = i + 1;
        }
        None
    }

    /// Registers `backend` under `table_name`. A table that was registered
    /// under that name before is replaced and handed back.
    pub fn declare_table(&mut self, table_name: String, backend: T) -> (replaced: Option<T>)
        ensures
            final(self)@ == old(self)@.insert(table_name@, backend),
            replaced == if old(self)@.contains_key(table_name@) {
                Some(old(self)@[table_name@])
            } else {
                None::<T>
            },
    {
        proof {
            use_type_invariant(&*self);
        }
        let place: Option<usize> = self.position(&table_name);
        // The lists leave `self` while they change and come back together,
        // so that `self` is whole at every step.
        let mut taken: DbSchema<T, B> = DbSchema::new();
        core::mem::swap(self, &mut taken);
        let DbSchema { mut names, mut tables, entry_type } = taken;
        let replaced: Option<T> = match place {
            Some(i) => {
                proof {
                    old(self).lemma_slot(i as int);
                }
                tables.push(backend);
                Some(tables.swap_remove(i))
            },
            None => {
                names.push(table_name);
                tables.push(backend);
                None
            },
        };
        *self = DbSchema { names, tables, entry_type };
        proof {
            let place_after: int = match place {
                Some(i) => i as int,
                None => old(self).names.len() as int,
            };
            self.lemma_slot(place_after);
            let expected = old(self)@.insert(table_name@, backend);
            assert forall|n: Seq<char>| #[trigger]
                self@.contains_key(n) == expected.contains_key(n) && (self@.contains_key(n)
                    ==> self@[n] == expected[n]) by {
                if n != table_name@ {
                    if old(self).holds(n) {
                        let j = old(self).slot(n);
                        old(self).lemma_slot(j);
                        self.lemma_slot(j);
                    }
                    if self.holds(n) {
                        assert(old(self).names[self.slot(n)]@ == n);
                    }
                }
            }
        }
        replaced
    }

    /// Looks up `entry_id` in the table named `table_name`. Where no table
    /// has that name the result is `None`, as it is where the table has
    /// no such entry.
    pub fn get_entry_from_table(&self, table_name: String, entry_id: u64) -> (found: Option<&B>)
        ensures
            !self@.contains_key(table_name@) ==> found is None,
            self@.contains_key(table_name@) ==> backend_finds(self@[table_name@], entry_id, found),
            found matches Some(entry) ==> entry.record().id == entry_id && entry.record().alive,
    {
        proof {
            use_type_invariant(self);
        }
        match self.position(&table_name) {
            Some(i) => {
                proof {
                    self.lemma_slot(i as int);
                }
                self.tables[i].find_entry_by_id(entry_id)
            },
            None => None,
        }
    }

    /// Inserts `entry` into the table named `table_name`. Fails with
    /// `TableNotFound` exactly when no table has that name, and then
    /// changes nothing. Otherwise the call is handed to the backend of
    /// that table: the result and the new state of the table are what
    /// `insert_entry` gave for the old state and `entry`, and no other
    /// table is touched.
    pub fn insert_entry_into_table(&mut self, table_name: String, entry: B) -> (done: Result<
        (),
        DbError,
    >)
        ensures
            final(self)@.dom() == old(self)@.dom(),
            forall|name: Seq<char>|
                name != table_name@ && old(self)@.contains_key(name) ==> final(self)@[name] == old(
                    self,
                )@[name],
            !old(self)@.contains_key(table_name@) ==> final(self)@ == old(self)@,
            old(self)@.contains_key(table_name@) ==> exists|table: &mut T|
                mut_ref_current(table) == old(self)@[table_name@] && mut_ref_future(table)
                    == final(self)@[table_name@] && #[trigger] call_ensures(
                    T::insert_entry,
                    (table, entry),
                    done,
                ),
            done matches Err(err) ==> err.kind() == (if old(self)@.contains_key(table_name@) {
                DbErrorType::Misc
            } else {
                DbErrorType::TableNotFound
            }),
            !old(self)@.contains_key(table_name@) ==> done is Err,
    {
        proof {
            use_type_invariant(&*self);
        }
        match self.position(&table_name) {
            Some(i) => {
                proof {
                    self.lemma_slot(i as int);
                }
                let mut taken: DbSchema<T, B> = DbSchema::new();
                core::mem::swap(self, &mut taken);
                let DbSchema { names, mut tables, entry_type } = taken;
                let done: Result<(), DbError> = tables[i].insert_entry(entry);
                *self = DbSchema { names, tables, entry_type };
                proof {
                    self.lemma_slot(i as int);
                }
                done
            },
            None => Err(DbError::new(DbErrorType::TableNotFound)),
        }
    }
}

} // verus!

//! The contract between the schema and the storage backends.
//!
//! A backend stores entries of one type and offers two operations: a
//! lookup by identifier and an insert. The schema is written against
//! these two traits alone.

use vstd::prelude::*;
use crate::db_codec::FRAME_PREFIX_SIZE;
use crate::db_error::DbError;
use crate::db_error::DbErrorType;
use crate::db_file::EntryView;

verus! {

/// An entry that a backend can store.
pub trait DbStorageEntry {
    /// The record that this entry holds.
    spec fn record(&self) -> EntryView;

    /// Sets the identifier and leaves the rest as it is.
    fn set_entry_id(&mut self, id: u64)
        ensures
            final(self).record() == (EntryView {
                id,
                alive: old(self).record().alive,
                data: old(self).record().data,
            }),
    ;

    /// Sets the payload and leaves the rest as it is.
    fn set_entry_data(&mut self, data: Vec<u8>)
        ensures
            final(self).record() == (EntryView {
                id: old(self).record().id,
                alive: old(self).record().alive,
                data: data@,
            }),
    ;

    /// Sets the liveness flag and leaves the rest as it is.
    fn set_entry_alive(&mut self, alive: bool)
        ensures
            final(self).record() == (EntryView {
                id: old(self).record().id,
                alive,
                data: old(self).record().data,
            }),
    ;

    /// The identifier.
    fn get_entry_id(&self) -> (id: u64)
        ensures
            id == self.record().id,
    ;

    /// The liveness flag: `false` for a tombstone.
    fn get_entry_alive(&self) -> (alive: bool)
        ensures
            alive == self.record().alive,
    ;

    /// The payload.
    fn get_entry_data(&self) -> (data: &Vec<u8>)
        ensures
            data@ == self.record().data,
    ;

    /// The length in bytes of the frame that holds this entry: identifier,
    /// liveness byte and payload.
    fn get_entry_size(&self) -> (size: u64)
        requires
            FRAME_PREFIX_SIZE + self.record().data.len() <= u64::MAX,
        ensures
            size == FRAME_PREFIX_SIZE + self.record().data.len(),
    ;
}

/// A storage backend for entries of type `T`.
pub trait DbStorage<T: DbStorageEntry> {
    /// Looks up the live entry with identifier `id`. `None` stands for an
    /// identifier that was never written as well as for one that was
    /// deleted.
    fn find_entry_by_id(&self, id: u64) -> (found: Option<&T>)
        ensures
            found matches Some(entry) ==> entry.record().id == id && entry.record().alive,
    ;

    /// Persists one entry. Every failure of the backend is reported as
    /// `Misc`.
    fn insert_entry(&mut self, entry: T) -> (done: Result<(), DbError>)
        ensures
            done matches Err(err) ==> err.kind() == DbErrorType::Misc,
    ;
}

} // verus!

//! The store file: its header, its records, and the operations on the
//! bytes of one file.

use vstd::prelude::*;
use vstd::std_specs::cmp::PartialEqSpecImpl;
use crate::db_codec::FRAME_PREFIX_SIZE;
use crate::db_codec::HEADER_SIZE;
use crate::db_codec::decode_header;
use crate::db_codec::decode_record;
use crate::db_codec::encode_header;
use crate::db_codec::encode_record;
use crate::db_codec::entry_bytes;
use crate::db_codec::entry_from_bytes;
use crate::db_codec::frame_size;
use crate::db_codec::header_bytes;
use crate::db_codec::header_from_bytes;
use crate::db_error::DbError;
use crate::db_error::DbErrorType;
use crate::db_interfaces::DbStorageEntry;
use crate::db_laws::lemma_append_keeps_frames;
use crate::db_laws::lemma_find_in_first;
use crate::db_laws::lemma_find_in_none;
use crate::db_laws::lemma_frame_offset_step;
use crate::db_laws::lemma_frames_end;

verus! {

/// The preamble of a store file.
#[derive(Debug, Clone, Copy, PartialEq, Eq, Structural)]
pub struct DbFileHeader {
    /// Length in bytes of the payload of every record in the file.
    pub data_size: u64,
    /// Number of records, as written when the file was created. Appending
    /// does not update it, so it is a hint only.
    pub num_entries: u64,
}

/// One record of a store file.
#[derive(Debug)]
pub struct DbFileEntry {
    /// Identifier chosen by the caller. The store does not keep it unique.
    pub id: u64,
    /// `false` marks the record as a tombstone.
    pub alive: bool,
    /// The payload, stored verbatim.
    pub data: Vec<u8>,
}

/// A record as a mathematical value.
pub struct EntryView {
    pub id: u64,
    pub alive: bool,
    pub data: Seq<u8>,
}

impl View for DbFileEntry {
    type V = EntryView;

    open spec fn view(&self) -> EntryView {
        EntryView { id: self.id, alive: self.alive, data: self.data@ }
    }
}

/// The view of an optional record.
pub open spec fn entry_view(entry: Option<DbFileEntry>) -> Option<EntryView> {
    match entry {
        Some(e) => Some(e@),
        None => None,
    }
}

/// Compares two byte vectors.
fn same_bytes(a: &Vec<u8>, b: &Vec<u8>) -> (same: bool)
    ensures
        same == (a@ == b@),
{
    if a.len() != b.len() {
        return false;
    }
    let mut i: usize = 0;
    while i < a.len()
        invariant
            i <= a.len(),
            a.len() == b.len(),
            forall|j: int| 0 <= j < i ==> a@[j] == b@[j],
        decreases a.len() - i,
    {
        if a[i] != b[i] {
            return false;
        }
        i = i + 1;
    }
    assert(a@ =~= b@);
    true
}

impl PartialEq for DbFileEntry {
    fn eq(&self, other: &Self) -> (same: bool) {
        self.id == other.id && self.alive == other.alive && same_bytes(&self.data, &other.data)
    }
}

impl PartialEqSpecImpl for DbFileEntry {
    open spec fn obeys_eq_spec() -> bool {
        true
    }

    open spec fn eq_spec(&self, other: &Self) -> bool {
        self@ == other@
    }
}

impl Eq for DbFileEntry {}

impl Clone for DbFileEntry {
    fn clone(&self) -> (copy: Self)
        ensures
            copy@ == self@,
    {
        DbFileEntry {
            id: self.id,
            alive: self.alive,
            data: vstd::slice::slice_to_vec(self.data.as_slice()),
        }
    }
}

impl DbStorageEntry for DbFileEntry {
    open spec fn record(&self) -> EntryView {
        self@
    }

    fn set_entry_id(&mut self, id: u64) {
        self.id = id;
    }

    fn set_entry_data(&mut self, data: Vec<u8>) {
        self.data = data;
    }

    fn set_entry_alive(&mut self, alive: bool) {
        self.alive = alive;
    }

    fn get_entry_id(&self) -> (id: u64) {
        self.id
    }

    fn get_entry_alive(&self) -> (alive: bool) {
        self.alive
    }

    fn get_entry_data(&self) -> (data: &Vec<u8>) {
        &self.data
    }

    fn get_entry_size(&self) -> (size: u64) {
        FRAME_PREFIX_SIZE as u64 + self.data.len() as u64
    }
}

/// A store file as seen from memory: the header that was read or written
/// when the store was made, and the path it was made for. The content of
/// the file is handed to each operation as a parameter named `file`, which
/// holds the bytes of the file from its first to its last.
#[derive(Debug)]
pub struct DbFile {
    header: DbFileHeader,
    path: String,
}

/// A store as a mathematical value.
pub struct DbFileView {
    pub header: DbFileHeader,
    pub path: Seq<char>,
}

impl View for DbFile {
    type V = DbFileView;

    closed spec fn view(&self) -> DbFileView {
        DbFileView { header: self.header, path: self.path@ }
    }
}

impl PartialEq for DbFile {
    fn eq(&self, other: &Self) -> (same: bool) {
        self.header.data_size == other.header.data_size && self.header.num_entries
            == other.header.num_entries && self.path == other.path
    }
}

impl PartialEqSpecImpl for DbFile {
    open spec fn obeys_eq_spec() -> bool {
        true
    }

    open spec fn eq_spec(&self, other: &Self) -> bool {
        self@ == other@
    }
}

impl Eq for DbFile {}

impl Clone for DbFile {
    fn clone(&self) -> (copy: Self)
        ensures
            copy@ == self@,
    {
        DbFile { header: self.header, path: self.path.clone() }
    }
}

/// Where the frame with index `k` starts in a store file, the first frame
/// having index 0.
pub open spec fn frame_offset(data_size: u64, k: int) -> int {
    HEADER_SIZE + k * frame_size(data_size)
}

/// The record whose frame starts at `offset` in `file`, or `None`
/// when fewer bytes than one frame lie between `offset` and the end.
pub open spec fn frame_at(file: Seq<u8>, offset: int, data_size: u64) -> Option<EntryView> {
    if 0 <= offset <= file.len() {
        entry_from_bytes(file.subrange(offset, file.len() as int), data_size)
    } else {
        None
    }
}

/// The record in the frame with index `k` of `file`, if the file
/// holds that frame in full.
pub open spec fn nth_frame(file: Seq<u8>, data_size: u64, k: int) -> Option<EntryView> {
    if 0 <= k {
        frame_at(file, frame_offset(data_size, k), data_size)
    } else {
        None
    }
}

/// Whether `frame` holds a live record with identifier `id`.
pub open spec fn is_live_match(frame: Option<EntryView>, id: u64) -> bool {
    frame matches Some(entry) && entry.id == id && entry.alive
}

/// Whether frame `k` is the first one in `file` that holds a live record
/// with identifier `id`.
pub open spec fn first_live_frame(file: Seq<u8>, data_size: u64, id: u64, k: int) -> bool {
    &&& 0 <= k
    &&& is_live_match(nth_frame(file, data_size, k), id)
    &&& forall|j: int| 0 <= j < k ==> !is_live_match(#[trigger] nth_frame(file, data_size, j), id)
}

/// What a lookup of `id` in `file` yields: the live record with
/// that identifier that comes first in the file, or `None` when the file
/// holds no such record.
pub open spec fn find_in(file: Seq<u8>, data_size: u64, id: u64) -> Option<EntryView> {
    if exists|k: int| first_live_frame(file, data_size, id, k) {
        nth_frame(file, data_size, choose|k: int| first_live_frame(file, data_size, id, k))
    } else {
        None
    }
}

/// Whether `file` is a header followed by exactly `n` whole frames.
pub open spec fn holds_frames(file: Seq<u8>, data_size: u64, n: int) -> bool {
    0 <= n && file.len() == frame_offset(data_size, n)
}

impl DbFile {
    /// Makes the in-memory side of a store with the given header fields
    /// and path. No file is involved.
    pub fn new_in_mem(data_size: u64, num_entries: u64, path: &str) -> (db: DbFile)
        ensures
            db@ == (DbFileView {
                header: DbFileHeader { data_size, num_entries },
                path: path@,
            }),
    {
        DbFile { header: DbFileHeader { data_size, num_entries }, path: path.to_owned() }
    }

    /// Creates a store for records with `data_size` bytes of payload. The
    /// file is emptied and receives a fresh header with a record
    /// count of 0.
    pub fn new_to_disk(data_size: u64, path: &str, file: &mut Vec<u8>) -> (db: DbFile)
        ensures
            db@ == (DbFileView {
                header: DbFileHeader { data_size, num_entries: 0 },
                path: path@,
            }),
            final(file)@ == header_bytes(db@.header),
            holds_frames(final(file)@, data_size, 0),
    {
        let db: DbFile = DbFile::new_in_mem(data_size, 0, path);
        db.to_disk(file);
        db
    }

    /// Opens the store whose file holds the bytes `file`. Only the header
    /// is read; what follows it is not looked at. Fails with
    /// `MalformedHeader` exactly when `file` has fewer than 16 bytes.
    pub fn new_from_disk(path: &str, file: &[u8]) -> (opened: Result<DbFile, DbError>)
        ensures
            opened is Ok <==> file@.len() >= HEADER_SIZE,
            match opened {
                Ok(db) => header_from_bytes(file@) == Some(db@.header) && db@.path == path@,
                Err(err) => header_from_bytes(file@) is None && err.kind()
                    == DbErrorType::MalformedHeader,
            },
    {
        match decode_header(file) {
            Ok(header) => Ok(DbFile { header, path: path.to_owned() }),
            Err(err) => Err(err),
        }
    }

    /// Writes this store's header as the whole content of `file`.
    pub fn to_disk(&self, file: &mut Vec<u8>)
        ensures
            final(file)@ == header_bytes(self@.header),
            final(file)@.len() == HEADER_SIZE,
    {
        let mut bytes: Vec<u8> = encode_header(&self.header);
        file.clear();
        file.append(&mut bytes);
    }

    /// Appends `entry` to `file` as one more frame. Nothing that
    /// the file held is changed: the header stays as it is, so its record
    /// count goes stale. The payload is written whatever its length; one
    /// whose length is not the payload size of this store shifts every
    /// frame that follows it, so callers pass none.
    pub fn append_entry(&self, file: &mut Vec<u8>, entry: &DbFileEntry)
        ensures
            final(file)@ == old(file)@ + entry_bytes(entry@),
            final(file)@.len() == old(file)@.len() + FRAME_PREFIX_SIZE + entry.data@.len(),
            forall|n: int|
                entry.data@.len() == self@.header.data_size && #[trigger] holds_frames(
                    old(file)@,
                    self@.header.data_size,
                    n,
                ) ==> holds_frames(final(file)@, self@.header.data_size, n + 1),
    {
        let mut bytes: Vec<u8> = encode_record(entry);
        file.append(&mut bytes);
        proof {
            assert forall|n: int|
                entry.data@.len() == self@.header.data_size && #[trigger] holds_frames(
                    old(file)@,
                    self@.header.data_size,
                    n,
                ) implies holds_frames(file@, self@.header.data_size, n + 1) by {
                lemma_append_keeps_frames(old(file)@, entry@, self@.header.data_size, n);
            }
        }
    }

    /// Reads the record whose frame starts at `offset` in `file`.
    /// Returns `None` exactly when fewer bytes than one frame lie between
    /// `offset` and the end of the file.
    pub fn read_entry_at(&self, file: &[u8], offset: u64) -> (entry: Option<DbFileEntry>)
        ensures
            entry_view(entry) == frame_at(file@, offset as int, self@.header.data_size),
            entry is Some <==> offset + frame_size(self@.header.data_size) <= file@.len(),
    {
        let len: usize = file.len();
        if offset > len as u64 {
            return None;
        }
        decode_record(vstd::slice::slice_subrange(file, offset as usize, len), self.header.data_size)
    }

    /// Looks up `entry_id` in `file`: scans the frames from the
    /// first one on and returns the first live record with that
    /// identifier, or `None` when the end of the file is reached. A
    /// tombstone does not end the scan.
    pub fn find_entry(&self, file: &[u8], entry_id: u64) -> (found: Option<DbFileEntry>)
        ensures
            entry_view(found) == find_in(file@, self@.header.data_size, entry_id),
            found matches Some(entry) ==> entry.id == entry_id && entry.alive,
            found is None <==> forall|k: int|
                !is_live_match(#[trigger] nth_frame(file@, self@.header.data_size, k), entry_id),
    {
        let data_size: u64 = self.header.data_size;
        let len: usize = file.len();
        let mut offset: u64 = HEADER_SIZE as u64;
        let ghost mut k: int = 0;
        loop
            invariant
                0 <= k,
                len == file@.len(),
                offset == frame_offset(data_size, k),
                data_size == self@.header.data_size,
                forall|j: int|
                    0 <= j < k ==> !is_live_match(
                        #[trigger] nth_frame(file@, data_size, j),
                        entry_id,
                    ),
            decreases file@.len() - offset,
        {
            match self.read_entry_at(file, offset) {
                None => {
                    proof {
                        assert forall|c: int| !first_live_frame(file@, data_size, entry_id, c) by {
                            if k <= c {
                                lemma_frames_end(file@, data_size, k, c);
                            }
                        }
                        lemma_find_in_none(file@, data_size, entry_id);
                    }
                    return None;
                },
                Some(entry) => {
                    if entry.id == entry_id && entry.alive {
                        proof {
                            lemma_find_in_first(file@, data_size, entry_id, k);
                            lemma_find_in_none(file@, data_size, entry_id);
                        }
                        return Some(entry);
                    }
                    proof {
                        lemma_frame_offset_step(data_size, k);
                        k = k + 1;
                    }
                    offset = offset + FRAME_PREFIX_SIZE as u64 + data_size;
                },
            }
        }
    }

    /// The length in bytes of one frame of this store.
    pub fn get_entry_size(&self) -> (size: u64)
        requires
            frame_size(self@.header.data_size) <= u64::MAX,
        ensures
            size == frame_size(self@.header.data_size),
    {
        FRAME_PREFIX_SIZE as u64 + self.header.data_size
    }

    /// The header of this store.
    pub fn header(&self) -> (header: DbFileHeader)
        ensures
            header == self@.header,
    {
        self.header
    }

    /// The path this store was made for.
    pub fn path(&self) -> (path: &str)
        ensures
            path@ == self@.path,
    {
        self.path.as_str()
    }
}

} // verus!

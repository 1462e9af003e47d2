//! The byte layout of a store file.
//!
//! A header is 16 bytes: the payload size, then the record count, each as
//! a 64-bit integer. A record frame is the identifier as a 64-bit integer,
//! one byte that is zero for a tombstone and non-zero for a live record,
//! and the payload. Integers are stored little-endian, whatever the host,
//! so that a file reads the same on every machine.

use vstd::prelude::*;
use vstd::bytes::lemma_auto_spec_u64_to_from_le_bytes;
use vstd::bytes::spec_u64_from_le_bytes;
use vstd::bytes::spec_u64_to_le_bytes;
use vstd::bytes::u64_from_le_bytes;
use vstd::bytes::u64_to_le_bytes;
use vstd::slice::slice_subrange;
use vstd::slice::slice_to_vec;
use crate::db_error::DbError;
use crate::db_error::DbErrorType;
use crate::db_file::DbFileEntry;
use crate::db_file::DbFileHeader;
use crate::db_file::EntryView;
use crate::db_file::entry_view;

verus! {

/// Length in bytes of an encoded header.
pub const HEADER_SIZE: usize = 16;

/// Length in bytes of what precedes the payload in a record frame: the
/// identifier and the liveness byte.
pub const FRAME_PREFIX_SIZE: usize = 9;

/// Length in bytes of a record frame whose payload has `data_size` bytes.
pub open spec fn frame_size(data_size: u64) -> int {
    FRAME_PREFIX_SIZE + data_size
}

/// The byte that stands for a liveness flag.
pub open spec fn alive_byte(alive: bool) -> u8 {
    if alive {
        1
    } else {
        0
    }
}

/// The 16 bytes that encode `header`.
pub open spec fn header_bytes(header: DbFileHeader) -> Seq<u8> {
    spec_u64_to_le_bytes(header.data_size) + spec_u64_to_le_bytes(header.num_entries)
}

/// The header that the first 16 bytes of `bytes` encode, if there are
/// that many.
pub open spec fn header_from_bytes(bytes: Seq<u8>) -> Option<DbFileHeader> {
    if bytes.len() >= HEADER_SIZE {
        Some(
            DbFileHeader {
                data_size: spec_u64_from_le_bytes(bytes.subrange(0, 8)),
                num_entries: spec_u64_from_le_bytes(bytes.subrange(8, 16)),
            },
        )
    } else {
        None
    }
}

/// The frame that encodes `entry`.
pub open spec fn entry_bytes(entry: EntryView) -> Seq<u8> {
    spec_u64_to_le_bytes(entry.id) + seq![alive_byte(entry.alive)] + entry.data
}

/// The record that the first `frame_size(data_size)` bytes of `bytes`
/// encode, if there are that many.
pub open spec fn entry_from_bytes(bytes: Seq<u8>, data_size: u64) -> Option<EntryView> {
    if bytes.len() >= frame_size(data_size) {
        Some(
            EntryView {
                id: spec_u64_from_le_bytes(bytes.subrange(0, 8)),
                alive: bytes[8] != 0,
                data: bytes.subrange(FRAME_PREFIX_SIZE as int, frame_size(data_size)),
            },
        )
    } else {
        None
    }
}

/// Encodes a header as 16 bytes, from which `decode_header` gives the
/// header back.
pub fn encode_header(header: &DbFileHeader) -> (bytes: Vec<u8>)
    ensures
        bytes@ == header_bytes(*header),
        bytes@.len() == HEADER_SIZE,
        header_from_bytes(bytes@) == Some(*header),
{
    let mut bytes: Vec<u8> = u64_to_le_bytes(header.data_size);
    let mut count: Vec<u8> = u64_to_le_bytes(header.num_entries);
    bytes.append(&mut count);
    proof {
        lemma_header_round_trip(*header, Seq::empty());
    }
    bytes
}

/// Decodes the header at the start of `bytes`. Fails with
/// `MalformedHeader` exactly when fewer than 16 bytes are given.
pub fn decode_header(bytes: &[u8]) -> (decoded: Result<DbFileHeader, DbError>)
    ensures
        decoded is Ok <==> bytes@.len() >= HEADER_SIZE,
        match decoded {
            Ok(header) => header_from_bytes(bytes@) == Some(header),
            Err(err) => header_from_bytes(bytes@) is None && err.kind()
                == DbErrorType::MalformedHeader,
        },
{
    if bytes.len() < HEADER_SIZE {
        return Err(DbError::new(DbErrorType::MalformedHeader));
    }
    let data_size: u64 = u64_from_le_bytes(slice_subrange(bytes, 0, 8));
    let num_entries: u64 = u64_from_le_bytes(slice_subrange(bytes, 8, 16));
    Ok(DbFileHeader { data_size, num_entries })
}

/// Encodes a record as one frame. The payload is written as it is,
/// whatever its length; `decode_record` gives the record back when it is
/// told that length.
pub fn encode_record(entry: &DbFileEntry) -> (bytes: Vec<u8>)
    ensures
        bytes@ == entry_bytes(entry@),
        bytes@.len() == FRAME_PREFIX_SIZE + entry.data@.len(),
        forall|data_size: u64|
            data_size == entry.data@.len() ==> #[trigger] entry_from_bytes(bytes@, data_size)
                == Some(entry@),
{
    let mut bytes: Vec<u8> = u64_to_le_bytes(entry.id);
    bytes.push(if entry.alive { 1u8 } else { 0u8 });
    let mut payload: Vec<u8> = slice_to_vec(entry.data.as_slice());
    bytes.append(&mut payload);
    proof {
        assert(bytes@ =~= entry_bytes(entry@));
        assert forall|data_size: u64| data_size == entry.data@.len() implies #[trigger]
            entry_from_bytes(bytes@, data_size) == Some(entry@) by {
            lemma_record_round_trip(entry@, data_size, Seq::empty());
        }
    }
    bytes
}

/// Decodes the frame at the start of `bytes`, for records whose payload
/// has `data_size` bytes. Returns `None` exactly when fewer bytes than
/// one frame are given.
pub fn decode_record(bytes: &[u8], data_size: u64) -> (decoded: Option<DbFileEntry>)
    ensures
        entry_view(decoded) == entry_from_bytes(bytes@, data_size),
        decoded is Some <==> bytes@.len() >= frame_size(data_size),
{
    if bytes.len() < FRAME_PREFIX_SIZE {
        return None;
    }
    let room: usize = bytes.len() - FRAME_PREFIX_SIZE;
    if (room as u64) < data_size {
        return None;
    }
    let end: usize = FRAME_PREFIX_SIZE + data_size as usize;
    let id: u64 = u64_from_le_bytes(slice_subrange(bytes, 0, 8));
    let alive: bool = bytes[8] != 0;
    let data: Vec<u8> = slice_to_vec(slice_subrange(bytes, FRAME_PREFIX_SIZE, end));
    Some(DbFileEntry { id, alive, data })
}

/// An encoded header has 16 bytes, and decoding it gives the header back,
/// whatever follows it.
pub proof fn lemma_header_round_trip(header: DbFileHeader, rest: Seq<u8>)
    ensures
        header_bytes(header).len() == HEADER_SIZE,
        header_from_bytes(header_bytes(header)) == Some(header),
        header_from_bytes(header_bytes(header) + rest) == Some(header),
{
    lemma_auto_spec_u64_to_from_le_bytes();
    let bytes = header_bytes(header);
    assert(bytes.subrange(0, 8) =~= spec_u64_to_le_bytes(header.data_size));
    assert(bytes.subrange(8, 16) =~= spec_u64_to_le_bytes(header.num_entries));
    let longer = header_bytes(header) + rest;
    assert(longer.subrange(0, 8) =~= spec_u64_to_le_bytes(header.data_size));
    assert(longer.subrange(8, 16) =~= spec_u64_to_le_bytes(header.num_entries));
}

/// An encoded record is one frame long, and decoding it with the length
/// of its payload gives the record back, whatever follows it.
pub proof fn lemma_record_round_trip(entry: EntryView, data_size: u64, rest: Seq<u8>)
    requires
        entry.data.len() == data_size,
    ensures
        entry_bytes(entry).len() == frame_size(data_size),
        entry_from_bytes(entry_bytes(entry), data_size) == Some(entry),
        entry_from_bytes(entry_bytes(entry) + rest, data_size) == Some(entry),
{
    lemma_auto_spec_u64_to_from_le_bytes();
    let bytes = entry_bytes(entry);
    assert(bytes.subrange(0, 8) =~= spec_u64_to_le_bytes(entry.id));
    assert(bytes.subrange(FRAME_PREFIX_SIZE as int, frame_size(data_size)) =~= entry.data);
    let longer = entry_bytes(entry) + rest;
    assert(longer.subrange(0, 8) =~= spec_u64_to_le_bytes(entry.id));
    assert(longer.subrange(FRAME_PREFIX_SIZE as int, frame_size(data_size)) =~= entry.data);
}

} // verus!

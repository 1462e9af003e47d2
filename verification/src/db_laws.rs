//! Laws of the store file: what holds of the frames of a file and of
//! lookups in it, whatever the file and the records are.

use vstd::prelude::*;
use crate::db_codec::FRAME_PREFIX_SIZE;
use crate::db_codec::HEADER_SIZE;
use crate::db_codec::entry_bytes;
use crate::db_codec::frame_size;
use crate::db_codec::header_bytes;
use crate::db_codec::lemma_header_round_trip;
use crate::db_codec::lemma_record_round_trip;
use crate::db_file::DbFileHeader;
use crate::db_file::EntryView;
use crate::db_file::find_in;
use crate::db_file::first_live_frame;
use crate::db_file::frame_at;
use crate::db_file::frame_offset;
use crate::db_file::holds_frames;
use crate::db_file::is_live_match;
use crate::db_file::nth_frame;

verus! {

// Where the frames lie.

/// Frames follow one another at a distance of one frame size.
pub proof fn lemma_frame_offset_step(data_size: u64, k: int)
    ensures
        frame_offset(data_size, k + 1) == frame_offset(data_size, k) + frame_size(data_size),
{
    assert((k + 1) * frame_size(data_size) == k * frame_size(data_size) + frame_size(data_size))
        by (nonlinear_arith);
}

/// Later frames start further into the file.
pub proof fn lemma_frame_offset_monotonic(data_size: u64, j: int, k: int)
    requires
        j <= k,
    ensures
        frame_offset(data_size, j) <= frame_offset(data_size, k),
{
    assert(j * frame_size(data_size) <= k * frame_size(data_size)) by (nonlinear_arith)
        requires
            j <= k,
            frame_size(data_size) >= 0,
    ;
}

/// Where a frame is missing, every later frame is missing too.
pub proof fn lemma_frames_end(file: Seq<u8>, data_size: u64, j: int, k: int)
    requires
        0 <= j <= k,
        nth_frame(file, data_size, j) is None,
    ensures
        nth_frame(file, data_size, k) is None,
{
    lemma_frame_offset_monotonic(data_size, j, k);
    lemma_frame_offset_monotonic(data_size, 0, j);
}

/// A file with `n` whole frames holds the frames with index below `n` and
/// no others.
pub proof fn lemma_frames_of(file: Seq<u8>, data_size: u64, n: int, k: int)
    requires
        holds_frames(file, data_size, n),
        0 <= k,
    ensures
        nth_frame(file, data_size, k) is Some <==> k < n,
{
    lemma_frame_offset_monotonic(data_size, 0, k);
    lemma_frame_offset_step(data_size, k);
    if k < n {
        lemma_frame_offset_monotonic(data_size, k + 1, n);
    } else {
        lemma_frame_offset_monotonic(data_size, n, k);
    }
}

// Reading and appending.

/// A frame is decided by its own bytes: what lies behind it in the file
/// does not matter.
pub proof fn lemma_frame_at_local(file: Seq<u8>, other: Seq<u8>, offset: int, data_size: u64)
    requires
        0 <= offset,
        offset + frame_size(data_size) <= file.len(),
        offset + frame_size(data_size) <= other.len(),
        file.subrange(offset, offset + frame_size(data_size)) == other.subrange(
            offset,
            offset + frame_size(data_size),
        ),
    ensures
        frame_at(file, offset, data_size) is Some,
        frame_at(file, offset, data_size) == frame_at(other, offset, data_size),
{
    let size = frame_size(data_size);
    let frame = file.subrange(offset, offset + size);
    let a = file.subrange(offset, file.len() as int);
    let b = other.subrange(offset, other.len() as int);
    assert(a.subrange(0, 8) =~= frame.subrange(0, 8));
    assert(b.subrange(0, 8) =~= other.subrange(offset, offset + size).subrange(0, 8));
    assert(a.subrange(FRAME_PREFIX_SIZE as int, size) =~= frame.subrange(
        FRAME_PREFIX_SIZE as int,
        size,
    ));
    assert(b.subrange(FRAME_PREFIX_SIZE as int, size) =~= other.subrange(
        offset,
        offset + size,
    ).subrange(FRAME_PREFIX_SIZE as int, size));
}

/// A record that was appended is read back at the offset where the file
/// ended before.
pub proof fn lemma_append_then_read(file: Seq<u8>, entry: EntryView, data_size: u64)
    requires
        entry.data.len() == data_size,
    ensures
        (file + entry_bytes(entry)).len() == file.len() + frame_size(data_size),
        frame_at(file + entry_bytes(entry), file.len() as int, data_size) == Some(entry),
{
    lemma_record_round_trip(entry, data_size, Seq::empty());
    let after = file + entry_bytes(entry);
    assert(after.subrange(file.len() as int, after.len() as int) =~= entry_bytes(entry));
}

/// Appending never changes a frame that the file already held.
pub proof fn lemma_read_survives_append(file: Seq<u8>, more: Seq<u8>, offset: int, data_size: u64)
    requires
        frame_at(file, offset, data_size) is Some,
    ensures
        frame_at(file + more, offset, data_size) == frame_at(file, offset, data_size),
{
    let size = frame_size(data_size);
    assert(file.subrange(offset, offset + size) =~= (file + more).subrange(offset, offset + size));
    lemma_frame_at_local(file, file + more, offset, data_size);
}

/// Appending one record to a file of whole frames gives a file of whole
/// frames, with one frame more.
pub proof fn lemma_append_keeps_frames(file: Seq<u8>, entry: EntryView, data_size: u64, n: int)
    requires
        holds_frames(file, data_size, n),
        entry.data.len() == data_size,
    ensures
        holds_frames(file + entry_bytes(entry), data_size, n + 1),
        nth_frame(file + entry_bytes(entry), data_size, n) == Some(entry),
        forall|k: int|
            0 <= k < n ==> #[trigger] nth_frame(file + entry_bytes(entry), data_size, k)
                == nth_frame(file, data_size, k),
{
    lemma_append_then_read(file, entry, data_size);
    lemma_frame_offset_step(data_size, n);
    assert forall|k: int| 0 <= k < n implies #[trigger] nth_frame(
        file + entry_bytes(entry),
        data_size,
        k,
    ) == nth_frame(file, data_size, k) by {
        lemma_frames_of(file, data_size, n, k);
        lemma_read_survives_append(file, entry_bytes(entry), frame_offset(data_size, k), data_size);
    }
}

/// Appending is not idempotent: the same record appended twice makes two
/// frames, and the file grows by two frame sizes.
pub proof fn lemma_append_twice(file: Seq<u8>, entry: EntryView, data_size: u64)
    requires
        entry.data.len() == data_size,
    ensures
        (file + entry_bytes(entry) + entry_bytes(entry)).len() == file.len() + 2 * frame_size(
            data_size,
        ),
        frame_at(file + entry_bytes(entry) + entry_bytes(entry), file.len() as int, data_size)
            == Some(entry),
        frame_at(
            file + entry_bytes(entry) + entry_bytes(entry),
            file.len() + frame_size(data_size),
            data_size,
        ) == Some(entry),
{
    let once = file + entry_bytes(entry);
    lemma_append_then_read(file, entry, data_size);
    lemma_append_then_read(once, entry, data_size);
    lemma_read_survives_append(once, entry_bytes(entry), file.len() as int, data_size);
}

// Lookups.

/// The first live frame for an identifier decides the lookup.
pub proof fn lemma_find_in_first(file: Seq<u8>, data_size: u64, id: u64, k: int)
    requires
        first_live_frame(file, data_size, id, k),
    ensures
        find_in(file, data_size, id) == nth_frame(file, data_size, k),
{
    let c = choose|c: int| first_live_frame(file, data_size, id, c);
    assert(c == k) by {
        if c < k {
            assert(!is_live_match(nth_frame(file, data_size, c), id));
        } else if k < c {
            assert(!is_live_match(nth_frame(file, data_size, k), id));
        }
    }
}

/// Where some frame holds a live record with the identifier, one of them
/// is the first.
proof fn lemma_live_match_has_first(file: Seq<u8>, data_size: u64, id: u64, k: int)
    requires
        is_live_match(nth_frame(file, data_size, k), id),
    ensures
        exists|first: int| first_live_frame(file, data_size, id, first),
    decreases k,
{
    if exists|j: int| 0 <= j < k && is_live_match(#[trigger] nth_frame(file, data_size, j), id) {
        let j = choose|j: int|
            0 <= j < k && is_live_match(#[trigger] nth_frame(file, data_size, j), id);
        lemma_live_match_has_first(file, data_size, id, j);
    } else {
        assert(first_live_frame(file, data_size, id, k));
    }
}

/// A lookup yields `None` exactly when no frame of the file holds a live
/// record with the identifier.
pub proof fn lemma_find_in_none(file: Seq<u8>, data_size: u64, id: u64)
    ensures
        find_in(file, data_size, id) is None <==> forall|k: int|
            !is_live_match(#[trigger] nth_frame(file, data_size, k), id),
{
    if exists|k: int| is_live_match(#[trigger] nth_frame(file, data_size, k), id) {
        let k = choose|k: int| is_live_match(#[trigger] nth_frame(file, data_size, k), id);
        lemma_live_match_has_first(file, data_size, id, k);
        let first = choose|first: int| first_live_frame(file, data_size, id, first);
        lemma_find_in_first(file, data_size, id, first);
    }
}

/// A store that was just created holds no record: every lookup yields
/// `None`.
pub proof fn lemma_find_in_fresh_store(header: DbFileHeader, data_size: u64, id: u64)
    ensures
        holds_frames(header_bytes(header), data_size, 0),
        find_in(header_bytes(header), data_size, id) is None,
{
    lemma_header_round_trip(header, Seq::empty());
    let file = header_bytes(header);
    assert forall|k: int| !is_live_match(#[trigger] nth_frame(file, data_size, k), id) by {
        if 0 <= k {
            lemma_frames_of(file, data_size, 0, k);
        }
    }
    lemma_find_in_none(file, data_size, id);
}

/// A record that a lookup finds is still found after anything is
/// appended: of two live records with one identifier the earlier wins.
pub proof fn lemma_find_survives_append(file: Seq<u8>, more: Seq<u8>, data_size: u64, id: u64)
    requires
        find_in(file, data_size, id) is Some,
    ensures
        find_in(file + more, data_size, id) == find_in(file, data_size, id),
{
    let first = choose|first: int| first_live_frame(file, data_size, id, first);
    lemma_find_in_first(file, data_size, id, first);
    lemma_read_survives_append(file, more, frame_offset(data_size, first), data_size);
    assert forall|j: int| 0 <= j < first implies !is_live_match(
        #[trigger] nth_frame(file + more, data_size, j),
        id,
    ) by {
        if nth_frame(file, data_size, j) is None {
            lemma_frames_end(file, data_size, j, first);
        }
        lemma_read_survives_append(file, more, frame_offset(data_size, j), data_size);
    }
    lemma_find_in_first(file + more, data_size, id, first);
}

/// What a lookup yields after one record was appended to a file of whole
/// frames in which the identifier was not found: the new record if it is
/// live and has the identifier, and `None` otherwise. A tombstone is
/// never found.
pub proof fn lemma_find_after_append(
    file: Seq<u8>,
    entry: EntryView,
    data_size: u64,
    n: int,
    id: u64,
)
    requires
        holds_frames(file, data_size, n),
        entry.data.len() == data_size,
        find_in(file, data_size, id) is None,
    ensures
        find_in(file + entry_bytes(entry), data_size, id) == if entry.id == id && entry.alive {
            Some(entry)
        } else {
            None
        },
{
    let after = file + entry_bytes(entry);
    lemma_find_in_none(file, data_size, id);
    lemma_append_keeps_frames(file, entry, data_size, n);
    assert forall|k: int| 0 <= k < n implies !is_live_match(
        #[trigger] nth_frame(after, data_size, k),
        id,
    ) by {
        assert(nth_frame(after, data_size, k) == nth_frame(file, data_size, k));
    }
    if entry.id == id && entry.alive {
        lemma_find_in_first(after, data_size, id, n);
    } else {
        assert forall|k: int| !is_live_match(#[trigger] nth_frame(after, data_size, k), id) by {
            if n < k {
                lemma_frames_of(after, data_size, n + 1, k);
            }
        }
        lemma_find_in_none(after, data_size, id);
    }
}

} // verus!

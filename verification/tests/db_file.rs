use record_store::db_codec::HEADER_SIZE;
use record_store::db_error::DbErrorType;
use record_store::db_file::DbFile;
use record_store::db_file::DbFileEntry;
use record_store::db_file::DbFileHeader;

fn entry(id: u64, alive: bool, data: &str) -> DbFileEntry {
    DbFileEntry { id, alive, data: Vec::from(String::from(data).as_bytes()) }
}

const FIRST_FRAME: u64 = HEADER_SIZE as u64;

#[test]
fn test_create_and_read_db_file() {
    let path = "test_create_and_read_db_file.db";
    let mut file: Vec<u8> = Vec::new();

    let db_file = DbFile::new_to_disk(20, path, &mut file);
    let db_file_read = DbFile::new_from_disk(path, &file).unwrap();

    assert_eq!(db_file, db_file_read);
}

#[test]
fn test_create_and_read_db_entry() {
    let mut file: Vec<u8> = Vec::new();
    let db_file = DbFile::new_to_disk(3, "test_create_and_read_db_entry.db", &mut file);
    let new_entry = DbFileEntry {
        id: 5,
        alive: true,
        data: Vec::from(String::from("abc").as_bytes()),
    };

    db_file.append_entry(&mut file, &new_entry);

    let new_entry_read = db_file.read_entry_at(&file, FIRST_FRAME).unwrap();
    assert_eq!(new_entry, new_entry_read);
}

#[test]
fn test_find_entry_exists() {
    let mut file: Vec<u8> = Vec::new();
    let db_file = DbFile::new_to_disk(3, "test_find_entry_exists.db", &mut file);
    let new_entry = DbFileEntry {
        id: 5,
        alive: true,
        data: Vec::from(String::from("abc").as_bytes()),
    };

    db_file.append_entry(&mut file, &new_entry);

    let new_entry_read = db_file.find_entry(&file, 5).unwrap();
    assert_eq!(new_entry, new_entry_read);
}

#[test]
fn test_find_entry_doesnt_exist() {
    let mut file: Vec<u8> = Vec::new();
    let db_file = DbFile::new_to_disk(3, "test_find_entry_doesnt_exist.db", &mut file);

    let new_entry_read = db_file.find_entry(&file, 5);
    assert_eq!(None, new_entry_read);
}

#[test]
fn test_find_entry_is_dead() {
    let mut file: Vec<u8> = Vec::new();
    let db_file = DbFile::new_to_disk(3, "test_find_entry_is_dead.db", &mut file);
    let new_entry = DbFileEntry {
        id: 5,
        alive: false,
        data: Vec::from(String::from("abc").as_bytes()),
    };

    let new_entry_read = db_file.find_entry(&file, 5);
    db_file.append_entry(&mut file, &new_entry);

    assert_eq!(None, new_entry_read);
}

#[test]
fn test_find_entry_exists_many_entries() {
    let mut file: Vec<u8> = Vec::new();
    let db_file = DbFile::new_to_disk(2, "test_find_entry_exists_many_entries.db", &mut file);
    let new_entry_dummy = DbFileEntry {
        id: 4,
        alive: true,
        data: Vec::from(String::from("aa").as_bytes()),
    };
    let new_entry = DbFileEntry {
        id: 5,
        alive: true,
        data: Vec::from(String::from("ab").as_bytes()),
    };

    db_file.append_entry(&mut file, &new_entry_dummy);
    db_file.append_entry(&mut file, &new_entry);

    let new_entry_read = db_file.find_entry(&file, 5).unwrap();
    assert_eq!(new_entry, new_entry_read);
}

#[test]
fn new_in_mem_holds_what_it_was_given() {
    let db_file = DbFile::new_in_mem(7, 3, "somewhere.db");
    assert_eq!(db_file.header(), DbFileHeader { data_size: 7, num_entries: 3 });
    assert_eq!(db_file.path(), "somewhere.db");
}

#[test]
fn new_to_disk_writes_a_fresh_header_over_what_was_there() {
    let mut file: Vec<u8> = vec![9; 40];
    let db_file = DbFile::new_to_disk(3, "fresh.db", &mut file);
    assert_eq!(db_file.header(), DbFileHeader { data_size: 3, num_entries: 0 });
    assert_eq!(db_file.path(), "fresh.db");
    assert_eq!(file, vec![3, 0, 0, 0, 0, 0, 0, 0, 0, 0, 0, 0, 0, 0, 0, 0]);
}

#[test]
fn to_disk_writes_the_header_of_the_store() {
    let db_file = DbFile::new_in_mem(258, 1, "x.db");
    let mut file: Vec<u8> = vec![7, 7, 7];
    db_file.to_disk(&mut file);
    assert_eq!(file, vec![2, 1, 0, 0, 0, 0, 0, 0, 1, 0, 0, 0, 0, 0, 0, 0]);
}

#[test]
fn new_from_disk_reads_the_header_and_nothing_else() {
    let mut file: Vec<u8> = vec![4, 0, 0, 0, 0, 0, 0, 0, 9, 0, 0, 0, 0, 0, 0, 0];
    file.extend_from_slice(&[1, 2, 3]);
    let db_file = DbFile::new_from_disk("opened.db", &file).unwrap();
    assert_eq!(db_file.header(), DbFileHeader { data_size: 4, num_entries: 9 });
    assert_eq!(db_file.path(), "opened.db");
}

#[test]
fn new_from_disk_fails_on_a_short_header() {
    let file: Vec<u8> = vec![0; 15];
    let opened = DbFile::new_from_disk("short.db", &file);
    assert_eq!(opened.unwrap_err().error_type(), DbErrorType::MalformedHeader);
    let opened = DbFile::new_from_disk("empty.db", &[]);
    assert_eq!(opened.unwrap_err().error_type(), DbErrorType::MalformedHeader);
}

#[test]
fn stores_differ_by_header_and_by_path() {
    let db_file = DbFile::new_in_mem(3, 0, "a.db");
    assert_eq!(db_file, db_file.clone());
    assert_ne!(db_file, DbFile::new_in_mem(4, 0, "a.db"));
    assert_ne!(db_file, DbFile::new_in_mem(3, 1, "a.db"));
    assert_ne!(db_file, DbFile::new_in_mem(3, 0, "b.db"));
}

#[test]
fn append_writes_one_frame_at_the_end() {
    let mut file: Vec<u8> = Vec::new();
    let db_file = DbFile::new_to_disk(3, "append.db", &mut file);
    db_file.append_entry(&mut file, &entry(5, true, "abc"));
    assert_eq!(
        file,
        vec![3, 0, 0, 0, 0, 0, 0, 0, 0, 0, 0, 0, 0, 0, 0, 0, 5, 0, 0, 0, 0, 0, 0, 0, 1, 97, 98, 99]
    );
}

#[test]
fn append_leaves_the_record_count_of_the_header_stale() {
    let mut file: Vec<u8> = Vec::new();
    let db_file = DbFile::new_to_disk(3, "stale.db", &mut file);
    db_file.append_entry(&mut file, &entry(5, true, "abc"));
    assert_eq!(db_file.header().num_entries, 0);
    let reopened = DbFile::new_from_disk("stale.db", &file).unwrap();
    assert_eq!(reopened.header().num_entries, 0);
}

#[test]
fn appending_the_same_record_twice_grows_the_file_by_two_frames() {
    let mut file: Vec<u8> = Vec::new();
    let db_file = DbFile::new_to_disk(3, "twice.db", &mut file);
    let frame: usize = db_file.get_entry_size() as usize;
    assert_eq!(frame, 12);
    let before: usize = file.len();
    db_file.append_entry(&mut file, &entry(5, true, "abc"));
    assert_eq!(file.len(), before + frame);
    db_file.append_entry(&mut file, &entry(5, true, "abc"));
    assert_eq!(file.len(), before + 2 * frame);
    assert_eq!(db_file.read_entry_at(&file, FIRST_FRAME), Some(entry(5, true, "abc")));
    assert_eq!(db_file.read_entry_at(&file, FIRST_FRAME + 12), Some(entry(5, true, "abc")));
    assert_eq!(db_file.read_entry_at(&file, FIRST_FRAME + 24), None);
}

#[test]
fn get_entry_size_counts_identifier_flag_and_payload() {
    assert_eq!(DbFile::new_in_mem(0, 0, "x.db").get_entry_size(), 9);
    assert_eq!(DbFile::new_in_mem(20, 0, "x.db").get_entry_size(), 29);
    assert_eq!(DbFile::new_in_mem(u64::MAX - 9, 0, "x.db").get_entry_size(), u64::MAX);
}

#[test]
fn read_entry_at_is_none_where_the_frame_is_cut_short() {
    let mut file: Vec<u8> = Vec::new();
    let db_file = DbFile::new_to_disk(3, "short.db", &mut file);
    db_file.append_entry(&mut file, &entry(5, true, "abc"));
    let whole: usize = file.len();
    assert_eq!(db_file.read_entry_at(&file[..whole], FIRST_FRAME), Some(entry(5, true, "abc")));
    // inside the payload
    assert_eq!(db_file.read_entry_at(&file[..whole - 1], FIRST_FRAME), None);
    // right after the liveness byte
    assert_eq!(db_file.read_entry_at(&file[..16 + 9], FIRST_FRAME), None);
    // right after the identifier
    assert_eq!(db_file.read_entry_at(&file[..16 + 8], FIRST_FRAME), None);
    // inside the identifier
    assert_eq!(db_file.read_entry_at(&file[..16 + 7], FIRST_FRAME), None);
    // at the end of the file and behind it
    assert_eq!(db_file.read_entry_at(&file, whole as u64), None);
    assert_eq!(db_file.read_entry_at(&file, whole as u64 + 1), None);
    assert_eq!(db_file.read_entry_at(&file, u64::MAX), None);
}

#[test]
fn read_entry_at_reads_at_any_offset() {
    let mut file: Vec<u8> = Vec::new();
    let db_file = DbFile::new_to_disk(2, "offsets.db", &mut file);
    db_file.append_entry(&mut file, &entry(4, true, "aa"));
    db_file.append_entry(&mut file, &entry(5, false, "ab"));
    assert_eq!(db_file.read_entry_at(&file, 16), Some(entry(4, true, "aa")));
    assert_eq!(db_file.read_entry_at(&file, 27), Some(entry(5, false, "ab")));
    // the header read as a frame: identifier 2, flag 0, payload 0 0
    assert_eq!(db_file.read_entry_at(&file, 0), Some(DbFileEntry { id: 2, alive: false, data: vec![0, 0] }));
}

#[test]
fn read_entry_at_with_an_empty_payload() {
    let mut file: Vec<u8> = Vec::new();
    let db_file = DbFile::new_to_disk(0, "empty_payload.db", &mut file);
    db_file.append_entry(&mut file, &entry(1, true, ""));
    assert_eq!(file.len(), 25);
    assert_eq!(db_file.read_entry_at(&file, FIRST_FRAME), Some(entry(1, true, "")));
    assert_eq!(db_file.find_entry(&file, 1), Some(entry(1, true, "")));
}

#[test]
fn read_entry_at_with_a_payload_size_no_file_can_hold() {
    let db_file = DbFile::new_in_mem(u64::MAX, 0, "huge.db");
    let file: Vec<u8> = vec![0; 64];
    assert_eq!(db_file.read_entry_at(&file, FIRST_FRAME), None);
    assert_eq!(db_file.find_entry(&file, 0), None);
}

#[test]
fn find_entry_on_a_file_without_records_is_none() {
    let mut file: Vec<u8> = Vec::new();
    let db_file = DbFile::new_to_disk(2, "fresh.db", &mut file);
    assert_eq!(db_file.find_entry(&file, 0), None);
    assert_eq!(db_file.find_entry(&file, 5), None);
    assert_eq!(db_file.find_entry(&file, u64::MAX), None);
    assert_eq!(db_file.find_entry(&[], 5), None);
}

#[test]
fn find_entry_does_not_find_a_tombstone() {
    let mut file: Vec<u8> = Vec::new();
    let db_file = DbFile::new_to_disk(3, "dead.db", &mut file);
    db_file.append_entry(&mut file, &entry(5, false, "abc"));
    assert_eq!(db_file.find_entry(&file, 5), None);
}

#[test]
fn find_entry_scans_past_a_tombstone() {
    let mut file: Vec<u8> = Vec::new();
    let db_file = DbFile::new_to_disk(3, "revived.db", &mut file);
    db_file.append_entry(&mut file, &entry(5, false, "old"));
    db_file.append_entry(&mut file, &entry(6, true, "six"));
    db_file.append_entry(&mut file, &entry(5, true, "new"));
    assert_eq!(db_file.find_entry(&file, 5), Some(entry(5, true, "new")));
    assert_eq!(db_file.find_entry(&file, 6), Some(entry(6, true, "six")));
}

#[test]
fn find_entry_returns_the_earlier_of_two_live_records() {
    let mut file: Vec<u8> = Vec::new();
    let db_file = DbFile::new_to_disk(3, "twins.db", &mut file);
    db_file.append_entry(&mut file, &entry(5, true, "one"));
    db_file.append_entry(&mut file, &entry(5, true, "two"));
    assert_eq!(db_file.find_entry(&file, 5), Some(entry(5, true, "one")));
}

#[test]
fn find_entry_still_finds_a_live_record_that_a_tombstone_follows() {
    let mut file: Vec<u8> = Vec::new();
    let db_file = DbFile::new_to_disk(3, "late_tombstone.db", &mut file);
    db_file.append_entry(&mut file, &entry(5, true, "abc"));
    db_file.append_entry(&mut file, &entry(5, false, "abc"));
    assert_eq!(db_file.find_entry(&file, 5), Some(entry(5, true, "abc")));
}

#[test]
fn find_entry_ignores_a_frame_that_is_cut_short() {
    let mut file: Vec<u8> = Vec::new();
    let db_file = DbFile::new_to_disk(3, "cut.db", &mut file);
    db_file.append_entry(&mut file, &entry(4, true, "abc"));
    db_file.append_entry(&mut file, &entry(5, true, "abc"));
    let cut: usize = file.len() - 1;
    assert_eq!(db_file.find_entry(&file[..cut], 5), None);
    assert_eq!(db_file.find_entry(&file[..cut], 4), Some(entry(4, true, "abc")));
}

#[test]
fn find_entry_goes_by_the_payload_size_of_the_store() {
    let mut file: Vec<u8> = Vec::new();
    let db_file = DbFile::new_to_disk(2, "sizes.db", &mut file);
    db_file.append_entry(&mut file, &entry(4, true, "aa"));
    db_file.append_entry(&mut file, &entry(5, true, "ab"));
    let reopened = DbFile::new_from_disk("sizes.db", &file).unwrap();
    assert_eq!(reopened.find_entry(&file, 5), Some(entry(5, true, "ab")));
    let other = DbFile::new_in_mem(13, 0, "sizes.db");
    assert_eq!(other.find_entry(&file, 5), None);
}

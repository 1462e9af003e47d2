use record_store::db_file::DbFileEntry;
use record_store::db_interfaces::DbStorageEntry;

#[test]
fn a_record_is_a_storage_entry() {
    let mut entry = DbFileEntry { id: 5, alive: true, data: Vec::from("abc".as_bytes()) };
    assert_eq!(entry.get_entry_id(), 5);
    assert!(entry.get_entry_alive());
    assert_eq!(entry.get_entry_data(), &vec![97, 98, 99]);
    assert_eq!(entry.get_entry_size(), 12);

    entry.set_entry_id(6);
    assert_eq!(entry, DbFileEntry { id: 6, alive: true, data: Vec::from("abc".as_bytes()) });
    entry.set_entry_alive(false);
    assert_eq!(entry, DbFileEntry { id: 6, alive: false, data: Vec::from("abc".as_bytes()) });
    entry.set_entry_data(vec![1, 2]);
    assert_eq!(entry, DbFileEntry { id: 6, alive: false, data: vec![1, 2] });
    assert_eq!(entry.get_entry_size(), 11);
    entry.set_entry_data(Vec::new());
    assert_eq!(entry.get_entry_size(), 9);
}

#[test]
fn records_are_equal_when_all_their_fields_are() {
    let entry = DbFileEntry { id: 5, alive: true, data: vec![1, 2, 3] };
    assert_eq!(entry, entry.clone());
    assert_ne!(entry, DbFileEntry { id: 6, alive: true, data: vec![1, 2, 3] });
    assert_ne!(entry, DbFileEntry { id: 5, alive: false, data: vec![1, 2, 3] });
    assert_ne!(entry, DbFileEntry { id: 5, alive: true, data: vec![1, 2, 4] });
    assert_ne!(entry, DbFileEntry { id: 5, alive: true, data: vec![1, 2] });
    assert_ne!(entry, DbFileEntry { id: 5, alive: true, data: vec![1, 2, 3, 0] });
}

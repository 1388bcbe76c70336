use carapace::db::EntryDb;
use carapace::CryptoError;

fn open_table(key: &[u8]) -> EntryDb {
    let db = sled::Config::new().temporary(true).open().unwrap();
    EntryDb::new(key, db)
}

#[test]
fn test_save_entry() {
    // test save and delete entry
    let key = b"an example very very secret key";
    let mut table = open_table(key);
    let srv = b"server_id".to_vec();
    let id = table.save_entry(&srv).unwrap();
    let got = table.get_entry(&id);
    assert!(got.is_ok());
    assert_eq!(got.unwrap(), srv);
    table.delete_entry(&id).unwrap();
    let got = table.get_entry(&id);
    assert!(got.is_err());

    // test update entry
    let srv = b"server_id".to_vec();
    let id = table.save_entry(&srv).unwrap();
    let srv_new = b"server_id_new".to_vec();
    table.update_entry(&id, &srv_new).unwrap();
    let got = table.get_entry(&id).unwrap();
    assert_eq!(got, b"server_id_new".to_vec());
    table.delete_entry(&id).unwrap();

    // test get all entries
    let id1 = table.save_entry(&b"server_id1".to_vec()).unwrap();
    let id2 = table.save_entry(&b"server_id2".to_vec()).unwrap();
    let entries = table.get_all_entries().unwrap();
    assert_eq!(entries.len(), 2);
    assert!(entries.iter().find(|(id, _)| id == &id1).is_some());
    assert!(entries.iter().find(|(id, _)| id == &id2).is_some());
}

#[test]
fn test_get_missing_is_not_found() {
    let table = open_table(b"key material");
    assert_eq!(table.get_entry("no-such-id"), Err(CryptoError::NotFound));
}

#[test]
fn test_delete_twice_is_not_an_error() {
    let mut table = open_table(b"key material");
    let id = table.save_entry(b"value").unwrap();
    table.delete_entry(&id).unwrap();
    // Deleting an id that no longer exists must not error.
    assert_eq!(table.delete_entry(&id), Ok(()));
}

#[test]
fn test_wrong_table_key_fails_authentication() {
    let db = sled::Config::new().temporary(true).open().unwrap();
    let mut table = EntryDb::new(b"right passphrase", db.clone());
    let id = table.save_entry(b"secret value").unwrap();
    let wrong = EntryDb::new(b"wrong passphrase", db);
    assert_eq!(wrong.get_entry(&id), Err(CryptoError::AuthenticationFailure));
}

#[test]
fn test_identifiers_are_fresh_tokens() {
    let mut table = open_table(b"key material");
    let id1 = table.save_entry(b"a").unwrap();
    let id2 = table.save_entry(b"b").unwrap();
    assert_eq!(id1.len(), 36);
    assert_eq!(id2.len(), 36);
    assert_ne!(id1, id2);
    assert_eq!(table.get_entry(&id1).unwrap(), b"a".to_vec());
    assert_eq!(table.get_entry(&id2).unwrap(), b"b".to_vec());
}

#[test]
fn test_list_with_wrong_key_fails_as_a_whole() {
    let db = sled::Config::new().temporary(true).open().unwrap();
    let mut table = EntryDb::new(b"right passphrase", db.clone());
    table.save_entry(b"secret value").unwrap();
    let wrong = EntryDb::new(b"wrong passphrase", db);
    assert_eq!(wrong.get_all_entries(), Err(CryptoError::AuthenticationFailure));
}

#[test]
fn test_update_then_get_returns_new_value() {
    let mut table = open_table(b"key material");
    let id = table.save_entry(b"first").unwrap();
    table.update_entry(&id, b"second").unwrap();
    assert_eq!(table.get_entry(&id).unwrap(), b"second".to_vec());
}

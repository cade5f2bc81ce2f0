use bamboo_feeds::models::authors::{
    get_author, get_author_feed_ids, get_authors, upsert_author,
};
use bamboo_feeds::models::keys::upsert_key;
use bamboo_feeds::models::messages::{get_message, get_messages, insert_message, NewMessage};
use bamboo_feeds::store::{Store, StoreError};

fn row<'a>(author_id: i32, feed_id: u64, seq: u64, entry: &'a str, payload: &'a str) -> NewMessage<'a> {
    NewMessage { seq, author_id, feed_id, entry, payload }
}

#[test]
fn an_empty_store_knows_no_author() {
    let store = Store::new();
    assert_eq!(get_authors(&store).unwrap(), Vec::<String>::new());
    assert!(matches!(get_author(&store, "ab"), Err(StoreError::NotFound)));
}

#[test]
fn authors_are_numbered_from_one_in_order_of_registration() {
    let mut store = Store::new();
    assert_eq!(upsert_author(&mut store, "ab").unwrap(), 1);
    assert_eq!(upsert_author(&mut store, "cd").unwrap(), 2);
    assert_eq!(upsert_author(&mut store, "ef").unwrap(), 3);
    assert_eq!(get_author(&store, "ab").unwrap(), 1);
    assert_eq!(get_author(&store, "cd").unwrap(), 2);
    assert_eq!(get_author(&store, "ef").unwrap(), 3);
    assert_eq!(get_authors(&store).unwrap(), vec!["ab".to_string(), "cd".to_string(), "ef".to_string()]);
}

#[test]
fn registering_an_author_twice_returns_the_same_identity() {
    let mut store = Store::new();
    upsert_author(&mut store, "00").unwrap();
    let first = upsert_author(&mut store, "ab").unwrap();
    upsert_author(&mut store, "cd").unwrap();
    let second = upsert_author(&mut store, "ab").unwrap();
    assert_eq!(first, 2);
    assert_eq!(second, 2);
    assert_eq!(get_authors(&store).unwrap().len(), 3);
    assert_eq!(get_author(&store, "ab").unwrap(), 2);
}

#[test]
fn identity_strings_are_compared_letter_for_letter() {
    let mut store = Store::new();
    assert_eq!(upsert_author(&mut store, "ab").unwrap(), 1);
    assert_eq!(upsert_author(&mut store, "AB").unwrap(), 2);
    assert_eq!(upsert_author(&mut store, "").unwrap(), 3);
    assert!(matches!(get_author(&store, "a"), Err(StoreError::NotFound)));
}

#[test]
fn keys_are_registered_apart_from_authors() {
    let mut store = Store::new();
    assert_eq!(upsert_author(&mut store, "ab").unwrap(), 1);
    assert_eq!(upsert_key(&mut store, "cd").unwrap(), 1);
    assert_eq!(upsert_key(&mut store, "ab").unwrap(), 2);
    assert_eq!(upsert_key(&mut store, "cd").unwrap(), 1);
    assert!(matches!(get_author(&store, "cd"), Err(StoreError::NotFound)));
    assert_eq!(get_authors(&store).unwrap(), vec!["ab".to_string()]);
}

#[test]
fn an_entry_is_found_at_its_place_only() {
    let mut store = Store::new();
    assert_eq!(insert_message(&mut store, &row(1, 0, 1, "aa", "bb")).unwrap(), 1);
    let found = get_message(&store, 1, 1, 0).unwrap().unwrap();
    assert_eq!(found.seq, 1);
    assert_eq!(found.author_id, 1);
    assert_eq!(found.feed_id, 0);
    assert_eq!(found.entry, "aa");
    assert_eq!(found.payload, Some("bb".to_string()));
    assert!(get_message(&store, 1, 2, 0).unwrap().is_none());
    assert!(get_message(&store, 1, 1, 1).unwrap().is_none());
    assert!(get_message(&store, 2, 1, 0).unwrap().is_none());
}

#[test]
fn appending_at_a_taken_place_changes_nothing() {
    let mut store = Store::new();
    assert_eq!(insert_message(&mut store, &row(1, 0, 1, "aa", "bb")).unwrap(), 1);
    assert_eq!(insert_message(&mut store, &row(1, 0, 1, "aa", "bb")).unwrap(), 0);
    assert_eq!(insert_message(&mut store, &row(1, 0, 1, "cc", "dd")).unwrap(), 0);
    let rows = get_messages(&store, 1, 0).unwrap();
    assert_eq!(rows.len(), 1);
    assert_eq!(rows[0].entry, "aa");
    assert_eq!(rows[0].payload, Some("bb".to_string()));
}

#[test]
fn a_feed_lists_its_own_entries_in_stored_order() {
    let mut store = Store::new();
    insert_message(&mut store, &row(1, 0, 2, "02", "")).unwrap();
    insert_message(&mut store, &row(1, 1, 1, "11", "")).unwrap();
    insert_message(&mut store, &row(2, 0, 1, "21", "")).unwrap();
    insert_message(&mut store, &row(1, 0, 1, "01", "")).unwrap();
    let rows = get_messages(&store, 1, 0).unwrap();
    let entries: Vec<&str> = rows.iter().map(|m| m.entry.as_str()).collect();
    assert_eq!(entries, vec!["02", "01"]);
    assert_eq!(get_messages(&store, 1, 1).unwrap().len(), 1);
    assert_eq!(get_messages(&store, 2, 0).unwrap().len(), 1);
    assert!(get_messages(&store, 2, 1).unwrap().is_empty());
    assert!(get_messages(&store, 3, 0).unwrap().is_empty());
}

#[test]
fn feed_ids_are_listed_once_each_for_the_author_asked() {
    let mut store = Store::new();
    let a = upsert_author(&mut store, "aa").unwrap();
    let b = upsert_author(&mut store, "bb").unwrap();
    insert_message(&mut store, &row(a, 0, 1, "01", "")).unwrap();
    insert_message(&mut store, &row(a, 0, 2, "02", "")).unwrap();
    insert_message(&mut store, &row(b, 7, 1, "71", "")).unwrap();
    insert_message(&mut store, &row(a, 1, 1, "11", "")).unwrap();
    let mut of_a = get_author_feed_ids(&store, "aa").unwrap();
    of_a.sort();
    assert_eq!(of_a, vec![0, 1]);
    assert_eq!(get_author_feed_ids(&store, "bb").unwrap(), vec![7]);
}

#[test]
fn an_author_without_entries_has_no_feed() {
    let mut store = Store::new();
    upsert_author(&mut store, "aa").unwrap();
    assert!(get_author_feed_ids(&store, "aa").unwrap().is_empty());
    assert!(get_author_feed_ids(&store, "zz").unwrap().is_empty());
}

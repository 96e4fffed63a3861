use redis_starter_rust::db::MemoryDatabase;
use redis_starter_rust::mem_db::{same_bytes, MemDB};

#[test]
fn new_store_holds_nothing() {
    let db = MemDB::new();

    assert_eq!(db.get(b"foo"), None);
    assert_eq!(db.get(b""), None);
}

#[test]
fn value_that_was_set_is_read_back() {
    let mut db = MemDB::new();
    db.set(b"foo", b"bar");

    assert_eq!(db.get(b"foo"), Some(b"bar".to_vec()));
    assert_eq!(db.get(b"fo"), None);
    assert_eq!(db.get(b"foo "), None);
}

#[test]
fn last_write_wins() {
    let mut db = MemDB::new();
    db.set(b"foo", b"one");
    db.set(b"other", b"x");
    db.set(b"foo", b"two");

    assert_eq!(db.get(b"foo"), Some(b"two".to_vec()));
    assert_eq!(db.get(b"other"), Some(b"x".to_vec()));
    assert_eq!(db.del(b"foo"), Some(b"two".to_vec()));
    assert_eq!(db.get(b"foo"), None);
}

#[test]
fn empty_key_and_empty_value_are_entries_like_others() {
    let mut db = MemDB::new();
    db.set(b"", b"");

    assert_eq!(db.get(b""), Some(vec![]));
    assert_eq!(db.del(b""), Some(vec![]));
    assert_eq!(db.get(b""), None);
}

#[test]
fn keys_and_values_are_binary() {
    let mut db = MemDB::new();
    let key = vec![0u8, 13, 10, 255];
    let value = vec![13u8, 10, 0, 0, 13, 10];
    db.set(&key, &value);

    assert_eq!(db.get(&key), Some(value));
    assert_eq!(db.get(&[0u8, 13, 10]), None);
}

#[test]
fn delete_hands_back_what_the_key_held() {
    let mut db = MemDB::new();
    db.set(b"a", b"1");
    db.set(b"b", b"2");
    db.set(b"c", b"3");

    assert_eq!(db.del(b"a"), Some(b"1".to_vec()));
    assert_eq!(db.del(b"a"), None);
    assert_eq!(db.get(b"a"), None);
    assert_eq!(db.get(b"b"), Some(b"2".to_vec()));
    assert_eq!(db.get(b"c"), Some(b"3".to_vec()));
    assert_eq!(db.del(b"c"), Some(b"3".to_vec()));
    assert_eq!(db.del(b"b"), Some(b"2".to_vec()));
    assert_eq!(db.get(b"b"), None);
}

#[test]
fn many_keys_keep_their_own_values() {
    let mut db = MemDB::new();
    for i in 0..200u32 {
        db.set(format!("key{}", i).as_bytes(), format!("value{}", i).as_bytes());
    }
    for i in (0..200u32).step_by(2) {
        assert_eq!(
            db.del(format!("key{}", i).as_bytes()),
            Some(format!("value{}", i).into_bytes())
        );
    }
    for i in 0..200u32 {
        let expected = if i % 2 == 0 {
            None
        } else {
            Some(format!("value{}", i).into_bytes())
        };
        assert_eq!(db.get(format!("key{}", i).as_bytes()), expected);
    }
}

#[test]
fn bytes_are_compared_one_by_one() {
    assert!(same_bytes(b"", b""));
    assert!(same_bytes(b"abc", b"abc"));
    assert!(!same_bytes(b"abc", b"abd"));
    assert!(!same_bytes(b"abc", b"ab"));
    assert!(!same_bytes(b"", b"a"));
}

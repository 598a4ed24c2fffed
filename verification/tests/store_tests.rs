//! Tests for the store: lookup, insert and the upsert lifecycle.

use prob_check_repo::store::Status;
use prob_check_repo::store::Store;

fn sample(change: i64, check: i64, byte: u8) -> Status {
    Status {
        check_time: check,
        change_time: change,
        commit_hash: prob_check_repo::Hash::Sha1([byte; 20]),
        archived: None,
    }
}

#[test]
fn new_store_is_empty() {
    let s = Store::new();
    assert_eq!(s.len(), 0);
    assert!(s.lookup(&String::from("anything")).is_none());
}

#[test]
fn upsert_new_key_grows_count_by_one() {
    let mut s = Store::new();
    s.upsert(
        String::from("repo/a"),
        prob_check_repo::Hash::Sha1([1; 20]),
        100,
        200,
    );
    assert_eq!(s.len(), 1);
    s.upsert(
        String::from("repo/b"),
        prob_check_repo::Hash::Sha1([2; 20]),
        300,
        400,
    );
    assert_eq!(s.len(), 2);
    let a = s.lookup(&String::from("repo/a")).unwrap();
    assert_eq!(a.change_time, 100);
    assert_eq!(a.check_time, 200);
    assert_eq!(a.commit_hash, prob_check_repo::Hash::Sha1([1; 20]));
    assert_eq!(a.archived, None);
}

#[test]
fn upsert_existing_key_overwrites_and_keeps_count() {
    let mut s = Store::new();
    s.upsert(
        String::from("repo/a"),
        prob_check_repo::Hash::Sha1([1; 20]),
        100,
        200,
    );
    s.upsert(
        String::from("repo/a"),
        prob_check_repo::Hash::Sha256([9; 32]),
        1000,
        2000,
    );
    assert_eq!(s.len(), 1);
    let a = s.lookup(&String::from("repo/a")).unwrap();
    assert_eq!(a.change_time, 1000);
    assert_eq!(a.check_time, 2000);
    assert_eq!(a.commit_hash, prob_check_repo::Hash::Sha256([9; 32]));
}

#[test]
fn upsert_preserves_archived_flag() {
    let mut s = Store::new();
    let mut st = sample(1, 2, 5);
    st.archived = Some(true);
    s.insert(String::from("repo/a"), st);
    s.upsert(
        String::from("repo/a"),
        prob_check_repo::Hash::Sha1([6; 20]),
        10,
        20,
    );
    let a = s.lookup(&String::from("repo/a")).unwrap();
    assert_eq!(a.archived, Some(true));
    assert_eq!(a.change_time, 10);
    // A fresh record starts with no archived flag.
    s.upsert(
        String::from("repo/b"),
        prob_check_repo::Hash::Sha1([7; 20]),
        30,
        40,
    );
    assert_eq!(s.lookup(&String::from("repo/b")).unwrap().archived, None);
}

#[test]
fn insert_overwrites_whole_record() {
    let mut s = Store::new();
    s.insert(String::from("k"), sample(1, 2, 3));
    s.insert(String::from("k"), sample(7, 8, 9));
    assert_eq!(s.len(), 1);
    let r = s.lookup(&String::from("k")).unwrap();
    assert_eq!(r.change_time, 7);
    assert_eq!(r.check_time, 8);
}

#[test]
fn lookup_is_exact_match() {
    let mut s = Store::new();
    s.insert(String::from("repo/a"), sample(1, 2, 3));
    assert!(s.lookup(&String::from("repo/A")).is_none());
    assert!(s.lookup(&String::from("repo/a ")).is_none());
    assert!(s.lookup(&String::from("repo/a")).is_some());
}

#[test]
fn entries_walk_in_insertion_order() {
    let mut s = Store::new();
    s.insert(String::from("one"), sample(1, 10, 1));
    s.insert(String::from("two"), sample(2, 20, 2));
    s.insert(String::from("three"), sample(3, 30, 3));
    assert_eq!(s.len(), 3);
    assert_eq!(s.key_at(0), "one");
    assert_eq!(s.key_at(1), "two");
    assert_eq!(s.key_at(2), "three");
    assert_eq!(s.record_at(1).change_time, 2);
    let values = s.values();
    assert_eq!(values.len(), 3);
    assert_eq!(values[2].change_time, 3);
}

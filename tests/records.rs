use simple_wkd::errors::ServiceError;
use simple_wkd::management::{
    pending_entry_path, pending_path, store_pending, store_pending_addition,
    store_pending_deletion, Action, Pending,
};

#[test]
fn record_text_of_an_addition() {
    let p = Pending::new(Action::Add, "KEY\nBLOCK".to_string(), 1700000000);
    assert_eq!(p.serialize(), "Add\n1700000000\nKEY\nBLOCK");
}

#[test]
fn record_text_of_a_deletion_with_negative_time() {
    let p = Pending::new(Action::Delete, "alice@example.org".to_string(), -42);
    assert_eq!(p.serialize(), "Delete\n-42\nalice@example.org");
}

#[test]
fn record_round_trip_keeps_all_fields() {
    for (action, data, ts) in [
        (Action::Add, "-----BEGIN PGP PUBLIC KEY BLOCK-----\n\nabc\n", 0i64),
        (Action::Delete, "bob@example.org", i64::MAX),
        (Action::Add, "", i64::MIN),
        (Action::Delete, "ünïcödé@example.org", 7),
    ] {
        let p = Pending::new(action, data.to_string(), ts);
        let back = Pending::deserialize(&p.serialize()).unwrap();
        assert_eq!(*back.action(), action);
        assert_eq!(back.data(), data);
        assert_eq!(back.timestamp(), ts);
    }
}

#[test]
fn malformed_records_are_refused() {
    for text in [
        "",
        "Add",
        "Add\n12",
        "Remove\n1\nx",
        "add\n1\nx",
        "Add\nabc\nx",
        "Add\n\nx",
        "Add\n-\nx",
        "Add\n99999999999999999999\nx",
        "Add\n9223372036854775808\nx",
        "Delete\n-9223372036854775809\nx",
        "AddAddAdd\n1\nx",
    ] {
        assert!(
            matches!(Pending::deserialize(text), Err(ServiceError::DeserializeData)),
            "{text:?}"
        );
    }
}

#[test]
fn extreme_timestamps_are_read() {
    let p = Pending::deserialize("Delete\n-9223372036854775808\nx").unwrap();
    assert_eq!(p.timestamp(), i64::MIN);
    let p = Pending::deserialize("Add\n0009\n").unwrap();
    assert_eq!(p.timestamp(), 9);
    assert_eq!(p.data(), "");
}

#[test]
fn action_words() {
    assert_eq!(Action::Add.word(), "Add");
    assert_eq!(Action::Delete.word(), "Delete");
}

#[test]
fn pending_store_paths() {
    assert_eq!(pending_path(), "data/pending");
    assert_eq!(pending_entry_path("AbC123xyz0"), "data/pending/AbC123xyz0");
}

#[test]
fn storing_writes_the_record_under_the_token() {
    let p = Pending::new(Action::Delete, "carol@example.org".to_string(), 5);
    let entry = store_pending(&p, "tok");
    assert_eq!(entry.path, "data/pending/tok");
    assert_eq!(entry.content, "Delete\n5\ncarol@example.org");
}

#[test]
fn stored_addition_reads_back() {
    let before = chrono::Utc::now().timestamp();
    let entry = store_pending_addition("PEM".to_string(), "alice@example.org", "t1");
    let after = chrono::Utc::now().timestamp();
    assert_eq!(entry.path, "data/pending/t1");
    let p = Pending::deserialize(&entry.content).unwrap();
    assert_eq!(*p.action(), Action::Add);
    assert_eq!(p.data(), "PEM");
    assert!(before <= p.timestamp() && p.timestamp() <= after);
}

#[test]
fn stored_deletion_reads_back() {
    let entry = store_pending_deletion("bob@example.org".to_string(), "t2");
    assert_eq!(entry.path, "data/pending/t2");
    let p = Pending::deserialize(&entry.content).unwrap();
    assert_eq!(*p.action(), Action::Delete);
    assert_eq!(p.data(), "bob@example.org");
}

use minicache::command::{execute_get, execute_write, make_entry, serve_get, serve_write};
use minicache::data::DataStore;
use minicache::expire::{is_expired, normalize_exptime};
use minicache::parse::Action;
use minicache::response::get_response;

fn payload_of(store: &mut DataStore, key: &str, now: isize) -> Option<Vec<u8>> {
    execute_get(store, String::from(key), now).map(|v| v.get_value())
}

#[test]
fn get_on_unwritten_key_is_a_miss() {
    let mut store = DataStore::new();
    let found = execute_get(&mut store, String::from("never"), 100);
    assert!(found.is_none());
    assert_eq!(get_response(found, "never"), b"END\r\n".to_vec());
}

#[test]
fn set_then_get_round_trips() {
    let mut store = DataStore::new();
    let now: isize = 1_000;
    let entry = make_entry(42, normalize_exptime(0, now), b"hello".to_vec());
    let stored = execute_write(&mut store, Action::SetCmd, String::from("k"), entry);
    assert!(stored);
    let found = execute_get(&mut store, String::from("k"), now).expect("hit");
    let mut found = found;
    assert_eq!(found.get_flags(), 42);
    assert_eq!(found.get_byte_count(), 5);
    assert_eq!(found.get_value(), b"hello".to_vec());
}

#[test]
fn value_response_is_protocol_exact() {
    let mut store = DataStore::new();
    let entry = make_entry(7, 0, b"hi".to_vec());
    execute_write(&mut store, Action::SetCmd, String::from("k"), entry);
    let found = execute_get(&mut store, String::from("k"), 50);
    let line = get_response(found, "k");
    assert_eq!(line, b"VALUE k 7 2\r\nhi\r\nEND\r\n".to_vec());
}

#[test]
fn get_response_carries_binary_payload_verbatim() {
    let mut store = DataStore::new();
    let entry = make_entry(0, 0, vec![0xff, 0xfe, 0x00]);
    execute_write(&mut store, Action::SetCmd, String::from("k"), entry);
    let found = execute_get(&mut store, String::from("k"), 50);
    assert!(found.is_some());
    let mut expected = b"VALUE k 0 3\r\n".to_vec();
    expected.extend_from_slice(&[0xff, 0xfe, 0x00]);
    expected.extend_from_slice(b"\r\nEND\r\n");
    assert_eq!(get_response(found, "k"), expected);
}

#[test]
fn add_stores_once_and_keeps_the_original() {
    let mut store = DataStore::new();
    let first = make_entry(1, 0, b"first".to_vec());
    let second = make_entry(2, 0, b"second".to_vec());
    assert!(execute_write(&mut store, Action::AddCmd, String::from("k"), first));
    assert!(!execute_write(&mut store, Action::AddCmd, String::from("k"), second));
    assert_eq!(payload_of(&mut store, "k", 10).unwrap(), b"first".to_vec());
}

#[test]
fn replace_requires_presence() {
    let mut store = DataStore::new();
    let entry = make_entry(1, 0, b"v1".to_vec());
    assert!(!execute_write(&mut store, Action::ReplaceCmd, String::from("k"), entry));
    assert!(payload_of(&mut store, "k", 10).is_none());

    let entry = make_entry(1, 0, b"v1".to_vec());
    assert!(execute_write(&mut store, Action::SetCmd, String::from("k"), entry));
    let entry = make_entry(9, 0, b"v2".to_vec());
    assert!(execute_write(&mut store, Action::ReplaceCmd, String::from("k"), entry));
    assert_eq!(payload_of(&mut store, "k", 10).unwrap(), b"v2".to_vec());
}

#[test]
fn append_extends_at_the_end_in_order() {
    let mut store = DataStore::new();
    let base = make_entry(0, 0, b"base".to_vec());
    assert!(execute_write(&mut store, Action::SetCmd, String::from("k"), base));
    let foo = make_entry(0, 0, b"foo".to_vec());
    assert!(execute_write(&mut store, Action::AppendCmd, String::from("k"), foo));
    let bar = make_entry(0, 0, b"bar".to_vec());
    assert!(execute_write(&mut store, Action::AppendCmd, String::from("k"), bar));
    assert_eq!(payload_of(&mut store, "k", 10).unwrap(), b"basefoobar".to_vec());
}

#[test]
fn append_to_absent_key_is_not_stored() {
    let mut store = DataStore::new();
    let entry = make_entry(0, 0, b"x".to_vec());
    assert!(!execute_write(&mut store, Action::AppendCmd, String::from("k"), entry));
    assert!(payload_of(&mut store, "k", 10).is_none());
}

#[test]
fn prepend_mirrors_append() {
    let mut store = DataStore::new();
    let old = make_entry(0, 0, b"old".to_vec());
    assert!(execute_write(&mut store, Action::SetCmd, String::from("k"), old));
    let new = make_entry(0, 0, b"new".to_vec());
    assert!(execute_write(&mut store, Action::PrependCmd, String::from("k"), new));
    assert_eq!(payload_of(&mut store, "k", 10).unwrap(), b"newold".to_vec());
}

#[test]
fn append_updates_flags_and_byte_count() {
    let mut store = DataStore::new();
    let base = make_entry(1, 0, b"ab".to_vec());
    execute_write(&mut store, Action::SetCmd, String::from("k"), base);
    let more = make_entry(9, 0, b"cde".to_vec());
    execute_write(&mut store, Action::AppendCmd, String::from("k"), more);
    let mut found = execute_get(&mut store, String::from("k"), 10).unwrap();
    assert_eq!(found.get_flags(), 9);
    assert_eq!(found.get_byte_count(), 5);
}

#[test]
fn negative_exptime_expires_immediately() {
    let mut store = DataStore::new();
    let now: isize = 1_000;
    let entry = make_entry(0, normalize_exptime(-1, now), b"gone".to_vec());
    assert!(execute_write(&mut store, Action::SetCmd, String::from("k"), entry));
    assert!(payload_of(&mut store, "k", now).is_none());
    // the expired entry was lazily evicted
    assert_eq!(store.len(), 0);
}

#[test]
fn zero_exptime_never_expires() {
    let mut store = DataStore::new();
    let now: isize = 1_000;
    let entry = make_entry(0, normalize_exptime(0, now), b"keep".to_vec());
    assert!(execute_write(&mut store, Action::SetCmd, String::from("k"), entry));
    assert!(payload_of(&mut store, "k", isize::MAX).is_some());
}

#[test]
fn positive_exptime_boundary() {
    let mut store = DataStore::new();
    let write_now: isize = 1_000;
    let n: isize = 60;
    let entry = make_entry(0, normalize_exptime(n, write_now), b"soon".to_vec());
    assert!(execute_write(&mut store, Action::SetCmd, String::from("k"), entry));
    // still retrievable exactly at write_time + N
    assert!(payload_of(&mut store, "k", write_now + n).is_some());
    // a miss strictly after it
    assert!(payload_of(&mut store, "k", write_now + n + 1).is_none());
}

#[test]
fn expiration_marker_helpers() {
    assert_eq!(normalize_exptime(-7, 100), -7);
    assert_eq!(normalize_exptime(0, 100), 0);
    assert_eq!(normalize_exptime(30, 100), 130);
    assert_eq!(normalize_exptime(2, isize::MAX - 1), isize::MAX);
    assert!(is_expired(-1, 0));
    assert!(!is_expired(0, isize::MAX));
    assert!(!is_expired(100, 100));
    assert!(is_expired(100, 101));
}

#[test]
fn sets_on_distinct_keys_all_persist() {
    let mut store = DataStore::new();
    for i in 0..50 {
        let key = format!("key{i}");
        let body = format!("value{i}").into_bytes();
        let entry = make_entry(0, 0, body);
        assert!(execute_write(&mut store, Action::SetCmd, key, entry));
    }
    assert_eq!(store.len(), 50);
    for i in 0..50 {
        let key = format!("key{i}");
        let expected = format!("value{i}").into_bytes();
        assert_eq!(payload_of(&mut store, &key, 10).unwrap(), expected);
    }
}

#[test]
fn noreply_suppresses_only_the_response() {
    let mut store = DataStore::new();
    let quiet = serve_write(
        &mut store,
        Action::SetCmd,
        String::from("k"),
        3,
        0,
        b"quiet".to_vec(),
        true,
    );
    assert!(quiet.is_none());
    // the mutation still happened
    assert_eq!(payload_of(&mut store, "k", 10).unwrap(), b"quiet".to_vec());

    let loud = serve_write(
        &mut store,
        Action::SetCmd,
        String::from("k"),
        3,
        0,
        b"loud".to_vec(),
        false,
    );
    assert_eq!(loud.unwrap(), "STORED\r\n");
    let failed = serve_write(
        &mut store,
        Action::AddCmd,
        String::from("k"),
        3,
        0,
        b"again".to_vec(),
        false,
    );
    assert_eq!(failed.unwrap(), "NOT_STORED\r\n");
}

#[test]
fn serve_get_against_the_clock() {
    let mut store = DataStore::new();
    let entry = make_entry(5, 0, b"now".to_vec());
    execute_write(&mut store, Action::SetCmd, String::from("k"), entry);
    let mut found = serve_get(&mut store, String::from("k")).expect("hit");
    assert_eq!(found.get_flags(), 5);
    assert_eq!(found.get_value(), b"now".to_vec());
    assert!(serve_get(&mut store, String::from("other")).is_none());
}

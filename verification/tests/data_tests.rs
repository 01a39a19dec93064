use bytes::Bytes;
use minicache::data::{DataStore, StoredValue};

fn sample_value() -> StoredValue {
    let mut value = StoredValue::new();
    value.set_bytes(Bytes::from("lets see if this works"));
    value.set_flags(0);
    value.set_exptime(0);
    value.set_byte_count(22);
    value
}

#[test]
fn data_store_new() {
    let data_store = DataStore::new();
    assert_eq!(0, data_store.len());
}

#[test]
fn data_store_set() {
    let data_store = DataStore::new();
    let key = String::from("set_test");
    let value = sample_value();

    let mut data_store = data_store;
    data_store.set(key, value);
    assert_eq!(1, data_store.len());
}

#[test]
fn data_store_get() {
    let mut data_store = DataStore::new();
    let key = String::from("get_test");
    let value = sample_value();
    data_store.set(key.clone(), value.clone());

    let get_value = data_store.get(key);
    match get_value {
        Some(result) => {
            let mut value = value;
            let mut result = result;
            assert_eq!(value.get_value(), result.get_value());
            assert_eq!(value.get_flags(), result.get_flags());
            assert_eq!(value.get_exptime(), result.get_exptime());
            assert_eq!(value.get_byte_count(), result.get_byte_count());
        }
        None => unreachable!(),
    }
}

#[test]
fn data_store_get_invalid_key() {
    let mut data_store = DataStore::new();
    let key = String::from("get_test");
    let value = sample_value();
    data_store.set(key.clone(), value.clone());

    if data_store.get(String::from("not a key")).is_some() {
        panic!()
    }
}

#[test]
fn stored_value_new() {
    let stored_value = StoredValue::new();
    let mut stored_value = stored_value;
    assert_eq!(0, stored_value.get_value().len());
    assert_eq!(0, stored_value.get_flags());
    assert_eq!(0, stored_value.get_exptime());
    assert_eq!(0, stored_value.get_byte_count());
}

#[test]
fn data_store_remove_and_contains() {
    let mut data_store = DataStore::new();
    let key = String::from("k");
    data_store.set(key.clone(), sample_value());
    assert!(data_store.contains(&key));
    data_store.remove(&key);
    assert!(!data_store.contains(&key));
    // removing an absent key is a no-op
    data_store.remove(&key);
    assert_eq!(0, data_store.len());
}

#[test]
fn data_store_iterate_pairs() {
    let mut data_store = DataStore::new();
    data_store.set(String::from("a"), sample_value());
    data_store.set(String::from("b"), sample_value());
    let pairs = data_store.iterate();
    assert_eq!(2, pairs.len());
    let mut keys: Vec<String> = pairs.into_iter().map(|p| p.0).collect();
    keys.sort();
    assert_eq!(keys, vec![String::from("a"), String::from("b")]);
}

#[test]
fn response_string_is_protocol_exact() {
    let mut v = StoredValue::new();
    v.set_bytes(Bytes::from("abc"));
    v.set_flags(3);
    v.set_byte_count(3);
    assert_eq!(v.response_string("key"), "VALUE key 3 3\r\nabc\r\nEND\r\n");
}

#[test]
fn response_bytes_serves_any_payload() {
    let mut v = StoredValue::new();
    v.set_bytes(Bytes::from(vec![0xffu8, 0x41]));
    v.set_flags(1);
    v.set_byte_count(2);
    let mut expected = b"VALUE key 1 2\r\n".to_vec();
    expected.extend_from_slice(&[0xff, 0x41]);
    expected.extend_from_slice(b"\r\nEND\r\n");
    assert_eq!(v.response_bytes("key"), expected);
}

#[test]
fn try_response_string_refuses_binary_payloads() {
    let mut v = StoredValue::new();
    v.set_bytes(Bytes::from(vec![0xffu8]));
    v.set_byte_count(1);
    assert!(v.try_response_string("key").is_none());
}

#[test]
fn stored_value_setters_overwrite() {
    let mut v = StoredValue::new();
    v.set_flags(7);
    v.set_exptime(-3);
    v.set_byte_count(4);
    v.set_bytes(Bytes::from("abcd"));
    assert_eq!(7, v.get_flags());
    assert_eq!(-3, v.get_exptime());
    assert_eq!(4, v.get_byte_count());
    assert_eq!(b"abcd".to_vec(), v.get_value());
}

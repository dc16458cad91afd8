use kvstore::kvstore::{KVStore, MockKVStore};
use kvstore::values::Value;

#[test]
fn get_missing_key() {
    let store: MockKVStore<i32> = MockKVStore::new();
    assert_eq!(None, store.get("key".to_string()));
}

#[test]
fn put_inserts_key_value() {
    let mut store = MockKVStore::<i32>::new();
    store.put("key".to_string(), Value::new(1));
    let optional_value = store.get("key".to_string());
    let value = optional_value.unwrap();
    assert_eq!(Value::new(1), *value);
}

#[test]
fn delete_removes_key() {
    let mut store = MockKVStore::new();
    store.put("key".to_string(), Value::new(1));
    store.delete("key".to_string());
    assert_eq!(None, store.get("key".to_string()))
}

#[test]
fn put_replaces_existing_value() {
    let mut store = MockKVStore::new();
    store.put("a".to_string(), Value::new(1));
    store.put("b".to_string(), Value::new(2));
    store.put("a".to_string(), Value::new(3));
    assert_eq!(store.get("a".to_string()), Some(&Value::new(3)));
    assert_eq!(store.get("b".to_string()), Some(&Value::new(2)));
    store.delete("a".to_string());
    assert_eq!(store.get("a".to_string()), None);
    assert_eq!(store.get("b".to_string()), Some(&Value::new(2)));
}

#[test]
fn delete_missing_key_changes_nothing() {
    let mut store = MockKVStore::new();
    store.put("a".to_string(), Value::new(true));
    store.delete("zzz".to_string());
    assert_eq!(store.get("a".to_string()), Some(&Value::new(true)));
}

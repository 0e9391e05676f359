use netbase::{pair_or_empty, Ev, F64Bits, Kvpair, MemTable, Storage, StorageIter, Value};

#[test]
fn get_or_create_table_should_work() {
    let mut store = MemTable::new();
    assert!(!store.contains_table("t1"));
    store.get_or_create_table("t1");
    assert!(store.contains_table("t1"));
}

#[test]
fn memtable_basic_interface_should_work() {
    let store = MemTable::new();
    test_basi_interface(store);
}

#[test]
fn memtable_get_all_should_work() {
    let store = MemTable::new();
    test_get_all(store);
}

#[test]
fn memtable_iter_should_work() {
    let store = MemTable::new();
    test_get_iter(store);
}

fn test_basi_interface(mut store: impl Storage) {
    let v = store.set("t1", "hello", "world".into());
    assert!(v.is_ok());

    let v = store.get("t1", "hello");
    assert_eq!(v.unwrap(), "world".into());

    // a missing key or table reads as None
    assert_eq!(None, store.get("t1", "hello1").unwrap().ev);
    assert!(store.get("t2", "hello1").unwrap().ev.is_none());

    // deleting a present or missing key or table is no error
    assert!(store.del("t1", "hello").is_ok());
    assert!(store.del("t1", "hello1").is_ok());
    assert!(store.del("t2", "hello").is_ok());
}

fn test_get_all(mut store: impl Storage) {
    store.set("t2", "k1", "v1".into()).unwrap();
    store.set("t2", "k2", "v2".into()).unwrap();
    let mut data = store.get_all("t2").unwrap();
    data.sort_by(|a, b| a.partial_cmp(b).unwrap());
    assert_eq!(data, vec![Kvpair::new("k1", "v1"), Kvpair::new("k2", "v2")])
}

fn test_get_iter(mut store: impl Storage) {
    store.set("t2", "k1", "v1".into()).unwrap();
    store.set("t2", "k2", "v2".into()).unwrap();
    let mut data: Vec<_> = store.get_iter("t2").unwrap().collect();
    data.sort_by(|a, b| a.partial_cmp(b).unwrap());
    assert_eq!(data, vec![Kvpair::new("k1", "v1"), Kvpair::new("k2", "v2")])
}

#[test]
fn read_after_write_and_delete() {
    let mut store = MemTable::new();
    store.set("t", "a", 1i64.into()).unwrap();
    store.set("t", "b", 2i64.into()).unwrap();
    store.set("u", "a", 3i64.into()).unwrap();
    assert_eq!(store.get("t", "a").unwrap(), Value::from(1i64));
    store.set("t", "a", 4i64.into()).unwrap();
    assert_eq!(store.get("t", "a").unwrap(), Value::from(4i64));
    assert_eq!(store.get("t", "b").unwrap(), Value::from(2i64));
    assert_eq!(store.get("u", "a").unwrap(), Value::from(3i64));
    store.del("t", "a").unwrap();
    assert_eq!(store.get("t", "a").unwrap(), Value::default());
    assert_eq!(store.get("t", "b").unwrap(), Value::from(2i64));
    assert_eq!(store.get_all("t").unwrap(), vec![Kvpair::new("b", 2i64)]);
}

#[test]
fn reads_create_missing_tables_empty() {
    let mut store = MemTable::default();
    assert!(store.get_all("none").unwrap().is_empty());
    assert!(store.contains_table("none"));
    let mut it = store.get_iter("other").unwrap();
    assert!(it.next().is_none());
    assert!(store.contains_table("other"));
}

#[test]
fn iter_is_a_snapshot() {
    let mut store = MemTable::new();
    store.set("t", "k", "v".into()).unwrap();
    let mut it = store.get_iter("t").unwrap();
    store.set("t", "k2", "v2".into()).unwrap();
    assert_eq!(it.next(), Some(Kvpair::new("k", "v")));
    assert_eq!(it.next(), None);
}

#[test]
fn value_conversions() {
    assert_eq!(Value::from("s").ev, Some(Ev::String("s".to_string())));
    assert_eq!(Value::from("s".to_string()).ev, Some(Ev::String("s".to_string())));
    assert_eq!(Value::from(vec![1u8, 2]).ev, Some(Ev::Binary(vec![1, 2])));
    assert_eq!(Value::from(&[3u8][..]).ev, Some(Ev::Binary(vec![3])));
    assert_eq!(Value::from(-5i64).ev, Some(Ev::Integer(-5)));
    assert_eq!(Value::from_f64_bits(1.5f64.to_bits()).ev, Some(Ev::Float(F64Bits(1.5f64.to_bits()))));
    assert_eq!(Value::default().ev, None);
}

#[test]
fn kvpair_conversions() {
    let p: Kvpair = ("k".to_string(), Value::from(1i64)).into();
    assert_eq!(p, Kvpair::new("k", 1i64));
    let q: Kvpair = ("k".to_string(), vec![9u8]).into();
    assert_eq!(q.val.ev, Some(Ev::Binary(vec![9])));
    assert_eq!(q.key, "k");
}

#[test]
fn storage_iter_walks_in_order() {
    let mut it = StorageIter::new(vec![
        ("a".to_string(), Value::from(1i64)),
        ("b".to_string(), Value::from(2i64)),
        ("c".to_string(), Value::from(3i64)),
    ]);
    assert_eq!(it.next(), Some(Kvpair::new("a", 1i64)));
    assert_eq!(it.next(), Some(Kvpair::new("b", 2i64)));
    assert_eq!(it.next(), Some(Kvpair::new("c", 3i64)));
    assert_eq!(it.next(), None);
}

#[test]
fn floats_compare_as_f64() {
    let f = |x: f64| Value::from_f64_bits(x.to_bits());
    assert_eq!(f(0.0), f(-0.0));
    assert_ne!(f(f64::NAN), f(f64::NAN));
    assert!(f(-1.0) < f(1.0));
    assert!(f(-2.0) < f(-1.0));
    assert!(f(1.0) < f(f64::INFINITY));
    assert!(f(f64::NEG_INFINITY) < f(-1.0e300));
    assert_eq!(f(f64::NAN).partial_cmp(&f(1.0)), None);
    assert_eq!(F64Bits(0.0f64.to_bits()), F64Bits((-0.0f64).to_bits()));
}

#[test]
fn pair_or_empty_keeps_decoded_value() {
    let ok: Result<Value, ()> = Ok(Value::from(7i64));
    assert_eq!(pair_or_empty("k".to_string(), ok), Kvpair::new("k", 7i64));
    let bad: Result<Value, ()> = Err(());
    assert_eq!(pair_or_empty("k".to_string(), bad), Kvpair { key: "k".to_string(), val: Value::default() });
}

#[test]
fn memtable_clone_is_a_separate_copy() {
    let mut a = MemTable::new();
    a.set("t", "k", "v".into()).unwrap();
    let mut b = a.clone();
    assert_eq!(b.get("t", "k").unwrap(), "v".into());
    b.set("t", "k", "w".into()).unwrap();
    assert_eq!(a.get("t", "k").unwrap(), "v".into());
    assert_eq!(b.get("t", "k").unwrap(), "w".into());
}

#[test]
fn kvpair_new_keeps_key_text() {
    let p = Kvpair::new("k1", "v1");
    assert_eq!(p.key, "k1");
    assert_eq!(p.val, Value::from("v1"));
}

#[test]
fn storage_iter_collect_keeps_order() {
    let it = StorageIter::new(vec![
        ("x".to_string(), Value::from(1i64)),
        ("y".to_string(), Value::from(2i64)),
    ]);
    assert_eq!(it.collect(), vec![Kvpair::new("x", 1i64), Kvpair::new("y", 2i64)]);
}

#[test]
fn store_error_conversions() {
    let e: netbase::BaseError = std::io::Error::new(std::io::ErrorKind::Other, "x").into();
    assert!(matches!(e, netbase::BaseError::Io(_)));
    let e: netbase::BaseError = anyhow::Error::msg("y").into();
    assert!(matches!(e, netbase::BaseError::Other(_)));
}

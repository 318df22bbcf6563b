use hive_core::error::ErrorKind;
use hive_core::shared::{PlainTable, PlainValue, SharedStore, SharedValue};

#[test]
fn set_get_and_remove() {
    let mut store = SharedStore::new();
    let t = store.create();
    assert_eq!(store.len(t), 0);
    store.set(t, b"a".to_vec(), SharedValue::Int(1));
    store.set(t, b"b".to_vec(), SharedValue::Bytes(b"x".to_vec()));
    store.set(t, b"a".to_vec(), SharedValue::Bool(true));
    assert_eq!(store.len(t), 2);
    assert!(matches!(store.get(t, b"a"), Some(SharedValue::Bool(true))));
    assert!(matches!(store.get(t, b"b"), Some(SharedValue::Bytes(b)) if b == b"x"));
    store.set(t, b"a".to_vec(), SharedValue::Nil);
    assert!(store.get(t, b"a").is_none());
    assert_eq!(store.len(t), 1);
    store.set(t, b"zz".to_vec(), SharedValue::Nil);
    assert_eq!(store.len(t), 1);
}

#[test]
fn array_flag_keeps_identity() {
    let mut store = SharedStore::new();
    let t = store.create();
    store.set(t, b"1".to_vec(), SharedValue::Int(10));
    assert!(!store.is_array(t));
    store.set_array(t, true);
    assert!(store.is_array(t));
    assert!(matches!(store.get(t, b"1"), Some(SharedValue::Int(10))));
}

#[test]
fn deep_copy_of_nested_tables() {
    let mut store = SharedStore::new();
    let outer = store.create();
    let inner = store.create();
    store.set(inner, b"k".to_vec(), SharedValue::Bytes(b"v".to_vec()));
    store.set_array(inner, true);
    store.set(outer, b"n".to_vec(), SharedValue::Int(-4));
    store.set(outer, b"t".to_vec(), SharedValue::Table(inner));
    store.set(outer, b"u".to_vec(), SharedValue::Table(inner));
    let copy = store.deep_copy(outer).unwrap();
    let inner_copy = || PlainTable {
        entries: vec![(b"k".to_vec(), PlainValue::Bytes(b"v".to_vec()))],
        array: true,
    };
    assert_eq!(
        copy,
        PlainTable {
            entries: vec![
                (b"n".to_vec(), PlainValue::Int(-4)),
                (b"t".to_vec(), PlainValue::Table(inner_copy())),
                (b"u".to_vec(), PlainValue::Table(inner_copy())),
            ],
            array: false,
        }
    );
}

#[test]
fn deep_copy_rejects_cycles() {
    let mut store = SharedStore::new();
    let a = store.create();
    let b = store.create();
    store.set(a, b"b".to_vec(), SharedValue::Table(b));
    store.set(b, b"a".to_vec(), SharedValue::Table(a));
    assert!(matches!(store.deep_copy(a), Err(ErrorKind::CycleDetected)));
    let c = store.create();
    store.set(c, b"self".to_vec(), SharedValue::Table(c));
    assert!(matches!(store.deep_copy(c), Err(ErrorKind::CycleDetected)));
    store.set(b, b"a".to_vec(), SharedValue::Nil);
    assert!(store.deep_copy(a).is_ok());
}

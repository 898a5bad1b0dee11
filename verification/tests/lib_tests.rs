use tick_core::store::Store;
use tick_core::cleanup_memory;

#[test]
fn it_works() {
    assert_eq!(2 + 2, 4);
}

#[test]
fn store_set_get_delete() {
    let mut store = Store::new();
    assert!(!store.has_key("creeps:a"));
    assert_eq!(store.get("creeps:a"), None);
    store.set("creeps:a", String::from("[]"));
    assert!(store.has_key("creeps:a"));
    assert_eq!(store.get("creeps:a"), Some(String::from("[]")));
    store.set("creeps:a", String::from("x"));
    assert_eq!(store.get("creeps:a"), Some(String::from("x")));
    store.delete("creeps:a");
    assert!(!store.has_key("creeps:a"));
    assert_eq!(store.get("creeps:a"), None);
}

#[test]
fn store_keys_are_tracked() {
    let mut store = Store::new();
    store.set("creeps:a", String::from("1"));
    store.set("colony:R1", String::from("bootstrap"));
    store.set("creeps:b", String::from("2"));
    store.delete("creeps:a");
    let mut keys = store.stored_keys();
    keys.sort();
    assert_eq!(keys, vec![String::from("colony:R1"), String::from("creeps:b")]);
}

#[test]
fn cleanup_removes_dead_unit_records() {
    let mut store = Store::new();
    store.set("creeps:alive1", String::from("[]"));
    store.set("creeps:dead1", String::from("[]"));
    store.set("colony:R1", String::from("bootstrap"));
    let alive = vec![String::from("alive1")];
    cleanup_memory(&mut store, &alive);
    assert!(store.has_key("creeps:alive1"));
    assert!(!store.has_key("creeps:dead1"));
    assert!(store.has_key("colony:R1"));
}

#[test]
fn cleanup_keeps_everything_when_all_alive() {
    let mut store = Store::new();
    store.set("creeps:u1", String::from("[]"));
    store.set("creeps:u2", String::from("[{\"Harvest\":{}}]"));
    let alive = vec![String::from("u1"), String::from("u2")];
    cleanup_memory(&mut store, &alive);
    assert_eq!(store.get("creeps:u1"), Some(String::from("[]")));
    assert_eq!(store.get("creeps:u2"), Some(String::from("[{\"Harvest\":{}}]")));
}

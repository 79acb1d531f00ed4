use nickmass_com::store::{field_value, Store};

fn pair(name: &str, value: &str) -> (String, String) {
    (name.to_string(), value.to_string())
}

#[test]
fn empty_store_holds_nothing() {
    let store = Store::empty("key".to_string(), "sid".to_string());
    assert_eq!(store.key(), "key");
    assert_eq!(store.sid(), "sid");
    assert_eq!(store.get("anything"), None);
    assert_eq!(store.get(""), None);
    assert!(store.values().is_empty());
}

#[test]
fn set_then_get() {
    let mut store = Store::empty("key".to_string(), "sid".to_string());
    store.set("socialNounce".to_string(), "Ab3==".to_string());
    assert_eq!(store.get("socialNounce"), Some("Ab3==".to_string()));
    assert_eq!(store.get("socialnounce"), None);
    assert_eq!(store.get("socialUser"), None);
}

#[test]
fn set_replaces_an_earlier_value() {
    let mut store = Store::empty("key".to_string(), "sid".to_string());
    store.set("a".to_string(), "1".to_string());
    store.set("b".to_string(), "2".to_string());
    store.set("a".to_string(), "3".to_string());
    assert_eq!(store.get("a"), Some("3".to_string()));
    assert_eq!(store.get("b"), Some("2".to_string()));
    assert_eq!(store.values(), vec![pair("a", "3"), pair("b", "2")]);
}

#[test]
fn set_leaves_the_identifiers_alone() {
    let mut store = Store::empty("key".to_string(), "sid".to_string());
    store.set("key".to_string(), "x".to_string());
    store.set("sid".to_string(), "y".to_string());
    assert_eq!(store.key(), "key");
    assert_eq!(store.sid(), "sid");
}

#[test]
fn empty_name_and_value_are_stored() {
    let mut store = Store::empty(String::new(), String::new());
    store.set(String::new(), String::new());
    assert_eq!(store.get(""), Some(String::new()));
    assert_eq!(store.values(), vec![pair("", "")]);
}

#[test]
fn new_store_holds_the_data() {
    let store = Store::new(
        "key".to_string(),
        "sid".to_string(),
        vec![pair("a", "1"), pair("b", "2")],
    );
    assert_eq!(store.key(), "key");
    assert_eq!(store.sid(), "sid");
    assert_eq!(store.get("a"), Some("1".to_string()));
    assert_eq!(store.get("b"), Some("2".to_string()));
    assert_eq!(store.get("c"), None);
}

#[test]
fn new_store_keeps_the_later_of_two_pairs() {
    let store = Store::new(
        "key".to_string(),
        "sid".to_string(),
        vec![pair("a", "1"), pair("b", "2"), pair("a", "3")],
    );
    assert_eq!(store.get("a"), Some("3".to_string()));
    assert_eq!(store.values(), vec![pair("a", "3"), pair("b", "2")]);
}

#[test]
fn clone_is_a_store_of_its_own() {
    let mut store = Store::empty("key".to_string(), "sid".to_string());
    store.set("a".to_string(), "1".to_string());
    let copy = store.clone();
    store.set("a".to_string(), "2".to_string());
    assert_eq!(copy.get("a"), Some("1".to_string()));
    assert_eq!(copy.key(), "key");
    assert_eq!(copy.sid(), "sid");
    assert_eq!(store.get("a"), Some("2".to_string()));
}

#[test]
fn field_value_takes_the_last_pair_of_a_name() {
    let pairs = vec![pair("a", "1"), pair("b", "2"), pair("a", "3")];
    assert_eq!(field_value(&pairs, "a"), Some("3".to_string()));
    assert_eq!(field_value(&pairs, "b"), Some("2".to_string()));
    assert_eq!(field_value(&pairs, "c"), None);
    assert_eq!(field_value(&Vec::new(), "a"), None);
}

use lu_mod_tool::dict::{duplicate_all, duplicate_text, Dict, Duplicate};
use lu_mod_tool::value::{Field, JsonValue, OutputValue};

#[test]
fn storing_and_finding() {
    let mut d: Dict<i32> = Dict::new();
    assert_eq!(d.len(), 0);
    assert_eq!(d.get("a"), None);
    assert!(!d.contains_key("a"));
    d.insert("a".to_string(), 1);
    d.insert("b".to_string(), 2);
    assert_eq!(d.len(), 2);
    assert_eq!(d.get("a"), Some(&1));
    assert_eq!(d.get("b"), Some(&2));
    assert_eq!(d.find("b"), Some(1));
    assert_eq!(d.find("c"), None);
    assert!(d.contains_key("b"));
}

#[test]
fn storing_again_replaces_in_place() {
    let mut d: Dict<i32> = Dict::new();
    d.insert("a".to_string(), 1);
    d.insert("b".to_string(), 2);
    d.insert("a".to_string(), 3);
    assert_eq!(d.len(), 2);
    assert_eq!(d.key_at(0), "a");
    assert_eq!(*d.value_at(0), 3);
    assert_eq!(d.key_at(1), "b");
    assert_eq!(*d.value_at(1), 2);
}

#[test]
fn copies_are_alike() {
    let mut d: Dict<OutputValue> = Dict::new();
    d.insert("x".to_string(), OutputValue::GenerateId);
    d.insert("y".to_string(), OutputValue::Known(Field::Text("t".to_string())));
    let copy = d.duplicate();
    assert_eq!(copy.len(), 2);
    assert_eq!(copy.get("x"), Some(&OutputValue::GenerateId));
    assert_eq!(copy.get("y"), Some(&OutputValue::Known(Field::Text("t".to_string()))));
    let values = vec![JsonValue::Null, JsonValue::Bool(true)];
    assert_eq!(duplicate_all(&values), values);
    assert_eq!(duplicate_text(&Some("a".to_string())), Some("a".to_string()));
    assert_eq!(duplicate_text(&None), None);
    assert_eq!("s".to_string().duplicate(), "s");
    assert_eq!(5i32.duplicate(), 5);
}

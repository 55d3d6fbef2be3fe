//! Tests for the tagged storage cell and the handle type.

use rea::Kind;
use rea::Ref;
use rea::Value;
use rea::value::ValueStore;

#[test]
fn cell_reports_its_tag() {
    let cell = ValueStore::new(Value::Int(5));
    assert_eq!(cell.type_id(), Kind::Int);
    assert!(cell.is(Kind::Int));
    assert!(!cell.is(Kind::Bool));
    assert!(!cell.is(Kind::Text));
}

#[test]
fn cell_typed_borrow() {
    let cell = ValueStore::new(Value::Bool(true));
    assert_eq!(cell.get_ref(Kind::Bool), Some(&Value::Bool(true)));
    assert_eq!(cell.get_ref(Kind::Int), None);
}

#[test]
fn cell_typed_clone() {
    let cell = ValueStore::new(Value::Text("abc".to_string()));
    assert_eq!(cell.get_cloned_ref(Kind::Text), Some(Value::Text("abc".to_string())));
    assert_eq!(cell.get_cloned_ref(Kind::Bool), None);
    // The cell still holds its value after a cloning read.
    assert_eq!(cell.get_cloned_ref(Kind::Text), Some(Value::Text("abc".to_string())));
}

#[test]
fn cell_consuming_extraction() {
    let cell = ValueStore::new(Value::Int(9));
    assert_eq!(cell.get(Kind::Int), Some(Value::Int(9)));
    let other = ValueStore::new(Value::Int(9));
    assert_eq!(other.get(Kind::Text), None);
}

#[test]
fn value_kinds() {
    assert_eq!(Value::Bool(false).kind(), Kind::Bool);
    assert_eq!(Value::Int(0).kind(), Kind::Int);
    assert_eq!(Value::Text(String::new()).kind(), Kind::Text);
}

#[test]
fn handle_is_a_plain_token() {
    let r = Ref::new(4, Kind::Text);
    assert_eq!(r.id(), 4);
    let copy = r;
    assert_eq!(copy, r);
    assert_eq!(copy.id(), 4);
}

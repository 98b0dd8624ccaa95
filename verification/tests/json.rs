use vecstore::double::Double;
use vecstore::json::{find, JsonNumber, JsonValue};

fn text(s: &str) -> JsonValue {
    JsonValue::String(s.to_string())
}

#[test]
fn find_returns_the_first_entry_of_a_key() {
    let entries = vec![
        ("a".to_string(), 1u8),
        ("b".to_string(), 2u8),
        ("a".to_string(), 3u8),
    ];
    assert_eq!(find(&entries, "a"), Some(&1));
    assert_eq!(find(&entries, "b"), Some(&2));
    assert_eq!(find(&entries, "c"), None);
    let none: Vec<(String, u8)> = Vec::new();
    assert_eq!(find(&none, "a"), None);
}

#[test]
fn get_reads_objects_only() {
    let object = JsonValue::Object(vec![("k".to_string(), text("v"))]);
    assert_eq!(object.get("k"), Some(&text("v")));
    assert_eq!(object.get("K"), None);
    assert_eq!(text("k").get("k"), None);
    assert_eq!(JsonValue::Array(vec![text("k")]).get("k"), None);
    assert_eq!(JsonValue::Null.get("k"), None);
}

#[test]
fn as_u64_takes_non_negative_integers_only() {
    assert_eq!(JsonValue::Number(JsonNumber::PosInt(20000)).as_u64(), Some(20000));
    assert_eq!(JsonValue::Number(JsonNumber::PosInt(0)).as_u64(), Some(0));
    assert_eq!(JsonValue::Number(JsonNumber::NegInt(-1)).as_u64(), None);
    let float = JsonNumber::Float(Double::from_bits(20000.0f64.to_bits()));
    assert_eq!(JsonValue::Number(float).as_u64(), None);
    assert_eq!(text("20000").as_u64(), None);
    assert_eq!(JsonValue::Null.as_u64(), None);
}

#[test]
fn as_str_and_as_array() {
    assert_eq!(text("abc").as_str(), Some("abc"));
    assert_eq!(JsonValue::Bool(true).as_str(), None);
    let array = JsonValue::Array(vec![JsonValue::Null, JsonValue::Bool(false)]);
    assert_eq!(array.as_array().map(|a| a.len()), Some(2));
    assert_eq!(text("abc").as_array(), None);
    assert_eq!(JsonValue::Object(Vec::new()).as_array(), None);
}

#[test]
fn scalars_are_all_but_arrays_and_objects() {
    assert!(JsonValue::Null.is_scalar());
    assert!(JsonValue::Bool(true).is_scalar());
    assert!(JsonValue::Number(JsonNumber::NegInt(-3)).is_scalar());
    assert!(text("").is_scalar());
    assert!(!JsonValue::Array(Vec::new()).is_scalar());
    assert!(!JsonValue::Object(Vec::new()).is_scalar());
}

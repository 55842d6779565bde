use relay_middleware::json::{find_entry, same_json, Json, Number};
use relay_middleware::place::{
    replace_sanitized_json_pointer_value, sanitized_json_pointer_value,
};

fn text(value: &str) -> Json {
    Json::String(value.to_string())
}

fn object(entries: Vec<(&str, Json)>) -> Json {
    Json::Object(entries.into_iter().map(|(key, value)| (key.to_string(), value)).collect())
}

fn path(parts: &[&str]) -> Vec<String> {
    parts.iter().map(|part| part.to_string()).collect()
}

fn sample() -> Json {
    object(vec![
        ("user", object(vec![("name", text("Ada")), ("age", Json::Number(Number::PosInt(36)))])),
        ("tags", Json::Array(vec![text("x"), text("y")])),
    ])
}

fn read(value: &Json, parts: &[&str]) -> Option<String> {
    sanitized_json_pointer_value(value, &path(parts)).map(|found| format!("{:?}", found))
}

#[test]
fn reads_along_a_path() {
    let value = sample();
    assert_eq!(read(&value, &["user", "name"]), Some("String(\"Ada\")".to_string()));
    assert_eq!(read(&value, &["tags", "1"]), Some("String(\"y\")".to_string()));
    assert_eq!(read(&value, &["tags", "01"]), Some("String(\"y\")".to_string()));
    assert_eq!(read(&value, &[]), Some(format!("{:?}", value)));
}

#[test]
fn a_path_that_leads_nowhere_reads_nothing() {
    let value = sample();
    assert_eq!(read(&value, &["user", "email"]), None);
    assert_eq!(read(&value, &["tags", "2"]), None);
    assert_eq!(read(&value, &["tags", "first"]), None);
    assert_eq!(read(&value, &["user", "name", "0"]), None);
}

#[test]
fn a_replaced_value_is_read_back() {
    let mut value = sample();
    let done = replace_sanitized_json_pointer_value(&mut value, &path(&["user", "name"]), text("*"));
    assert_eq!(done, Some(()));
    assert_eq!(read(&value, &["user", "name"]), Some("String(\"*\")".to_string()));
    let done = replace_sanitized_json_pointer_value(&mut value, &path(&["tags", "0"]), Json::Null);
    assert_eq!(done, Some(()));
    assert_eq!(read(&value, &["tags", "0"]), Some("Null".to_string()));
}

#[test]
fn replacing_keeps_other_places() {
    let mut value = sample();
    replace_sanitized_json_pointer_value(&mut value, &path(&["tags", "0"]), Json::Null);
    assert_eq!(read(&value, &["tags", "1"]), Some("String(\"y\")".to_string()));
    assert_eq!(read(&value, &["user", "name"]), Some("String(\"Ada\")".to_string()));
}

#[test]
fn a_new_key_is_added_but_no_new_item() {
    let mut value = sample();
    let done = replace_sanitized_json_pointer_value(&mut value, &path(&["user", "email"]), text("e"));
    assert_eq!(done, Some(()));
    assert_eq!(read(&value, &["user", "email"]), Some("String(\"e\")".to_string()));
    let before = format!("{:?}", value);
    let done = replace_sanitized_json_pointer_value(&mut value, &path(&["tags", "2"]), text("z"));
    assert_eq!(done, None);
    assert_eq!(format!("{:?}", value), before);
}

#[test]
fn nothing_is_replaced_without_a_place() {
    let mut value = sample();
    let before = format!("{:?}", value);
    for parts in [&[][..], &["none", "x"][..], &["user", "name", "x"][..], &["tags", "x"][..]] {
        let done = replace_sanitized_json_pointer_value(&mut value, &path(parts), Json::Null);
        assert_eq!(done, None);
        assert_eq!(format!("{:?}", value), before);
    }
}

#[test]
fn replacing_by_itself_changes_nothing() {
    let mut value = sample();
    let before = format!("{:?}", value);
    let same = value.copy();
    let found = sanitized_json_pointer_value(&same, &path(&["user", "age"])).unwrap().copy();
    replace_sanitized_json_pointer_value(&mut value, &path(&["user", "age"]), found);
    assert_eq!(format!("{:?}", value), before);
}

#[test]
fn objects_are_equal_in_any_order() {
    let one = object(vec![("a", Json::Bool(true)), ("b", Json::Null)]);
    let two = object(vec![("b", Json::Null), ("a", Json::Bool(true))]);
    assert!(same_json(&one, &two));
    assert!(same_json(&one, &one.copy()));
    assert!(!same_json(&one, &object(vec![("a", Json::Bool(true))])));
    assert!(!same_json(&one, &object(vec![("a", Json::Bool(true)), ("c", Json::Null)])));
    assert!(!same_json(
        &Json::Array(vec![text("x"), text("y")]),
        &Json::Array(vec![text("y"), text("x")])
    ));
}

#[test]
fn numbers_are_equal_in_the_same_form() {
    let zero = Json::Number(Number::Float(0.0f64.to_bits()));
    let minus_zero = Json::Number(Number::Float((-0.0f64).to_bits()));
    let integer = Json::Number(Number::PosInt(0));
    assert!(same_json(&zero, &minus_zero));
    assert!(!same_json(&zero, &integer));
    assert!(same_json(&Json::Number(Number::NegInt(-4)), &Json::Number(Number::NegInt(-4))));
    assert!(!same_json(&Json::Number(Number::PosInt(4)), &Json::Number(Number::PosInt(5))));
}

#[test]
fn the_first_entry_of_a_key_is_found() {
    let entries = vec![
        ("a".to_string(), Json::Null),
        ("b".to_string(), Json::Bool(false)),
        ("b".to_string(), Json::Bool(true)),
    ];
    assert_eq!(find_entry(&entries, &"b".to_string()), Some(1));
    assert_eq!(find_entry(&entries, &"c".to_string()), None);
}

#[test]
fn keys_that_read_as_one_position_are_different_entries() {
    let mut value = object(vec![("1", text("a")), ("01", text("b"))]);
    replace_sanitized_json_pointer_value(&mut value, &path(&["1"]), Json::Null);
    assert_eq!(read(&value, &["1"]), Some("Null".to_string()));
    assert_eq!(read(&value, &["01"]), Some("String(\"b\")".to_string()));
}

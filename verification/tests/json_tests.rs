use afd::json::JsonEntry;
use afd::json::JsonMap;
use afd::json::JsonNumber;
use afd::json::JsonValue;
use afd::number::Double;
use afd::path::get_nested_value;
use afd::path::parse_index;
use afd::path::step_into;
use afd::text::decimal_string;
use afd::text::str_eq;

fn s(text: &str) -> JsonValue {
    JsonValue::String(text.to_string())
}

fn n(value: u64) -> JsonValue {
    JsonValue::Number(JsonNumber::PosInt(value))
}

fn obj(members: Vec<(&str, JsonValue)>) -> JsonValue {
    let mut map = JsonMap::new();
    for (key, value) in members {
        map.insert(key, value);
    }
    JsonValue::Object(map)
}

fn d(value: f64) -> Double {
    Double::from_bits(value.to_bits())
}

fn float(value: f64) -> JsonValue {
    JsonValue::Number(JsonNumber::Float(d(value)))
}

#[test]
fn objects_are_maps() {
    let a = obj(vec![("x", n(1)), ("y", s("two"))]);
    let b = obj(vec![("y", s("two")), ("x", n(1))]);
    assert_eq!(a, b);
    let overwritten = obj(vec![("x", n(9)), ("y", s("two")), ("x", n(1))]);
    assert_eq!(a, overwritten);
    assert_eq!(overwritten.get("x"), Some(&n(1)));
    assert_ne!(a, obj(vec![("x", n(1))]));
    assert_ne!(obj(vec![("x", n(1))]), a);
    assert_ne!(a, obj(vec![("x", n(1)), ("y", s("three"))]));
    assert_ne!(a, obj(vec![("x", n(1)), ("z", s("two"))]));
    assert_eq!(obj(vec![]), obj(vec![]));
    assert_eq!(a.get("z"), None);
    assert_eq!(s("x").get("x"), None);
    assert!(a.is_object() && !a.is_array() && !a.is_null() && !a.is_string());
    let direct = JsonValue::Object(JsonMap {
        entries: vec![JsonEntry::new("x", n(1)), JsonEntry::new("y", s("two"))],
    });
    assert_eq!(a, direct);
}

#[test]
fn values_compare_by_kind_and_content() {
    assert_eq!(JsonValue::Null, JsonValue::Null);
    assert_ne!(JsonValue::Null, JsonValue::Bool(false));
    assert_ne!(JsonValue::Bool(true), JsonValue::Bool(false));
    assert_ne!(s("1"), n(1));
    assert_eq!(s(""), s(""));
    assert_ne!(s("a"), s("ab"));
    assert_ne!(s("ab"), s("ac"));
    let list = JsonValue::Array(vec![n(1), s("x"), JsonValue::Array(vec![])]);
    assert_eq!(list, list.clone());
    assert_ne!(list, JsonValue::Array(vec![n(1), s("x")]));
    assert_ne!(list, JsonValue::Array(vec![n(1), s("y"), JsonValue::Array(vec![])]));
    assert_eq!(list.get_index(1), Some(&s("x")));
    assert_eq!(list.get_index(3), None);
    assert_eq!(s("x").get_index(0), None);
    let nested = obj(vec![("a", obj(vec![("b", JsonValue::Array(vec![obj(vec![("c", n(3))])]))]))]);
    assert_eq!(nested.clone(), nested);
    assert!(str_eq("héllo", "héllo"));
    assert!(!str_eq("héllo", "hello"));
}

#[test]
fn numbers_compare_by_value() {
    assert_eq!(n(5), JsonValue::Number(JsonNumber::NegInt(5)));
    assert_ne!(n(5), JsonValue::Number(JsonNumber::NegInt(-5)));
    assert_ne!(n(u64::MAX), JsonValue::Number(JsonNumber::NegInt(-1)));
    assert_ne!(n(1), float(1.0));
    assert_eq!(float(0.0), float(-0.0));
    assert_eq!(float(1.5), float(1.5));
    assert_ne!(float(1.5), float(-1.5));
    assert_ne!(float(0.0), float(5e-324));
    assert_eq!(n(5).as_double(), Some(d(5.0)));
    assert_eq!(float(2.5).as_double(), Some(d(2.5)));
    assert_eq!(JsonValue::Number(JsonNumber::NegInt(-3)).as_double(), Some(d(-3.0)));
    assert_eq!(s("5").as_double(), None);
    assert_eq!(JsonValue::Null.as_double(), None);
}

#[test]
fn paths_follow_members_and_items() {
    let value = obj(vec![
        ("user", obj(vec![("profile", obj(vec![("name", s("Alice"))]))])),
        ("items", JsonValue::Array(vec![n(1), obj(vec![("id", n(7))]), n(3)])),
        ("", s("empty key")),
        ("a", obj(vec![("", n(0))])),
        ("caf\u{e9}", JsonValue::Array(vec![s("au lait")])),
        ("x[0]", s("literal")),
    ]);
    assert_eq!(get_nested_value(&value, "user"), value.get("user").cloned());
    assert_eq!(get_nested_value(&value, "items[0]"), Some(n(1)));
    assert_eq!(get_nested_value(&value, "items[1].id"), Some(n(7)));
    assert_eq!(get_nested_value(&value, "items[001].id"), Some(n(7)));
    assert_eq!(get_nested_value(&value, "items[3]"), None);
    assert_eq!(get_nested_value(&value, "items[99999999999999999999999999]"), None);
    assert_eq!(get_nested_value(&value, "user[0]"), None);
    assert_eq!(get_nested_value(&value, "none[0]"), None);
    assert_eq!(get_nested_value(&value, "items[0].id"), None);
    assert_eq!(get_nested_value(&value, ""), Some(s("empty key")));
    assert_eq!(get_nested_value(&value, "a."), Some(n(0)));
    assert_eq!(get_nested_value(&value, ".a"), None);
    assert_eq!(get_nested_value(&value, "user..profile"), None);
    assert_eq!(get_nested_value(&value, "caf\u{e9}[0]"), Some(s("au lait")));
    assert_eq!(get_nested_value(&value, "items[\u{663}]"), None);
    assert_eq!(get_nested_value(&value, "items[-1]"), None);
    assert_eq!(get_nested_value(&value, "items[1"), None);
    assert_eq!(get_nested_value(&value, "x[0]"), None);
    assert_eq!(get_nested_value(&s("leaf"), "x"), None);
}

#[test]
fn one_segment_down_from_given_captures() {
    let value = obj(vec![("items", JsonValue::Array(vec![n(1), n(2)])), ("k", s("v"))]);
    assert_eq!(step_into(&value, "k", &None), Some(&s("v")));
    assert_eq!(step_into(&value, "missing", &None), None);
    let second = Some(("items".to_string(), "1".to_string()));
    assert_eq!(step_into(&value, "items[1]", &second), Some(&n(2)));
    let unwritten = Some(("items".to_string(), "\u{663}".to_string()));
    assert_eq!(step_into(&value, "k", &unwritten), None);
    let beyond = Some(("items".to_string(), "2".to_string()));
    assert_eq!(step_into(&value, "k", &beyond), None);
    let no_array = Some(("k".to_string(), "0".to_string()));
    assert_eq!(step_into(&value, "k", &no_array), None);
}

#[test]
fn indexes_and_decimals() {
    let digits = |text: &str| text.chars().collect::<Vec<char>>();
    assert_eq!(parse_index(&digits("0")), Some(0));
    assert_eq!(parse_index(&digits("007")), Some(7));
    assert_eq!(parse_index(&digits("1234567890")), Some(1234567890));
    assert_eq!(parse_index(&digits(&usize::MAX.to_string())), Some(usize::MAX));
    assert_eq!(parse_index(&digits("18446744073709551616")), None);
    assert_eq!(parse_index(&digits("99999999999999999999999")), None);
    assert_eq!(parse_index(&digits("")), None);
    assert_eq!(parse_index(&digits("+5")), None);
    assert_eq!(parse_index(&digits("1a")), None);
    assert_eq!(parse_index(&digits("a1")), None);
    assert_eq!(parse_index(&digits("\u{663}")), None);
    for value in [0u64, 7, 10, 99, 100, 12345, u64::MAX] {
        assert_eq!(decimal_string(value), value.to_string());
    }
}

#[test]
fn plain_segments_are_matched() {
    let eleven: Vec<JsonValue> = (0..11).map(n).collect();
    let value = obj(vec![
        ("my_Items2", JsonValue::Array(eleven)),
        ("_", JsonValue::Array(vec![s("underscore")])),
        ("9", JsonValue::Array(vec![s("digit")])),
        ("Z", JsonValue::Array(vec![s("upper")])),
        ("a-b", JsonValue::Array(vec![s("dash")])),
        ("a-b[0]", s("literal")),
        ("k]", s("bracket")),
    ]);
    assert_eq!(get_nested_value(&value, "my_Items2[10]"), Some(n(10)));
    assert_eq!(get_nested_value(&value, "my_Items2[0010]"), Some(n(10)));
    assert_eq!(get_nested_value(&value, "_[0]"), Some(s("underscore")));
    assert_eq!(get_nested_value(&value, "9[0]"), Some(s("digit")));
    assert_eq!(get_nested_value(&value, "Z[0]"), Some(s("upper")));
    assert_eq!(get_nested_value(&value, "a-b[0]"), Some(s("literal")));
    assert_eq!(get_nested_value(&value, "k]"), Some(s("bracket")));
    assert_eq!(get_nested_value(&value, "my_Items2[1][2]"), None);
    assert_eq!(get_nested_value(&value, "my_Items2[]"), None);
    assert_eq!(get_nested_value(&value, "[0]"), None);
}

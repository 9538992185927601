use vndb::DecodeError;
use vndb::FilterItem;
use vndb::JsonValue;

fn atom(s: &str) -> FilterItem {
    FilterItem::S(s.to_string())
}

fn jstr(s: &str) -> serde_json::Value {
    serde_json::Value::String(s.to_string())
}

fn jarr(items: Vec<serde_json::Value>) -> serde_json::Value {
    serde_json::Value::Array(items)
}

#[test]
fn lib_simple_string_vec() {
    let ans = FilterItem::V(Vec::from([atom("abc"), atom("=")]));
    let test_item = FilterItem::from(vec![
        FilterItem::from("abc".to_string()),
        FilterItem::from("=".to_string()),
    ]);
    assert_eq!(test_item, ans);
}

#[test]
fn lib_simple_string_array() {
    let ans = FilterItem::V(Vec::from([atom("abc"), atom("=")]));
    let arr = ["abc", "="];
    let test_item = FilterItem::from_atoms(&arr);
    assert_eq!(test_item, ans);
}

#[test]
fn lib_simple_string_slice() {
    let ans = FilterItem::V(Vec::from([atom("abc"), atom("=")]));
    let test_item = FilterItem::from_atoms(&["abc", "="][..]);
    assert_eq!(test_item, ans);
}

#[test]
fn post_data_simple_string_vec() {
    let ans = FilterItem::V(Vec::from([atom("abc"), atom("=")]));
    let test_item = FilterItem::from(vec![
        FilterItem::from("abc".to_string()),
        FilterItem::from("=".to_string()),
    ]);
    assert_eq!(test_item, ans);
}

#[test]
fn post_data_simple_string_array() {
    let ans = FilterItem::V(Vec::from([atom("abc"), atom("=")]));
    let arr = ["abc", "="];
    let test_item = FilterItem::from_atoms(&arr);
    assert_eq!(test_item, ans);
}

#[test]
fn post_data_simple_string_slice() {
    let ans = FilterItem::V(Vec::from([atom("abc"), atom("=")]));
    let test_item = FilterItem::from_atoms(&["abc", "="][..]);
    assert_eq!(test_item, ans);
}

#[test]
fn complex_macro_test() {
    let ans = FilterItem::V(vec![
        atom("and"),
        FilterItem::V(vec![
            atom("or"),
            FilterItem::V(vec![atom("lang"), atom("="), atom("en")]),
            FilterItem::V(vec![atom("lang"), atom("="), atom("de")]),
            FilterItem::V(vec![atom("lang"), atom("="), atom("fr")]),
        ]),
        FilterItem::V(vec![atom("olang"), atom("!="), atom("ja")]),
        FilterItem::V(vec![
            atom("release"),
            atom("="),
            FilterItem::V(vec![
                atom("and"),
                FilterItem::V(vec![atom("released"), atom(">="), atom("2020-01-01")]),
                FilterItem::V(vec![
                    atom("producer"),
                    atom("="),
                    FilterItem::V(vec![atom("id"), atom("="), atom("p30")]),
                ]),
            ]),
        ]),
    ]);
    let temp = jarr(vec![
        jstr("and"),
        jarr(vec![
            jstr("or"),
            jarr(vec![jstr("lang"), jstr("="), jstr("en")]),
            jarr(vec![jstr("lang"), jstr("="), jstr("de")]),
            jarr(vec![jstr("lang"), jstr("="), jstr("fr")]),
        ]),
        jarr(vec![jstr("olang"), jstr("!="), jstr("ja")]),
        jarr(vec![
            jstr("release"),
            jstr("="),
            jarr(vec![
                jstr("and"),
                jarr(vec![jstr("released"), jstr(">="), jstr("2020-01-01")]),
                jarr(vec![
                    jstr("producer"),
                    jstr("="),
                    jarr(vec![jstr("id"), jstr("="), jstr("p30")]),
                ]),
            ]),
        ]),
    ]);
    let temp = FilterItem::from_json(temp).unwrap();
    assert_eq!(temp, ans);
}

#[test]
fn encode_atom_is_json_string() {
    let t = atom("lang");
    assert_eq!(t.encode(), JsonValue::Text("lang".to_string()));
}

#[test]
fn encode_nested_tree_and_decode_back() {
    let tree = FilterItem::V(vec![
        atom("and"),
        FilterItem::V(vec![atom("lang"), atom("="), atom("en")]),
    ]);
    let encoded = tree.encode();
    let expected = JsonValue::Array(vec![
        JsonValue::Text("and".to_string()),
        JsonValue::Array(vec![
            JsonValue::Text("lang".to_string()),
            JsonValue::Text("=".to_string()),
            JsonValue::Text("en".to_string()),
        ]),
    ]);
    assert_eq!(encoded, expected);
    let back = FilterItem::decode(&encoded).unwrap();
    assert_eq!(back, tree);
}

#[test]
fn round_trip_empty_list() {
    let tree = FilterItem::V(Vec::new());
    let back = FilterItem::decode(&tree.encode()).unwrap();
    assert_eq!(back, tree);
}

#[test]
fn decode_rejects_number() {
    let r = FilterItem::decode(&JsonValue::Number("3".to_string()));
    assert_eq!(r, Err(DecodeError::NotStringOrArray));
}

#[test]
fn decode_rejects_boolean() {
    let r = FilterItem::decode(&JsonValue::Bool(true));
    assert_eq!(r, Err(DecodeError::NotStringOrArray));
}

#[test]
fn decode_rejects_null() {
    let r = FilterItem::decode(&JsonValue::Null);
    assert_eq!(r, Err(DecodeError::NotStringOrArray));
}

#[test]
fn decode_rejects_object() {
    let obj = JsonValue::Object(vec![("a".to_string(), JsonValue::Null)]);
    let r = FilterItem::decode(&obj);
    assert_eq!(r, Err(DecodeError::NotStringOrArray));
}

#[test]
fn decode_rejects_scalar_at_nested_position() {
    let bad = JsonValue::Array(vec![
        JsonValue::Text("lang".to_string()),
        JsonValue::Array(vec![JsonValue::Text("=".to_string()), JsonValue::Null]),
    ]);
    let r = FilterItem::decode(&bad);
    assert_eq!(r, Err(DecodeError::NotStringOrArray));
}

#[test]
fn from_json_rejects_wire_scalars() {
    assert_eq!(
        FilterItem::from_json(serde_json::Value::Bool(false)),
        Err(DecodeError::NotStringOrArray)
    );
    assert_eq!(
        FilterItem::from_json(serde_json::Value::Null),
        Err(DecodeError::NotStringOrArray)
    );
    let num: serde_json::Value = serde_json::Value::Number(serde_json::Number::from(7u64));
    assert_eq!(FilterItem::from_json(num), Err(DecodeError::NotStringOrArray));
}

#[test]
fn structural_equality_distinguishes_order_and_variant() {
    let a = FilterItem::V(vec![atom("a"), atom("b")]);
    let b = FilterItem::V(vec![atom("b"), atom("a")]);
    assert_ne!(a, b);
    assert_ne!(atom("a"), FilterItem::V(vec![atom("a")]));
    assert_eq!(a, FilterItem::V(vec![atom("a"), atom("b")]));
}

#[test]
fn clone_is_structurally_equal() {
    let tree = FilterItem::V(vec![
        atom("and"),
        FilterItem::V(vec![atom("lang"), atom("="), atom("en")]),
    ]);
    assert_eq!(tree.clone(), tree);
}

#[test]
fn numeric_and_boolean_atoms_are_stringified() {
    assert_eq!(FilterItem::from_u64(2020), atom("2020"));
    assert_eq!(FilterItem::from_u64(0), atom("0"));
    assert_eq!(FilterItem::from_bool(true), atom("true"));
    assert_eq!(FilterItem::from_bool(false), atom("false"));
}

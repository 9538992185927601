use vndb::FilterItem;
use vndb::JsonValue;
use vndb::QueryFormat;
use vndb::ResponseError;
use vndb::ResponseFormat;

fn entries_of(v: &JsonValue) -> &Vec<(String, JsonValue)> {
    match v {
        JsonValue::Object(entries) => entries,
        _ => panic!("expected a JSON object"),
    }
}

fn lookup<'a>(v: &'a JsonValue, key: &str) -> Option<&'a JsonValue> {
    entries_of(v)
        .iter()
        .find(|(k, _)| k == key)
        .map(|(_, val)| val)
}

#[test]
fn builder_defaults() {
    let q = QueryFormat::builder().build();
    assert_eq!(q.sort, "id");
    assert_eq!(q.results, 10);
    assert_eq!(q.page, 1);
    assert!(!q.reverse);
    assert_eq!(q.fields, "");
    assert!(q.filters.is_empty());
    assert!(q.user.is_none());
    assert!(!q.count);
    assert!(!q.compact_filters);
    assert!(!q.normalized_filters);
}

#[test]
fn builder_setters_chain() {
    let q = QueryFormat::builder()
        .filters(vec![FilterItem::S("x".to_string())])
        .fields("title, image.url".to_string())
        .sort("vote".to_string())
        .reverse()
        .results(3)
        .page(2)
        .user("u2".to_string())
        .count()
        .compact_filters()
        .normalized_filters()
        .build();
    assert_eq!(q.filters, vec![FilterItem::S("x".to_string())]);
    assert_eq!(q.fields, "title, image.url");
    assert_eq!(q.sort, "vote");
    assert!(q.reverse);
    assert_eq!(q.results, 3);
    assert_eq!(q.page, 2);
    assert_eq!(q.user, Some("u2".to_string()));
    assert!(q.count);
    assert!(q.compact_filters);
    assert!(q.normalized_filters);
}

#[test]
fn envelope_omits_absent_user() {
    let q = QueryFormat::builder().build();
    let json = q.to_json();
    assert!(lookup(&json, "user").is_none());
    assert_eq!(entries_of(&json).len(), 9);
}

#[test]
fn envelope_carries_present_user() {
    let q = QueryFormat::builder().user("u2".to_string()).build();
    let json = q.to_json();
    assert_eq!(lookup(&json, "user"), Some(&JsonValue::Text("u2".to_string())));
    assert_eq!(entries_of(&json).len(), 10);
}

#[test]
fn envelope_wire_shape() {
    let q = QueryFormat::builder()
        .filters(vec![
            FilterItem::S("lang".to_string()),
            FilterItem::S("=".to_string()),
            FilterItem::S("en".to_string()),
        ])
        .results(1234567890)
        .build();
    let json = q.to_json();
    let expected = JsonValue::Object(vec![
        (
            "filters".to_string(),
            JsonValue::Array(vec![
                JsonValue::Text("lang".to_string()),
                JsonValue::Text("=".to_string()),
                JsonValue::Text("en".to_string()),
            ]),
        ),
        ("fields".to_string(), JsonValue::Text("".to_string())),
        ("sort".to_string(), JsonValue::Text("id".to_string())),
        ("reverse".to_string(), JsonValue::Bool(false)),
        ("results".to_string(), JsonValue::Number("1234567890".to_string())),
        ("page".to_string(), JsonValue::Number("1".to_string())),
        ("count".to_string(), JsonValue::Bool(false)),
        ("compact_filters".to_string(), JsonValue::Bool(false)),
        ("normalized_filters".to_string(), JsonValue::Bool(false)),
    ]);
    assert_eq!(json, expected);
}

#[test]
fn envelope_renders_zero_results() {
    let q = QueryFormat::builder().results(0).build();
    let json = q.to_json();
    assert_eq!(lookup(&json, "results"), Some(&JsonValue::Number("0".to_string())));
}

#[test]
fn response_decodes_full_reply() {
    let reply = JsonValue::Object(vec![
        ("results".to_string(), JsonValue::Array(vec![JsonValue::Null])),
        ("more".to_string(), JsonValue::Bool(true)),
        ("count".to_string(), JsonValue::Number("42".to_string())),
        ("compact_filters".to_string(), JsonValue::Text("olang!=ja".to_string())),
        (
            "normalized_filters".to_string(),
            JsonValue::Array(vec![
                JsonValue::Text("olang".to_string()),
                JsonValue::Text("!=".to_string()),
                JsonValue::Text("ja".to_string()),
            ]),
        ),
    ]);
    let resp = ResponseFormat::decode(&reply).unwrap();
    assert_eq!(resp.results, JsonValue::Array(vec![JsonValue::Null]));
    assert!(resp.more);
    assert_eq!(resp.count, Some(42));
    assert_eq!(resp.compact_filters, Some("olang!=ja".to_string()));
    assert_eq!(
        resp.normalized_filters,
        Some(vec![
            FilterItem::S("olang".to_string()),
            FilterItem::S("!=".to_string()),
            FilterItem::S("ja".to_string()),
        ])
    );
}

#[test]
fn response_defaults_absent_options() {
    let reply = JsonValue::Object(vec![
        ("results".to_string(), JsonValue::Null),
        ("more".to_string(), JsonValue::Bool(false)),
    ]);
    let resp = ResponseFormat::decode(&reply).unwrap();
    assert_eq!(resp.count, None);
    assert_eq!(resp.compact_filters, None);
    assert_eq!(resp.normalized_filters, None);
    assert!(!resp.more);
}

#[test]
fn response_rejects_missing_more() {
    let reply = JsonValue::Object(vec![("results".to_string(), JsonValue::Null)]);
    assert_eq!(ResponseFormat::decode(&reply), Err(ResponseError::Malformed));
}

#[test]
fn response_rejects_non_object() {
    assert_eq!(
        ResponseFormat::decode(&JsonValue::Text("nope".to_string())),
        Err(ResponseError::Malformed)
    );
}

#[test]
fn response_rejects_bad_count() {
    let base = |count: JsonValue| {
        JsonValue::Object(vec![
            ("results".to_string(), JsonValue::Null),
            ("more".to_string(), JsonValue::Bool(false)),
            ("count".to_string(), count),
        ])
    };
    let not_numeral = base(JsonValue::Number("-3".to_string()));
    assert_eq!(ResponseFormat::decode(&not_numeral), Err(ResponseError::Malformed));
    let too_big = base(JsonValue::Number("99999999999999999999999999".to_string()));
    assert_eq!(ResponseFormat::decode(&too_big), Err(ResponseError::Malformed));
    let wrong_type = base(JsonValue::Text("42".to_string()));
    assert_eq!(ResponseFormat::decode(&wrong_type), Err(ResponseError::Malformed));
}

#[test]
fn response_rejects_bad_normalized_filters() {
    let reply = JsonValue::Object(vec![
        ("results".to_string(), JsonValue::Null),
        ("more".to_string(), JsonValue::Bool(false)),
        (
            "normalized_filters".to_string(),
            JsonValue::Array(vec![JsonValue::Bool(true)]),
        ),
    ]);
    assert_eq!(ResponseFormat::decode(&reply), Err(ResponseError::Malformed));
}

#[test]
fn response_from_wire_value() {
    let reply = serde_json::Value::Object(
        vec![
            (
                "results".to_string(),
                serde_json::Value::Array(vec![serde_json::Value::String("r1".to_string())]),
            ),
            ("more".to_string(), serde_json::Value::Bool(true)),
            (
                "count".to_string(),
                serde_json::Value::Number(serde_json::Number::from(7u64)),
            ),
        ]
        .into_iter()
        .collect(),
    );
    let resp = ResponseFormat::from_json(reply).unwrap();
    assert!(resp.more);
    assert_eq!(resp.count, Some(7));
    assert_eq!(
        resp.results,
        JsonValue::Array(vec![JsonValue::Text("r1".to_string())])
    );
}

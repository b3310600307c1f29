use mock_server::config::{Config, ContentType, RawApi, API};
use mock_server::json::JsonValue;
use mock_server::method::Method;
use mock_server::response::{dispatch, list_routes, SynthesisError};

fn raw_with_body(path: &str, content_type: Option<&str>, body: Option<JsonValue>) -> RawApi {
    RawApi {
        path: path.to_string(),
        method: Some("GET".to_string()),
        content_type: content_type.map(|c| c.to_string()),
        status: None,
        headers: vec![],
        body,
    }
}

fn header<'a>(headers: &'a [(String, String)], name: &str) -> Option<&'a str> {
    headers
        .iter()
        .find(|(k, _)| k.as_str() == name)
        .map(|(_, v)| v.as_str())
}

#[test]
fn raw_round_trip() {
    let text = JsonValue::Text("hello \"quoted\"\n".to_string());
    let expected = text.to_text();
    let api = API::compile(raw_with_body("/x", Some("raw"), Some(text))).unwrap();
    let p = api.synthesize().unwrap();
    assert_eq!(p.body, expected);
    assert_eq!(p.body, "\"hello \\\"quoted\\\"\\n\"");
    // RAW forces no content-type header.
    assert!(header(&p.headers, "Content-Type").is_none());
}

#[test]
fn form_encoding() {
    let body = JsonValue::Object(vec![
        ("a".to_string(), JsonValue::Text("1".to_string())),
        ("b".to_string(), JsonValue::Text("2".to_string())),
    ]);
    let api = API::compile(raw_with_body("/x", Some("form"), Some(body))).unwrap();
    let p = api.synthesize().unwrap();
    assert_eq!(p.body, "a=1&b=2");
    assert_eq!(
        header(&p.headers, "Content-Type"),
        Some("application/x-www-form-urlencoded")
    );
}

#[test]
fn form_percent_encoding() {
    let body = JsonValue::Object(vec![
        ("q".to_string(), JsonValue::Text("a b&c".to_string())),
        ("u".to_string(), JsonValue::Text("é".to_string())),
        ("n".to_string(), JsonValue::Number("3.5".to_string())),
        ("t".to_string(), JsonValue::Bool(true)),
    ]);
    let api = API::compile(raw_with_body("/x", Some("form"), Some(body))).unwrap();
    let p = api.synthesize().unwrap();
    assert_eq!(p.body, "q=a+b%26c&u=%C3%A9&n=3.5&t=true");
}

#[test]
fn form_rejects_non_object() {
    let api = API::compile(raw_with_body(
        "/x",
        Some("form"),
        Some(JsonValue::Text("nope".to_string())),
    ))
    .unwrap();
    assert_eq!(api.synthesize(), Err(SynthesisError::BodyNotEncodable));
}

#[test]
fn form_rejects_nested_values() {
    let nested = JsonValue::Object(vec![(
        "outer".to_string(),
        JsonValue::Object(vec![("inner".to_string(), JsonValue::Bool(true))]),
    )]);
    let api = API::compile(raw_with_body("/x", Some("form"), Some(nested))).unwrap();
    assert_eq!(api.synthesize(), Err(SynthesisError::BodyNotEncodable));
}

#[test]
fn default_content_type_is_json() {
    let body = JsonValue::Object(vec![("ok".to_string(), JsonValue::Bool(true))]);
    let api = API::compile(raw_with_body("/x", None, Some(body))).unwrap();
    assert_eq!(api.content_type, ContentType::JSON);
    let p = api.synthesize().unwrap();
    assert_eq!(p.body, "{\"ok\":true}");
    assert_eq!(header(&p.headers, "Content-Type"), Some("application/json"));
}

#[test]
fn unknown_content_type_is_kept_and_encodes_as_json() {
    let api = API::compile(raw_with_body(
        "/x",
        Some("avro"),
        Some(JsonValue::Null),
    ))
    .unwrap();
    assert_eq!(api.content_type, ContentType::Other("avro".to_string()));
    let p = api.synthesize().unwrap();
    assert_eq!(p.body, "null");
    assert_eq!(header(&p.headers, "Content-Type"), Some("application/json"));
}

#[test]
fn json_tree_text_is_exact() {
    let tree = JsonValue::Object(vec![
        ("list".to_string(), JsonValue::Array(vec![
            JsonValue::Number("1".to_string()),
            JsonValue::Null,
            JsonValue::Bool(false),
        ])),
        ("s".to_string(), JsonValue::Text("tab\there".to_string())),
        ("ctl".to_string(), JsonValue::Text("\u{1}".to_string())),
    ]);
    assert_eq!(
        tree.to_text(),
        "{\"list\":[1,null,false],\"s\":\"tab\\there\",\"ctl\":\"\\u0001\"}"
    );
}

#[test]
fn absent_body_is_empty() {
    let api = API::compile(raw_with_body("/x", None, None)).unwrap();
    let p = api.synthesize().unwrap();
    assert_eq!(p.status, 200);
    assert_eq!(p.body, "");
    assert!(p.headers.is_empty());
}

#[test]
fn invalid_status_is_a_synthesis_failure() {
    let mut raw = raw_with_body("/x", None, None);
    raw.status = Some(99);
    let api = API::compile(raw).unwrap();
    assert_eq!(api.synthesize(), Err(SynthesisError::InvalidStatus));
    let mut raw_high = raw_with_body("/x", None, None);
    raw_high.status = Some(1000);
    let api_high = API::compile(raw_high).unwrap();
    assert_eq!(api_high.synthesize(), Err(SynthesisError::InvalidStatus));
}

#[test]
fn declared_headers_are_applied() {
    let mut raw = raw_with_body("/x", None, Some(JsonValue::Null));
    raw.headers = vec![
        ("X-One".to_string(), "a".to_string()),
        ("X-Two".to_string(), "b".to_string()),
    ];
    let api = API::compile(raw).unwrap();
    let p = api.synthesize().unwrap();
    assert_eq!(header(&p.headers, "X-One"), Some("a"));
    assert_eq!(header(&p.headers, "X-Two"), Some("b"));
}

#[test]
fn repeated_header_keeps_last_value() {
    let mut raw = raw_with_body("/x", None, None);
    raw.headers = vec![
        ("X-A".to_string(), "1".to_string()),
        ("X-B".to_string(), "keep".to_string()),
        ("X-A".to_string(), "2".to_string()),
    ];
    let api = API::compile(raw).unwrap();
    assert_eq!(api.headers.len(), 2);
    assert_eq!(header(&api.headers, "X-A"), Some("2"));
    assert_eq!(header(&api.headers, "X-B"), Some("keep"));
}

#[test]
fn end_to_end_scenario() {
    let conf = Config::from_raw(vec![RawApi {
        path: r"/api/test/\d+$".to_string(),
        method: Some("GET".to_string()),
        content_type: None,
        status: Some(200),
        headers: vec![],
        body: Some(JsonValue::Object(vec![(
            "ok".to_string(),
            JsonValue::Bool(true),
        )])),
    }])
    .unwrap();
    let hit = dispatch(&conf, "/api/test/123", Method::GET);
    assert_eq!(hit.status, 200);
    assert_eq!(hit.body, "{\"ok\":true}");
    let miss = dispatch(&conf, "/api/test/abc", Method::GET);
    assert_eq!(miss.status, 404);
    assert_eq!(
        miss.body,
        "/api/test/abc not found, pls check it in config.yaml"
    );
}

#[test]
fn dispatch_turns_synthesis_failure_into_server_error() {
    let conf = Config::from_raw(vec![RawApi {
        path: "/broken".to_string(),
        method: Some("GET".to_string()),
        content_type: None,
        status: Some(9999),
        headers: vec![],
        body: None,
    }])
    .unwrap();
    let p = dispatch(&conf, "/broken", Method::GET);
    assert_eq!(p.status, 500);
    assert_eq!(p.body, "synthesis failed for route /broken");
}

#[test]
fn list_routes_lines() {
    let conf = Config::from_raw(vec![
        RawApi {
            path: "/api/a".to_string(),
            method: Some("GET".to_string()),
            content_type: None,
            status: None,
            headers: vec![],
            body: None,
        },
        RawApi {
            path: "/api/b".to_string(),
            method: Some("post".to_string()),
            content_type: None,
            status: None,
            headers: vec![],
            body: None,
        },
    ])
    .unwrap();
    assert_eq!(list_routes(&conf), "GET /mock/api/a\nPOST /mock/api/b\n");
}

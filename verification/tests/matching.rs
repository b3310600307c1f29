use mock_server::config::{Config, RawApi, API};
use mock_server::method::Method;

fn raw(path: &str, method: Option<&str>) -> RawApi {
    RawApi {
        path: path.to_string(),
        method: method.map(|m| m.to_string()),
        content_type: None,
        status: None,
        headers: vec![],
        body: None,
    }
}

#[test]
fn match_reg() {
    let api = API::compile(RawApi {
        path: r"/api/test/\d+$".to_string(),
        method: Some("GET".to_string()),
        content_type: Some("form".to_string()),
        status: Some(200),
        headers: vec![],
        body: None,
    })
    .unwrap();
    assert!(api.match_path("/api/test/123"));
}

#[test]
fn substring_match_semantics() {
    // The pattern matches anywhere within the path unless anchored.
    let api = API::compile(raw("/a", Some("GET"))).unwrap();
    assert!(api.match_path("/a"));
    assert!(api.match_path("/ab"));
    assert!(api.match_path("/x/a"));
    let anchored = API::compile(raw("^/a$", Some("GET"))).unwrap();
    assert!(anchored.match_path("/a"));
    assert!(!anchored.match_path("/ab"));
}

#[test]
fn first_match_precedence() {
    let conf = Config::from_raw(vec![
        raw("/api/.*", Some("GET")),
        raw("/api/users", Some("GET")),
    ])
    .unwrap();
    let hit = conf.find_api("/api/users", Method::GET).unwrap();
    assert_eq!(hit.path, "/api/.*");
}

#[test]
fn find_is_deterministic() {
    let conf = Config::from_raw(vec![
        raw("/api/a", Some("GET")),
        raw("/api/.*", Some("GET")),
    ])
    .unwrap();
    let first = conf.find_api("/api/a", Method::GET).unwrap().path.clone();
    let second = conf.find_api("/api/a", Method::GET).unwrap().path.clone();
    assert_eq!(first, second);
    assert_eq!(first, "/api/a");
}

#[test]
fn method_exactness() {
    let conf = Config::from_raw(vec![raw("/api/thing", Some("GET"))]).unwrap();
    assert!(conf.find_api("/api/thing", Method::GET).is_some());
    assert!(conf.find_api("/api/thing", Method::POST).is_none());
    let posts = Config::from_raw(vec![raw("/api/thing", Some("POST"))]).unwrap();
    assert!(posts.find_api("/api/thing", Method::POST).is_some());
    assert!(posts.find_api("/api/thing", Method::GET).is_none());
}

#[test]
fn empty_table_never_matches() {
    let conf = Config::empty();
    assert!(conf.find_api("/", Method::GET).is_none());
    assert!(conf.find_api("/api/test/123", Method::POST).is_none());
    assert!(conf.find_api("", Method::DELETE).is_none());
}

#[test]
fn method_parse_case_insensitive() {
    assert_eq!(Method::parse("get"), Some(Method::GET));
    assert_eq!(Method::parse("GET"), Some(Method::GET));
    assert_eq!(Method::parse("Post"), Some(Method::POST));
    assert_eq!(Method::parse("delete"), Some(Method::DELETE));
    assert_eq!(Method::parse("FROB"), None);
    assert_eq!(Method::parse(""), None);
}

#[test]
fn method_defaults_to_get() {
    let api = API::compile(raw("/x", None)).unwrap();
    assert_eq!(api.method, Method::GET);
}

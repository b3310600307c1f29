use mock_server::cli::Cli;
use mock_server::config::{default_status, CompileError, Config, ContentType, RawApi, API};

fn plain(path: &str) -> RawApi {
    RawApi {
        path: path.to_string(),
        method: None,
        content_type: None,
        status: None,
        headers: vec![],
        body: None,
    }
}

#[test]
fn from_raw_defaults() {
    let conf = Config::from_raw(vec![RawApi {
        path: r"/api/test/\d+$".to_string(),
        method: Some("POST".to_string()),
        content_type: None,
        status: None,
        headers: vec![],
        body: None,
    }])
    .unwrap();
    assert_eq!(conf.apis.len(), 1);
    assert_eq!(conf.apis[0].content_type, ContentType::JSON);
    assert_eq!(conf.apis[0].status, 200);
}

#[test]
fn load_is_atomic() {
    // One valid and one invalid definition: the whole table is rejected,
    // and the caller falls back to the empty table.
    let r = Config::from_raw(vec![plain("/api/good"), plain("")]);
    assert_eq!(r.err(), Some(CompileError::InvalidPattern));
    let fallback = Config::empty();
    assert_eq!(fallback.apis.len(), 0);
}

#[test]
fn empty_path_is_invalid_pattern() {
    assert_eq!(API::compile(plain("")).err(), Some(CompileError::InvalidPattern));
}

#[test]
fn malformed_pattern_is_invalid_pattern() {
    assert_eq!(
        API::compile(plain("(unclosed")).err(),
        Some(CompileError::InvalidPattern)
    );
}

#[test]
fn unknown_method_is_invalid_method() {
    let mut raw = plain("/x");
    raw.method = Some("FROB".to_string());
    assert_eq!(API::compile(raw).err(), Some(CompileError::InvalidMethod));
}

#[test]
fn first_error_wins() {
    // A bad pattern before a bad method: the reported error is the first's.
    let mut bad_method = plain("/y");
    bad_method.method = Some("NOPE".to_string());
    let r = Config::from_raw(vec![plain("("), bad_method]);
    assert_eq!(r.err(), Some(CompileError::InvalidPattern));
}

#[test]
fn default_status_is_200() {
    assert_eq!(default_status(), 200);
}

#[test]
fn cli_defaults() {
    let cli = Cli::default();
    assert_eq!(cli.work_dir, ".");
    assert!(!cli.up_file);
    assert_eq!(cli.port, 8080);
    assert!(!cli.verbose);
    assert_eq!(cli.static_prefix, "static");
}

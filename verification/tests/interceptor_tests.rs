use access_filter::interceptor::LogLine;
use access_filter::interceptor::Logger;
use access_filter::resolve::RequestInfo;
use access_filter::resolve::ResponseInfo;
use access_filter::Severity;

fn request(path: &str, query: &str) -> RequestInfo {
    RequestInfo {
        method: "GET".to_string(),
        path: path.to_string(),
        query: query.to_string(),
        version: "HTTP/1.1".to_string(),
        headers: Vec::new(),
        peer_addr: Some("127.0.0.1:9000".to_string()),
        real_ip: Some("10.0.0.7".to_string()),
    }
}

fn response(status: u16) -> ResponseInfo {
    ResponseInfo { status, headers: Vec::new() }
}

fn no_env() -> Vec<(String, String)> {
    Vec::new()
}

/// Runs one request through the whole lifecycle and returns what the sink
/// would receive.
fn run_request(
    logger: &Logger,
    req: RequestInfo,
    resp: ResponseInfo,
    chunks: &[usize],
) -> Option<LogLine> {
    let pending = logger.begin_request(&req, 1_000_000_000, &no_env());
    let mut stream = pending.on_response(&resp);
    for &c in chunks {
        stream.on_chunk(c);
    }
    stream.finish(2_000_000_000)
}

#[test]
fn round_trip_status_and_size() {
    let logger = Logger::new("%s %b");
    let line = run_request(&logger, request("/hello", ""), response(200), &[4]).unwrap();
    assert_eq!(line.message, "Access 200 4B");
    assert_eq!(line.severity, Severity::Info);
    assert_eq!(line.target, "access_filter");
}

#[test]
fn size_is_sum_of_chunks() {
    let logger = Logger::new("%b");
    let line = run_request(&logger, request("/x", ""), response(200), &[3, 5, 0]).unwrap();
    assert_eq!(line.message, "Access 8B");
}

#[test]
fn zero_length_body_counts_zero() {
    let logger = Logger::new("%b");
    let line = run_request(&logger, request("/x", ""), response(200), &[]).unwrap();
    assert_eq!(line.message, "Access 0B");
}

#[test]
fn request_line_without_query() {
    let logger = Logger::new("\"%r\"");
    let line = run_request(&logger, request("/index", ""), response(200), &[]).unwrap();
    assert_eq!(line.message, "Access \"GET /index HTTP/1.1\"");
}

#[test]
fn request_line_with_query() {
    let logger = Logger::new("%r");
    let line = run_request(&logger, request("/find", "q=1"), response(200), &[]).unwrap();
    assert_eq!(line.message, "Access GET /find?q=1 HTTP/1.1");
}

#[test]
fn url_path_renders_alone() {
    let logger = Logger::new("%U");
    let line = run_request(&logger, request("/a/b", "ignored=1"), response(200), &[]).unwrap();
    assert_eq!(line.message, "Access /a/b");
}

#[test]
fn elapsed_seconds_renders_with_microsecond_precision() {
    let logger = Logger::new("%T");
    let pending = logger.begin_request(&request("/x", ""), 1_000_000_000, &no_env());
    let mut stream = pending.on_response(&response(200));
    let line = stream.finish(2_500_000_000).unwrap();
    assert_eq!(line.message, "Access 1.500000s");
}

#[test]
fn elapsed_never_negative_when_clock_steps_back() {
    let logger = Logger::new("%T");
    let pending = logger.begin_request(&request("/x", ""), 5_000_000_000, &no_env());
    let mut stream = pending.on_response(&response(200));
    let line = stream.finish(1_000_000_000).unwrap();
    assert_eq!(line.message, "Access 0.000000s");
}

#[test]
fn compact_duration_renders_through_formatter() {
    let logger = Logger::new("%D");
    let pending = logger.begin_request(&request("/x", ""), 0, &no_env());
    let mut stream = pending.on_response(&response(200));
    let line = stream.finish(90_000_000_000).unwrap();
    assert_eq!(line.message, "Access 1m 30s");
}

#[test]
fn request_timestamp_renders_rfc3339() {
    let logger = Logger::new("%t");
    let pending = logger.begin_request(&request("/x", ""), 0, &no_env());
    let mut stream = pending.on_response(&response(200));
    let line = stream.finish(0).unwrap();
    assert_eq!(line.message, "Access 1970-01-01T00:00:00Z");
}

#[test]
fn remote_addresses_render() {
    let logger = Logger::new("%a %{r}a");
    let line = run_request(&logger, request("/x", ""), response(200), &[]).unwrap();
    assert_eq!(line.message, "Access 127.0.0.1:9000 10.0.0.7");
}

#[test]
fn missing_addresses_render_dash() {
    let logger = Logger::new("%a %{r}a");
    let mut req = request("/x", "");
    req.peer_addr = None;
    req.real_ip = None;
    let line = run_request(&logger, req, response(200), &[]).unwrap();
    assert_eq!(line.message, "Access - -");
}

#[test]
fn request_header_lookup_ignores_ascii_case() {
    let logger = Logger::new("%{User-Agent}i");
    let mut req = request("/x", "");
    req.headers = vec![("user-agent".to_string(), "curl/8".to_string())];
    let line = run_request(&logger, req, response(200), &[]).unwrap();
    assert_eq!(line.message, "Access curl/8");
}

#[test]
fn missing_request_header_renders_dash() {
    let logger = Logger::new("%{Referer}i");
    let line = run_request(&logger, request("/x", ""), response(200), &[]).unwrap();
    assert_eq!(line.message, "Access -");
}

#[test]
fn response_header_renders() {
    let logger = Logger::new("%{Content-Type}o");
    let resp = ResponseInfo {
        status: 200,
        headers: vec![("content-type".to_string(), "text/html".to_string())],
    };
    let line = run_request(&logger, request("/x", ""), resp, &[]).unwrap();
    assert_eq!(line.message, "Access text/html");
}

#[test]
fn environment_variable_renders_from_snapshot() {
    let logger = Logger::new("%{APP_MODE}e");
    let env = vec![("APP_MODE".to_string(), "prod".to_string())];
    let pending = logger.begin_request(&request("/x", ""), 0, &env);
    let mut stream = pending.on_response(&response(200));
    let line = stream.finish(0).unwrap();
    assert_eq!(line.message, "Access prod");
}

#[test]
fn missing_environment_variable_renders_dash() {
    let logger = Logger::new("%{NO_SUCH_NAME}e");
    let line = run_request(&logger, request("/x", ""), response(200), &[]).unwrap();
    assert_eq!(line.message, "Access -");
}

#[test]
fn severity_routes_by_status() {
    let logger = Logger::new("%s");
    for (status, severity) in [
        (200u16, Severity::Info),
        (404, Severity::Info),
        (500, Severity::Error),
        (503, Severity::Error),
    ] {
        let line = run_request(&logger, request("/x", ""), response(status), &[]).unwrap();
        assert_eq!(line.severity, severity, "status {}", status);
        assert_eq!(line.message, format!("Access {}", status));
    }
}

#[test]
fn excluded_path_emits_nothing() {
    let logger = Logger::new("%s").exclude("/favicon.ico");
    assert!(logger.is_excluded("/favicon.ico"));
    assert!(!logger.is_excluded("/index"));
    let spy = run_request(&logger, request("/favicon.ico", ""), response(200), &[7]);
    assert!(spy.is_none());
}

#[test]
fn excluded_path_captures_no_timestamp() {
    let logger = Logger::new("%s").exclude("/skip");
    let pending = logger.begin_request(&request("/skip", ""), 123, &no_env());
    assert!(pending.format.is_none());
    assert_eq!(pending.start_nanos, 0);
}

#[test]
fn excluded_by_pattern_emits_nothing() {
    let logger = Logger::new("%s").exclude_regex("^/static");
    assert!(logger.is_excluded("/static/app.css"));
    assert!(!logger.is_excluded("/app"));
    let spy = run_request(&logger, request("/static/app.css", ""), response(200), &[1]);
    assert!(spy.is_none());
}

#[test]
fn invalid_pattern_is_reported_and_changes_nothing() {
    let logger = Logger::new("%s");
    let (logger, ok) = logger.try_exclude_regex("(");
    assert!(!ok);
    assert!(!logger.is_excluded("("));
}

#[test]
fn empty_filter_excludes_nothing() {
    let logger = Logger::new("%s");
    assert!(!logger.is_excluded("/anything"));
    assert!(!logger.is_excluded(""));
}

#[test]
fn tracked_request_logs_exactly_once() {
    let logger = Logger::new("%s %b");
    let pending = logger.begin_request(&request("/x", ""), 0, &no_env());
    let mut stream = pending.on_response(&response(200));
    stream.on_chunk(2);
    // Both finalization triggers fire on the same request: the stream runs
    // dry, and the wrapper is discarded afterwards.
    let first = stream.finish(10);
    let second = stream.finish(20);
    assert!(first.is_some());
    assert!(second.is_none());
}

#[test]
fn partially_consumed_then_abandoned_still_logs_once() {
    let logger = Logger::new("%b");
    let pending = logger.begin_request(&request("/x", ""), 0, &no_env());
    let mut stream = pending.on_response(&response(200));
    stream.on_chunk(5);
    // The client disconnects mid-stream; release triggers finalization.
    let line = stream.finish(10).unwrap();
    assert_eq!(line.message, "Access 5B");
    assert!(stream.finish(99).is_none());
}

#[test]
fn unbound_custom_fields_render_dash_and_warn_once() {
    let logger = Logger::new("%{one}xi %{two}xo");
    // Startup: the warnings are owed once, at construction.
    let warnings = logger.startup_warnings();
    assert_eq!(
        warnings,
        vec![
            "No custom request replacement function was registered for label: one".to_string(),
            "No custom response replacement function was registered for label: two".to_string(),
        ]
    );
    // Many requests flow; each renders the placeholder, and no further
    // warning is owed anywhere in the per-request path.
    for _ in 0..2 {
        let line = run_request(&logger, request("/x", ""), response(200), &[]).unwrap();
        assert_eq!(line.message, "Access - -");
    }
}

#[test]
fn error_response_still_logs_with_status() {
    let logger = Logger::new("%s %b");
    let line = run_request(&logger, request("/boom", ""), response(500), &[0]).unwrap();
    assert_eq!(line.severity, Severity::Error);
    assert_eq!(line.message, "Access 500 0B");
}

#[test]
fn try_new_rejects_bad_address_key() {
    assert!(Logger::try_new("%{x}a").is_err());
    assert!(Logger::try_new("%{r}a").is_ok());
}

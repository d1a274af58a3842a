use oyster::http_parser::build_request;
use oyster::http_parser::match_method;
use oyster::http_parser::next_token;
use oyster::http_parser::parse_header_line;
use oyster::http_parser::parse_headers;
use oyster::http_parser::parse_hostname;
use oyster::http_parser::parse_http_version;
use oyster::http_parser::parse_method;
use oyster::http_parser::parse_request;
use oyster::http_parser::parse_top_line;
use oyster::http_parser::split_line;
use oyster::http_parser::HTTPVersion;
use oyster::http_parser::Method;
use oyster::http_parser::ParseError;

fn padded(request: &str) -> String {
    let mut text = String::from(request);
    while text.len() < 1024 {
        text.push('\0');
    }
    text
}

#[test]
fn parses_a_well_formed_request() {
    let request = parse_request("GET /hi HTTP/1.1\r\nHost: localhost:3000\r\n\r\n").unwrap();
    assert_eq!(request.method, Method::Get);
    assert_eq!(request.path, "/hi");
    assert_eq!(request.http_version, HTTPVersion::OnePointOne);
    assert_eq!(request.hostname, "localhost");
    assert_eq!(request.headers.len(), 1);
    assert_eq!(request.headers.get("host").unwrap(), "localhost:3000");
}

#[test]
fn parses_a_request_in_a_padded_window() {
    let text = padded("GET /hi HTTP/1.1\r\nHost: localhost:3000\r\nAccept: */*\r\n\r\n");
    let request = parse_request(&text).unwrap();
    assert_eq!(request.path, "/hi");
    assert_eq!(request.hostname, "localhost");
    assert_eq!(request.headers.len(), 2);
    assert_eq!(request.headers.get("accept").unwrap(), "*/*");
}

#[test]
fn parsing_twice_gives_equal_results() {
    let text = "GET /a HTTP/1.1\r\nHost: h:1\r\nX-One: 1\r\n\r\n";
    let first = parse_request(text).unwrap();
    let second = parse_request(text).unwrap();
    assert_eq!(first.method, second.method);
    assert_eq!(first.path, second.path);
    assert_eq!(first.http_version, second.http_version);
    assert_eq!(first.hostname, second.hostname);
    assert_eq!(first.headers.len(), second.headers.len());
    assert_eq!(first.headers.get("host"), second.headers.get("host"));
    assert_eq!(first.headers.get("x-one"), second.headers.get("x-one"));
    assert_eq!(parse_request("PUT / HTTP/1.1").err(), parse_request("PUT / HTTP/1.1").err());
}

#[test]
fn empty_request_misses_its_top_line() {
    assert_eq!(parse_request("").err(), Some(ParseError::MissingTopLine));
}

#[test]
fn other_method_is_invalid() {
    assert_eq!(
        parse_request("POST /hi HTTP/1.1\r\nHost: localhost:3000\r\n\r\n").err(),
        Some(ParseError::InvalidMethod)
    );
    assert_eq!(parse_request("\r\nHost: a:1\r\n").err(), Some(ParseError::InvalidMethod));
}

#[test]
fn method_without_path_has_no_path() {
    assert_eq!(parse_request("GET\r\nHost: localhost:3000\r\n\r\n").err(), Some(ParseError::NoPath));
}

#[test]
fn other_version_is_invalid() {
    assert_eq!(
        parse_request("GET /hi HTTP/1.0\r\nHost: localhost:3000\r\n\r\n").err(),
        Some(ParseError::InvalidHTTPVersion)
    );
    assert_eq!(
        parse_request("GET /hi\r\nHost: localhost:3000\r\n\r\n").err(),
        Some(ParseError::InvalidHTTPVersion)
    );
}

#[test]
fn request_without_host_misses_its_top_line() {
    assert_eq!(
        parse_request("GET /hi HTTP/1.1\r\nAccept: */*\r\n\r\n").err(),
        Some(ParseError::MissingTopLine)
    );
    assert_eq!(parse_request("GET /hi HTTP/1.1").err(), Some(ParseError::MissingTopLine));
}

#[test]
fn top_line_errors_come_before_the_missing_host() {
    assert_eq!(parse_request("POST /hi HTTP/1.1\r\n\r\n").err(), Some(ParseError::InvalidMethod));
    assert_eq!(parse_request("GET /hi HTTP/2\r\n\r\n").err(), Some(ParseError::InvalidHTTPVersion));
}

#[test]
fn method_is_read_in_any_case() {
    assert_eq!(parse_method("GET"), Ok(Method::Get));
    assert_eq!(parse_method("get"), Ok(Method::Get));
    assert_eq!(parse_method("gEt"), Ok(Method::Get));
    assert_eq!(parse_method("GETS"), Err(ParseError::InvalidMethod));
    assert_eq!(parse_method(""), Err(ParseError::InvalidMethod));
    assert!(parse_request("get /hi HTTP/1.1\nhost: a:1\n").is_ok());
}

#[test]
fn lowered_method_is_matched_exactly() {
    assert_eq!(match_method("get"), Ok(Method::Get));
    assert_eq!(match_method("GET"), Err(ParseError::InvalidMethod));
    assert_eq!(match_method("post"), Err(ParseError::InvalidMethod));
}

#[test]
fn version_is_matched_exactly() {
    assert_eq!(parse_http_version("HTTP/1.1"), Ok(HTTPVersion::OnePointOne));
    assert_eq!(parse_http_version("http/1.1"), Err(ParseError::InvalidHTTPVersion));
    assert_eq!(parse_http_version("HTTP/1.1 "), Err(ParseError::InvalidHTTPVersion));
    assert_eq!(parse_http_version(""), Err(ParseError::InvalidHTTPVersion));
}

#[test]
fn top_line_is_cut_at_single_spaces() {
    let top = parse_top_line("GET /a/b HTTP/1.1").unwrap();
    assert_eq!(top.method, Method::Get);
    assert_eq!(top.path, "/a/b");
    assert_eq!(top.http_version, HTTPVersion::OnePointOne);
    let top = parse_top_line("GET /a HTTP/1.1 trailing words").unwrap();
    assert_eq!(top.path, "/a");
    let top = parse_top_line("GET  HTTP/1.1").unwrap();
    assert_eq!(top.path, "");
    assert_eq!(parse_top_line("GET /a b HTTP/1.1").err(), Some(ParseError::InvalidHTTPVersion));
    assert_eq!(parse_top_line("GET /a ").err(), Some(ParseError::InvalidHTTPVersion));
    assert_eq!(parse_top_line("GET").err(), Some(ParseError::NoPath));
    assert_eq!(parse_top_line(" GET / HTTP/1.1").err(), Some(ParseError::InvalidMethod));
}

#[test]
fn tokens_end_at_the_first_space() {
    assert_eq!(next_token("GET /hi HTTP/1.1"), ("GET", Some("/hi HTTP/1.1")));
    assert_eq!(next_token("GET"), ("GET", None));
    assert_eq!(next_token(""), ("", None));
    assert_eq!(next_token(" x"), ("", Some("x")));
}

#[test]
fn lines_end_at_line_feeds() {
    assert_eq!(split_line("a\r\nb\r\n"), ("a", "b\r\n"));
    assert_eq!(split_line("a\nb"), ("a", "b"));
    assert_eq!(split_line("a\r\r\nb"), ("a\r", "b"));
    assert_eq!(split_line("last\r"), ("last\r", ""));
    assert_eq!(split_line("\nrest"), ("", "rest"));
    assert_eq!(split_line(""), ("", ""));
}

#[test]
fn header_lines_are_cut_at_colon_and_space() {
    assert_eq!(parse_header_line("Host: localhost:3000"), Some(("Host", "localhost:3000")));
    assert_eq!(parse_header_line("A: b: c"), Some(("A", "b: c")));
    assert_eq!(parse_header_line(": value"), Some(("", "value")));
    assert_eq!(parse_header_line("Name: "), Some(("Name", "")));
    assert_eq!(parse_header_line("Host:localhost"), None);
    assert_eq!(parse_header_line(""), None);
}

#[test]
fn header_names_are_lower_cased_and_the_last_one_stays() {
    let headers = parse_headers("Host: a:1\r\nX-Thing: one\r\nnot a header\r\nx-thing: two\r\n\r\nBody: text");
    assert_eq!(headers.len(), 3);
    assert_eq!(headers.get("host").unwrap(), "a:1");
    assert_eq!(headers.get("x-thing").unwrap(), "two");
    assert_eq!(headers.get("body").unwrap(), "text");
    assert!(headers.get("X-Thing").is_none());
    assert_eq!(parse_headers("").len(), 0);
}

#[test]
fn last_host_header_gives_the_host_name() {
    let request = parse_request("GET / HTTP/1.1\nHost: first:1\nHOST: second:2\n").unwrap();
    assert_eq!(request.hostname, "second");
}

#[test]
fn host_name_ends_at_the_first_colon() {
    assert_eq!(parse_hostname(String::from("localhost:3000")), "localhost");
    assert_eq!(parse_hostname(String::from("a:b:c")), "a");
    assert_eq!(parse_hostname(String::from(":80")), "");
    assert_eq!(parse_hostname(String::from("localhost")), "");
    assert_eq!(parse_hostname(String::new()), "");
    let request = parse_request("GET / HTTP/1.1\r\nHost: localhost\r\n\r\n").unwrap();
    assert_eq!(request.hostname, "");
}

#[test]
fn errors_say_what_went_wrong() {
    assert_eq!(ParseError::InvalidMethod.message(), "Invalid HTTP method");
    assert_eq!(ParseError::InvalidHTTPVersion.message(), "Invalid HTTP version");
    assert_eq!(ParseError::MissingTopLine.message(), "Missing top line");
    assert_eq!(ParseError::NoPath.message(), "No path");
}

#[test]
fn request_is_built_from_top_line_and_headers() {
    let top = parse_top_line("GET /built HTTP/1.1").unwrap();
    let built = build_request(top, parse_headers("host: name:80\nx: y")).unwrap();
    assert_eq!(built.path, "/built");
    assert_eq!(built.hostname, "name");
    assert_eq!(built.headers.len(), 2);
    let top = parse_top_line("GET /built HTTP/1.1").unwrap();
    assert_eq!(build_request(top, parse_headers("x: y")).err(), Some(ParseError::MissingTopLine));
    let top = parse_top_line("GET /built HTTP/1.1").unwrap();
    assert_eq!(build_request(top, parse_headers("")).err(), Some(ParseError::MissingTopLine));
}

use http_server::parse::{parse_request, parse_start_line};
use http_server::request::{HttpError, HttpMethod};

#[test]
fn parse_minimal_get() {
    let req = parse_request("GET / HTTP/1.1\r\n\r\n").unwrap();
    assert_eq!(req.start_line.method, HttpMethod::GET);
    assert_eq!(req.start_line.target, "/");
    assert_eq!(req.start_line.version, "1.1");
    assert_eq!(req.headers.len(), 0);
    assert_eq!(req.body, "");
}

#[test]
fn parse_start_line_consumes_exactly_the_line() {
    let input = "POST /files/new.txt HTTP/1.1\r\nrest";
    let (sl, n) = parse_start_line(input).unwrap();
    assert_eq!(sl.method, HttpMethod::POST);
    assert_eq!(sl.target, "/files/new.txt");
    assert_eq!(sl.version, "1.1");
    assert_eq!(&input[..n], "POST /files/new.txt HTTP/1.1\r\n");
}

#[test]
fn reserializing_the_parsed_start_line_reproduces_it() {
    let input = "GET /echo/abc HTTP/1.1\r\nHost: x\r\n\r\n";
    let (sl, n) = parse_start_line(input).unwrap();
    let method = match sl.method {
        HttpMethod::GET => "GET",
        HttpMethod::POST => "POST",
    };
    let rendered = format!("{} {} HTTP/{}\r\n", method, sl.target, sl.version);
    assert_eq!(&input[..n], rendered);
}

#[test]
fn parse_accepts_multiple_space_separators() {
    let req = parse_request("GET   /abc  HTTP/1.0\r\n\r\n").unwrap();
    assert_eq!(req.start_line.target, "/abc");
    assert_eq!(req.start_line.version, "1.0");
}

#[test]
fn parse_headers_and_body() {
    let req = parse_request(
        "POST /files/a.txt HTTP/1.1\r\nHost: localhost\r\nContent-Length: 5\r\n\r\nhello",
    )
    .unwrap();
    assert_eq!(req.headers.len(), 2);
    assert_eq!(req.headers.get("Host").unwrap().as_str(), "localhost");
    assert_eq!(req.headers.get("Content-Length").unwrap().as_str(), "5");
    assert_eq!(req.body, "hello");
}

#[test]
fn parse_header_value_may_contain_colons() {
    let req = parse_request("GET / HTTP/1.1\r\nReferer: http://x/y\r\n\r\n").unwrap();
    assert_eq!(req.headers.get("Referer").unwrap().as_str(), "http://x/y");
}

#[test]
fn duplicate_header_lookup_takes_the_last_occurrence() {
    let req = parse_request("GET / HTTP/1.1\r\nX-Tag: first\r\nX-Tag: second\r\n\r\n").unwrap();
    assert_eq!(req.headers.len(), 2);
    assert_eq!(req.headers.get("X-Tag").unwrap().as_str(), "second");
}

#[test]
fn missing_header_lookup_is_none() {
    let req = parse_request("GET / HTTP/1.1\r\nHost: x\r\n\r\n").unwrap();
    assert!(req.headers.get("User-Agent").is_none());
}

#[test]
fn parse_empty_body_after_headers() {
    let req = parse_request("GET /echo/abc HTTP/1.1\r\nHost: x\r\n\r\n").unwrap();
    assert_eq!(req.body, "");
}

#[test]
fn unsupported_method_is_rejected() {
    assert_eq!(
        parse_request("PUT / HTTP/1.1\r\n\r\n").unwrap_err(),
        HttpError::UnsupportedMethod
    );
    assert_eq!(
        parse_request("DELETE / HTTP/1.1\r\n\r\n").unwrap_err(),
        HttpError::UnsupportedMethod
    );
    assert_eq!(parse_request("").unwrap_err(), HttpError::UnsupportedMethod);
}

#[test]
fn start_line_without_terminator_is_rejected() {
    assert_eq!(
        parse_request("GET / HTTP/1.1").unwrap_err(),
        HttpError::MalformedStartLine
    );
}

#[test]
fn start_line_without_version_is_rejected() {
    assert_eq!(
        parse_request("GET / HTTP/\r\n\r\n").unwrap_err(),
        HttpError::MalformedStartLine
    );
    assert_eq!(
        parse_request("GET / HTP/1.1\r\n\r\n").unwrap_err(),
        HttpError::MalformedStartLine
    );
}

#[test]
fn start_line_without_target_is_rejected() {
    assert_eq!(
        parse_request("GET \r\n\r\n").unwrap_err(),
        HttpError::MalformedStartLine
    );
}

#[test]
fn header_without_space_after_colon_is_rejected() {
    let r = parse_request("GET / HTTP/1.1\r\nHost:x\r\n\r\n");
    assert_eq!(r.unwrap_err(), HttpError::MalformedHeader);
}

#[test]
fn header_without_colon_is_rejected() {
    assert_eq!(
        parse_request("GET / HTTP/1.1\r\nHost x\r\n\r\n").unwrap_err(),
        HttpError::MalformedHeader
    );
}

#[test]
fn colon_less_line_does_not_merge_into_the_next_header() {
    // the colon of the following line must not rescue this one
    assert_eq!(
        parse_request("GET / HTTP/1.1\r\nBadline\r\nHost: x\r\n\r\n").unwrap_err(),
        HttpError::MalformedHeader
    );
}

#[test]
fn header_with_extra_space_after_separator_is_rejected() {
    assert_eq!(
        parse_request("GET / HTTP/1.1\r\nA:  b\r\n\r\n").unwrap_err(),
        HttpError::MalformedHeader
    );
}

#[test]
fn missing_blank_line_is_rejected() {
    assert_eq!(
        parse_request("GET / HTTP/1.1\r\nHost: x\r\n").unwrap_err(),
        HttpError::MalformedRequest
    );
}

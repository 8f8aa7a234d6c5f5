use http_server::dispatch::{dispatch, respond_file_read, respond_file_write, Action};
use http_server::parse::parse_request;
use http_server::request::HttpError;

fn respond_payload(action: Action) -> String {
    match action {
        Action::Respond(s) => s,
        other => panic!("expected a finished response, got {:?}", other),
    }
}

#[test]
fn root_route_returns_bare_ok() {
    let req = parse_request("GET / HTTP/1.1\r\n\r\n").unwrap();
    let action = dispatch(&req, false).unwrap();
    assert_eq!(respond_payload(action), "HTTP/1.1 200 OK\r\n\r\n");
}

#[test]
fn echo_route_returns_the_suffix() {
    let req = parse_request("GET /echo/abc HTTP/1.1\r\nHost: x\r\n\r\n").unwrap();
    let action = dispatch(&req, false).unwrap();
    assert_eq!(
        respond_payload(action),
        "HTTP/1.1 200 OK\r\nContent-Type: text/plain\r\nContent-Length: 3\r\n\r\nabc"
    );
}

#[test]
fn echo_route_with_empty_suffix() {
    let req = parse_request("GET /echo/ HTTP/1.1\r\n\r\n").unwrap();
    let action = dispatch(&req, false).unwrap();
    assert_eq!(
        respond_payload(action),
        "HTTP/1.1 200 OK\r\nContent-Type: text/plain\r\nContent-Length: 0\r\n\r\n"
    );
}

#[test]
fn echo_route_length_needs_two_digits() {
    let req = parse_request("GET /echo/0123456789 HTTP/1.1\r\n\r\n").unwrap();
    let action = dispatch(&req, false).unwrap();
    assert_eq!(
        respond_payload(action),
        "HTTP/1.1 200 OK\r\nContent-Type: text/plain\r\nContent-Length: 10\r\n\r\n0123456789"
    );
}

#[test]
fn echo_route_length_needs_three_digits() {
    let suffix = "x".repeat(120);
    let request = format!("GET /echo/{} HTTP/1.1\r\n\r\n", suffix);
    let req = parse_request(&request).unwrap();
    let action = dispatch(&req, false).unwrap();
    let expected = format!(
        "HTTP/1.1 200 OK\r\nContent-Type: text/plain\r\nContent-Length: 120\r\n\r\n{}",
        suffix
    );
    assert_eq!(respond_payload(action), expected);
}

#[test]
fn user_agent_route_echoes_the_header() {
    let req =
        parse_request("GET /user-agent HTTP/1.1\r\nUser-Agent: test-client/1.0\r\n\r\n").unwrap();
    let action = dispatch(&req, false).unwrap();
    assert_eq!(
        respond_payload(action),
        "HTTP/1.1 200 OK\r\nContent-Type: text/plain\r\nContent-Length: 15\r\n\r\ntest-client/1.0"
    );
}

#[test]
fn user_agent_route_without_the_header_is_fatal() {
    let req = parse_request("GET /user-agent HTTP/1.1\r\nHost: x\r\n\r\n").unwrap();
    assert_eq!(
        dispatch(&req, false).unwrap_err(),
        HttpError::MissingExpectedHeader
    );
}

#[test]
fn files_read_route_asks_for_the_file() {
    let req = parse_request("GET /files/missing.txt HTTP/1.1\r\n\r\n").unwrap();
    match dispatch(&req, true).unwrap() {
        Action::ReadFile(path) => assert_eq!(path, "missing.txt"),
        other => panic!("expected a file read, got {:?}", other),
    }
}

#[test]
fn files_read_of_a_missing_file_is_not_found() {
    let req = parse_request("GET /files/missing.txt HTTP/1.1\r\n\r\n").unwrap();
    let action = dispatch(&req, true).unwrap();
    assert!(matches!(action, Action::ReadFile(_)));
    let response = respond_file_read(None);
    assert_eq!(response, "HTTP/1.1 404 Not Found\r\n\r\n");
}

#[test]
fn files_write_then_read_round_trip() {
    let post = parse_request("POST /files/new.txt HTTP/1.1\r\nContent-Length: 5\r\n\r\nhello")
        .unwrap();
    let (path, contents) = match dispatch(&post, true).unwrap() {
        Action::WriteFile(path, contents) => (path, contents),
        other => panic!("expected a file write, got {:?}", other),
    };
    assert_eq!(path, "new.txt");
    assert_eq!(contents, "hello");
    assert_eq!(
        respond_file_write(true).unwrap(),
        "HTTP/1.1 201 Created\r\n\r\n"
    );

    let get = parse_request("GET /files/new.txt HTTP/1.1\r\n\r\n").unwrap();
    match dispatch(&get, true).unwrap() {
        Action::ReadFile(read_path) => assert_eq!(read_path, path),
        other => panic!("expected a file read, got {:?}", other),
    }
    assert_eq!(
        respond_file_read(Some(&contents)),
        "HTTP/1.1 200 OK\r\nContent-Type: application/octet-stream\r\nContent-Length: 5\r\n\r\nhello"
    );
}

#[test]
fn files_routes_without_a_root_fall_through_to_not_found() {
    let get = parse_request("GET /files/a.txt HTTP/1.1\r\n\r\n").unwrap();
    let action = dispatch(&get, false).unwrap();
    assert_eq!(respond_payload(action), "HTTP/1.1 404 Not Found\r\n\r\n");

    let post = parse_request("POST /files/a.txt HTTP/1.1\r\n\r\nbody").unwrap();
    let action = dispatch(&post, false).unwrap();
    assert_eq!(respond_payload(action), "HTTP/1.1 404 Not Found\r\n\r\n");
}

#[test]
fn unmatched_routes_fall_through_to_not_found() {
    let req = parse_request("GET /nope HTTP/1.1\r\n\r\n").unwrap();
    let action = dispatch(&req, true).unwrap();
    assert_eq!(respond_payload(action), "HTTP/1.1 404 Not Found\r\n\r\n");

    let post_root = parse_request("POST / HTTP/1.1\r\n\r\n").unwrap();
    let action = dispatch(&post_root, true).unwrap();
    assert_eq!(respond_payload(action), "HTTP/1.1 404 Not Found\r\n\r\n");
}

#[test]
fn failed_file_write_aborts_with_the_write_failure() {
    assert_eq!(
        respond_file_write(false).unwrap_err(),
        HttpError::FileWriteFailure
    );
}

#[test]
fn dispatching_the_same_get_twice_is_byte_identical() {
    let req = parse_request("GET /echo/twice HTTP/1.1\r\nHost: x\r\n\r\n").unwrap();
    let first = respond_payload(dispatch(&req, false).unwrap());
    let second = respond_payload(dispatch(&req, false).unwrap());
    assert_eq!(first, second);
}

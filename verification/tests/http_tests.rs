use docker_intrude::http::{build_request, parse_response};

#[test]
fn request_without_body() {
    assert_eq!(
        build_request("GET", "/_ping", None),
        "GET /_ping HTTP/1.0\r\nHost: localhost\r\nAccept: application/json\r\n\r\n"
    );
}

#[test]
fn request_with_body_counts_bytes() {
    assert_eq!(
        build_request("POST", "/containers/create?name=x", Some("{\"a\":\"é\"}")),
        "POST /containers/create?name=x HTTP/1.0\r\nHost: localhost\r\nAccept: application/json\r\nContent-Type: application/json\r\nContent-Length: 10\r\n\r\n{\"a\":\"é\"}"
    );
}

#[test]
fn reply_status_and_body() {
    let r = parse_response("HTTP/1.0 200 OK\r\nContent-Type: text/plain\r\n\r\nOK").ok().unwrap();
    assert_eq!(r.status, 200);
    assert_eq!(r.body, "OK");
}

#[test]
fn reply_without_body() {
    let r = parse_response("HTTP/1.1 204 No Content\r\nServer: Docker").ok().unwrap();
    assert_eq!(r.status, 204);
    assert_eq!(r.body, "");
}

#[test]
fn reply_body_after_first_blank_line() {
    let r = parse_response("HTTP/1.1 404 Not Found\r\n\r\nline\r\n\r\nmore").ok().unwrap();
    assert_eq!(r.status, 404);
    assert_eq!(r.body, "line\r\n\r\nmore");
}

#[test]
fn reply_errors() {
    assert_eq!(parse_response("").err().unwrap(), "Empty response");
    assert_eq!(parse_response("garbage").err().unwrap(), "Malformed HTTP response");
    assert_eq!(parse_response("HTTP/1.0 abc OK\r\n\r\n").err().unwrap(), "Malformed HTTP response");
    assert_eq!(parse_response("HTTP/1.0 70000\r\n\r\n").err().unwrap(), "Malformed HTTP response");
    assert_eq!(parse_response("\nHTTP/1.0 200 OK\r\n\r\n").err().unwrap(), "Malformed HTTP response");
}

#[test]
fn reply_status_line_spacing() {
    let r = parse_response("  HTTP/1.0\t+201\r\n\r\n{}").ok().unwrap();
    assert_eq!(r.status, 201);
    assert_eq!(r.body, "{}");
    let r = parse_response("HTTP/1.0 200").ok().unwrap();
    assert_eq!(r.status, 200);
}

//! End-to-end scenarios: request bytes in, response bytes out.

use staticserve::request::request_path;
use staticserve::resolve::{candidate_paths, select_candidate};
use staticserve::response::build_response;

fn respond(buffer: &[u8], found: bool, contents: &[u8]) -> Vec<u8> {
    let path = request_path(&buffer.to_vec());
    build_response(found, &contents.to_vec(), &path)
}

#[test]
fn serves_index_html() {
    let buf = b"GET /index.html HTTP/1.1\r\nHost: localhost\r\n\r\n".to_vec();
    let path = request_path(&buf);
    assert_eq!(path, b"index.html".to_vec());
    let resp = build_response(true, &b"<h1>Hi</h1>".to_vec(), &path);
    assert_eq!(
        resp,
        b"HTTP/1.1 200 OK\r\nContent-Type: text/html\r\nContent-Length: 11\r\n\r\n<h1>Hi</h1>"
            .to_vec()
    );
}

#[test]
fn missing_file_gets_404_with_path_in_body() {
    let buf = b"GET /missing.txt HTTP/1.1\r\nHost: localhost\r\n\r\n".to_vec();
    let path = request_path(&buf);
    assert_eq!(path, b"missing.txt".to_vec());
    let hits = vec![false, false, false];
    assert_eq!(select_candidate(&hits), None);
    let resp = build_response(false, &Vec::new(), &path);
    assert_eq!(
        resp,
        b"HTTP/1.1 404 NOT FOUND\r\nContent-Type: text/plain\r\nContent-Length: 33\r\n\r\n404 - File not found: missing.txt"
            .to_vec()
    );
}

#[test]
fn root_is_equivalent_to_index_html() {
    let body = b"<h1>Hi</h1>";
    let via_root = respond(b"GET / HTTP/1.1\r\n\r\n", true, body);
    let via_index = respond(b"GET /index.html HTTP/1.1\r\n\r\n", true, body);
    assert_eq!(via_root, via_index);
    assert_eq!(
        via_root,
        b"HTTP/1.1 200 OK\r\nContent-Type: text/html\r\nContent-Length: 11\r\n\r\n<h1>Hi</h1>"
            .to_vec()
    );
}

#[test]
fn query_string_is_stripped() {
    let buf = b"GET /app.js?v=2 HTTP/1.1\r\nHost: localhost\r\n\r\n".to_vec();
    let path = request_path(&buf);
    assert_eq!(path, b"app.js".to_vec());
    let resp = build_response(true, &b"console.log(1);".to_vec(), &path);
    assert_eq!(
        resp,
        b"HTTP/1.1 200 OK\r\nContent-Type: application/javascript\r\nContent-Length: 15\r\n\r\nconsole.log(1);"
            .to_vec()
    );
}

#[test]
fn query_makes_no_difference_to_resolution() {
    let with_query = respond(b"GET /index.html?x=1 HTTP/1.1\r\n\r\n", true, b"<h1>Hi</h1>");
    let without = respond(b"GET /index.html HTTP/1.1\r\n\r\n", true, b"<h1>Hi</h1>");
    assert_eq!(with_query, without);
}

#[test]
fn garbage_requests_default_to_index_html() {
    assert_eq!(request_path(&Vec::new()), b"index.html".to_vec());
    assert_eq!(request_path(&vec![0u8; 1024]), b"index.html".to_vec());
    assert_eq!(request_path(&b"\r\n".to_vec()), b"index.html".to_vec());
    assert_eq!(request_path(&b"GARBAGE".to_vec()), b"index.html".to_vec());
    assert_eq!(request_path(&b"   \r\nGET /a HTTP/1.1".to_vec()), b"index.html".to_vec());
}

#[test]
fn content_type_follows_originally_requested_path() {
    // The stylesheet only exists as the third candidate, yet the content
    // type still comes from the requested path's extension.
    let buf = b"GET /style.css HTTP/1.1\r\n\r\n".to_vec();
    let path = request_path(&buf);
    let candidates = candidate_paths(&path);
    assert_eq!(candidates.len(), 3);
    let hits = vec![false, false, true];
    assert_eq!(select_candidate(&hits), Some(2));
    let resp = build_response(true, &b"body{}".to_vec(), &path);
    assert_eq!(
        resp,
        b"HTTP/1.1 200 OK\r\nContent-Type: text/css\r\nContent-Length: 6\r\n\r\nbody{}".to_vec()
    );
}

#[test]
fn missing_file_keeps_extension_content_type() {
    let resp = respond(b"GET /missing.css HTTP/1.1\r\n\r\n", false, b"");
    assert_eq!(
        resp,
        b"HTTP/1.1 404 NOT FOUND\r\nContent-Type: text/css\r\nContent-Length: 33\r\n\r\n404 - File not found: missing.css"
            .to_vec()
    );
}

#[test]
fn unreadable_file_is_served_empty_with_200() {
    // An existence check that succeeds but a read that fails hands the
    // library empty contents; the response is still a 200.
    let resp = respond(b"GET /x.html HTTP/1.1\r\n\r\n", true, b"");
    assert_eq!(
        resp,
        b"HTTP/1.1 200 OK\r\nContent-Type: text/html\r\nContent-Length: 0\r\n\r\n".to_vec()
    );
}

#[test]
fn line_feed_alone_ends_the_request_line() {
    let buf = b"GET /a.css HTTP/1.1\nHost: x\n".to_vec();
    assert_eq!(request_path(&buf), b"a.css".to_vec());
}

#[test]
fn tabs_separate_tokens() {
    let buf = b"GET\t/a.css\tHTTP/1.1\r\n".to_vec();
    assert_eq!(request_path(&buf), b"a.css".to_vec());
}

//! Unit tests of the individual parsing, resolution and framing steps.

use staticserve::bytes::{bytes_eq, copy_range, extend};
use staticserve::request::{first_line, path_of_token, request_path, second_token};
use staticserve::resolve::{candidate_paths, select_candidate};
use staticserve::response::{build_response, content_type, decimal_bytes};

#[test]
fn first_line_splits_at_line_feed() {
    assert_eq!(first_line(&b"abc\r\ndef".to_vec()), b"abc".to_vec());
    assert_eq!(first_line(&b"abc\ndef".to_vec()), b"abc".to_vec());
    assert_eq!(first_line(&b"abc".to_vec()), b"abc".to_vec());
    assert_eq!(first_line(&Vec::new()), Vec::new());
    // A carriage return not followed by a line feed stays in the line.
    assert_eq!(first_line(&b"abc\rdef".to_vec()), b"abc\rdef".to_vec());
    assert_eq!(first_line(&b"\nrest".to_vec()), Vec::new());
}

#[test]
fn second_token_needs_two_tokens() {
    assert_eq!(second_token(&b"GET /a HTTP/1.1".to_vec()), Some(b"/a".to_vec()));
    assert_eq!(second_token(&b"GET /a".to_vec()), Some(b"/a".to_vec()));
    assert_eq!(second_token(&b"  GET   /a  ".to_vec()), Some(b"/a".to_vec()));
    assert_eq!(second_token(&b"GET".to_vec()), None);
    assert_eq!(second_token(&b"   ".to_vec()), None);
    assert_eq!(second_token(&Vec::new()), None);
}

#[test]
fn path_of_token_cleans_the_target() {
    assert_eq!(path_of_token(&b"/index.html".to_vec()), b"index.html".to_vec());
    assert_eq!(path_of_token(&b"/".to_vec()), b"index.html".to_vec());
    assert_eq!(path_of_token(&b"/?q=1".to_vec()), b"index.html".to_vec());
    assert_eq!(path_of_token(&b"/a?b?c".to_vec()), b"a".to_vec());
    // Exactly one leading slash is removed, and only a leading one.
    assert_eq!(path_of_token(&b"//etc/passwd".to_vec()), b"/etc/passwd".to_vec());
    assert_eq!(path_of_token(&b"foo".to_vec()), b"foo".to_vec());
    assert_eq!(path_of_token(&b"?q".to_vec()), Vec::new());
}

#[test]
fn leading_slash_stripped_once_in_full_parse() {
    assert_eq!(
        request_path(&b"GET //etc/passwd HTTP/1.1\r\n\r\n".to_vec()),
        b"/etc/passwd".to_vec()
    );
    assert_eq!(request_path(&b"GET foo HTTP/1.1\r\n\r\n".to_vec()), b"foo".to_vec());
}

#[test]
fn candidates_come_in_priority_order() {
    let cs = candidate_paths(&b"style.css".to_vec());
    assert_eq!(cs.len(), 3);
    assert_eq!(cs[0], b"static/style.css".to_vec());
    assert_eq!(cs[1], b"./style.css".to_vec());
    assert_eq!(cs[2], b"style.css".to_vec());
}

#[test]
fn first_existing_candidate_wins() {
    assert_eq!(select_candidate(&vec![true, false, false]), Some(0));
    assert_eq!(select_candidate(&vec![false, true, false]), Some(1));
    assert_eq!(select_candidate(&vec![false, false, true]), Some(2));
    assert_eq!(select_candidate(&vec![true, true, true]), Some(0));
    assert_eq!(select_candidate(&vec![false, true, true]), Some(1));
    assert_eq!(select_candidate(&Vec::new()), None);
}

#[test]
fn content_type_table() {
    assert_eq!(content_type(&b"a.html".to_vec()), b"text/html".to_vec());
    assert_eq!(content_type(&b"a.css".to_vec()), b"text/css".to_vec());
    assert_eq!(content_type(&b"a.js".to_vec()), b"application/javascript".to_vec());
    assert_eq!(content_type(&b"a.json".to_vec()), b"application/json".to_vec());
    assert_eq!(content_type(&b"a.svg".to_vec()), b"image/svg+xml".to_vec());
    assert_eq!(content_type(&b"a.txt".to_vec()), b"text/plain".to_vec());
    // The table is case-sensitive and closed.
    assert_eq!(content_type(&b"a.HTML".to_vec()), b"text/plain".to_vec());
    // The extension is what follows the last dot.
    assert_eq!(content_type(&b"a.min.js".to_vec()), b"application/javascript".to_vec());
    assert_eq!(content_type(&b"trailing.".to_vec()), b"text/plain".to_vec());
    // No dot means no extension, which falls through to text/plain.
    assert_eq!(content_type(&b"noext".to_vec()), b"text/plain".to_vec());
    assert_eq!(content_type(&b"html".to_vec()), b"text/plain".to_vec());
    assert_eq!(content_type(&Vec::new()), b"text/plain".to_vec());
}

#[test]
fn decimal_rendering_is_exact() {
    assert_eq!(decimal_bytes(0), b"0".to_vec());
    assert_eq!(decimal_bytes(7), b"7".to_vec());
    assert_eq!(decimal_bytes(10), b"10".to_vec());
    assert_eq!(decimal_bytes(123), b"123".to_vec());
    assert_eq!(decimal_bytes(1024), b"1024".to_vec());
    assert_eq!(
        decimal_bytes(usize::MAX),
        format!("{}", usize::MAX).into_bytes()
    );
}

#[test]
fn byte_helpers_behave() {
    let mut v = b"ab".to_vec();
    extend(&mut v, &b"cd".to_vec());
    assert_eq!(v, b"abcd".to_vec());
    assert_eq!(copy_range(&v, 1, 3), b"bc".to_vec());
    assert_eq!(copy_range(&v, 2, 2), Vec::new());
    assert!(bytes_eq(&b"abc".to_vec(), &b"abc".to_vec()));
    assert!(!bytes_eq(&b"abc".to_vec(), &b"abd".to_vec()));
    assert!(!bytes_eq(&b"abc".to_vec(), &b"ab".to_vec()));
}

#[test]
fn response_for_empty_body_and_no_extension() {
    let resp = build_response(true, &Vec::new(), &b"a".to_vec());
    assert_eq!(
        resp,
        b"HTTP/1.1 200 OK\r\nContent-Type: text/plain\r\nContent-Length: 0\r\n\r\n".to_vec()
    );
}

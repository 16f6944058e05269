//! Response framing.
//!
//! Once a request path has been resolved the server answers with exactly one
//! buffer: a status line, a `Content-Type` header inferred from the
//! extension of the requested path, a `Content-Length` header holding the
//! body's byte length in decimal, a blank line, and the body.  A hit serves
//! the file's bytes as the caller read them; a miss serves a diagnostic body
//! naming the requested path.

use vstd::prelude::*;
use crate::bytes::{bytes_eq, copy_range, extend};
use crate::request::{spec_index_path, spec_path_of_token, spec_strip_query};

verus! {

/// `"HTTP/1.1 200 OK"`: the status line of a successful response.
pub open spec fn spec_status_ok() -> Seq<u8> {
    seq![72, 84, 84, 80, 47, 49, 46, 49, 32, 50, 48, 48, 32, 79, 75]
}

pub fn status_ok() -> (v: Vec<u8>)
    ensures
        v@ == spec_status_ok(),
{
    let mut v: Vec<u8> = Vec::new();
    v.push(72);
    v.push(84);
    v.push(84);
    v.push(80);
    v.push(47);
    v.push(49);
    v.push(46);
    v.push(49);
    v.push(32);
    v.push(50);
    v.push(48);
    v.push(48);
    v.push(32);
    v.push(79);
    v.push(75);
    proof {
        assert(v@ =~= spec_status_ok());
    }
    v
}

/// `"HTTP/1.1 404 NOT FOUND"`: the status line when no candidate exists.
pub open spec fn spec_status_not_found() -> Seq<u8> {
    seq![72, 84, 84, 80, 47, 49, 46, 49, 32, 52, 48, 52, 32, 78, 79, 84, 32, 70, 79, 85, 78, 68]
}

pub fn status_not_found() -> (v: Vec<u8>)
    ensures
        v@ == spec_status_not_found(),
{
    let mut v: Vec<u8> = Vec::new();
    v.push(72);
    v.push(84);
    v.push(84);
    v.push(80);
    v.push(47);
    v.push(49);
    v.push(46);
    v.push(49);
    v.push(32);
    v.push(52);
    v.push(48);
    v.push(52);
    v.push(32);
    v.push(78);
    v.push(79);
    v.push(84);
    v.push(32);
    v.push(70);
    v.push(79);
    v.push(85);
    v.push(78);
    v.push(68);
    proof {
        assert(v@ =~= spec_status_not_found());
    }
    v
}

/// `"Content-Type: "`: the content-type header name.
pub open spec fn spec_content_type_header() -> Seq<u8> {
    seq![67, 111, 110, 116, 101, 110, 116, 45, 84, 121, 112, 101, 58, 32]
}

pub fn content_type_header() -> (v: Vec<u8>)
    ensures
        v@ == spec_content_type_header(),
{
    let mut v: Vec<u8> = Vec::new();
    v.push(67);
    v.push(111);
    v.push(110);
    v.push(116);
    v.push(101);
    v.push(110);
    v.push(116);
    v.push(45);
    v.push(84);
    v.push(121);
    v.push(112);
    v.push(101);
    v.push(58);
    v.push(32);
    proof {
        assert(v@ =~= spec_content_type_header());
    }
    v
}

/// `"Content-Length: "`: the content-length header name.
pub open spec fn spec_content_length_header() -> Seq<u8> {
    seq![67, 111, 110, 116, 101, 110, 116, 45, 76, 101, 110, 103, 116, 104, 58, 32]
}

pub fn content_length_header() -> (v: Vec<u8>)
    ensures
        v@ == spec_content_length_header(),
{
    let mut v: Vec<u8> = Vec::new();
    v.push(67);
    v.push(111);
    v.push(110);
    v.push(116);
    v.push(101);
    v.push(110);
    v.push(116);
    v.push(45);
    v.push(76);
    v.push(101);
    v.push(110);
    v.push(103);
    v.push(116);
    v.push(104);
    v.push(58);
    v.push(32);
    proof {
        assert(v@ =~= spec_content_length_header());
    }
    v
}

/// `\r\n`: the HTTP line terminator.
pub open spec fn spec_crlf() -> Seq<u8> {
    seq![13, 10]
}

pub fn crlf() -> (v: Vec<u8>)
    ensures
        v@ == spec_crlf(),
{
    let mut v: Vec<u8> = Vec::new();
    v.push(13);
    v.push(10);
    proof {
        assert(v@ =~= spec_crlf());
    }
    v
}

/// `"404 - File not found: "`: the diagnostic body prefix of a 404 response.
pub open spec fn spec_not_found_prefix() -> Seq<u8> {
    seq![52, 48, 52, 32, 45, 32, 70, 105, 108, 101, 32, 110, 111, 116, 32, 102, 111, 117, 110, 100, 58, 32]
}

pub fn not_found_prefix() -> (v: Vec<u8>)
    ensures
        v@ == spec_not_found_prefix(),
{
    let mut v: Vec<u8> = Vec::new();
    v.push(52);
    v.push(48);
    v.push(52);
    v.push(32);
    v.push(45);
    v.push(32);
    v.push(70);
    v.push(105);
    v.push(108);
    v.push(101);
    v.push(32);
    v.push(110);
    v.push(111);
    v.push(116);
    v.push(32);
    v.push(102);
    v.push(111);
    v.push(117);
    v.push(110);
    v.push(100);
    v.push(58);
    v.push(32);
    proof {
        assert(v@ =~= spec_not_found_prefix());
    }
    v
}

/// `"text/html"`: content type for the `html` extension.
pub open spec fn spec_ct_html() -> Seq<u8> {
    seq![116, 101, 120, 116, 47, 104, 116, 109, 108]
}

pub fn ct_html() -> (v: Vec<u8>)
    ensures
        v@ == spec_ct_html(),
{
    let mut v: Vec<u8> = Vec::new();
    v.push(116);
    v.push(101);
    v.push(120);
    v.push(116);
    v.push(47);
    v.push(104);
    v.push(116);
    v.push(109);
    v.push(108);
    proof {
        assert(v@ =~= spec_ct_html());
    }
    v
}

/// `"text/css"`: content type for the `css` extension.
pub open spec fn spec_ct_css() -> Seq<u8> {
    seq![116, 101, 120, 116, 47, 99, 115, 115]
}

pub fn ct_css() -> (v: Vec<u8>)
    ensures
        v@ == spec_ct_css(),
{
    let mut v: Vec<u8> = Vec::new();
    v.push(116);
    v.push(101);
    v.push(120);
    v.push(116);
    v.push(47);
    v.push(99);
    v.push(115);
    v.push(115);
    proof {
        assert(v@ =~= spec_ct_css());
    }
    v
}

/// `"application/javascript"`: content type for the `js` extension.
pub open spec fn spec_ct_js() -> Seq<u8> {
    seq![97, 112, 112, 108, 105, 99, 97, 116, 105, 111, 110, 47, 106, 97, 118, 97, 115, 99, 114, 105, 112, 116]
}

pub fn ct_js() -> (v: Vec<u8>)
    ensures
        v@ == spec_ct_js(),
{
    let mut v: Vec<u8> = Vec::new();
    v.push(97);
    v.push(112);
    v.push(112);
    v.push(108);
    v.push(105);
    v.push(99);
    v.push(97);
    v.push(116);
    v.push(105);
    v.push(111);
    v.push(110);
    v.push(47);
    v.push(106);
    v.push(97);
    v.push(118);
    v.push(97);
    v.push(115);
    v.push(99);
    v.push(114);
    v.push(105);
    v.push(112);
    v.push(116);
    proof {
        assert(v@ =~= spec_ct_js());
    }
    v
}

/// `"application/json"`: content type for the `json` extension.
pub open spec fn spec_ct_json() -> Seq<u8> {
    seq![97, 112, 112, 108, 105, 99, 97, 116, 105, 111, 110, 47, 106, 115, 111, 110]
}

pub fn ct_json() -> (v: Vec<u8>)
    ensures
        v@ == spec_ct_json(),
{
    let mut v: Vec<u8> = Vec::new();
    v.push(97);
    v.push(112);
    v.push(112);
    v.push(108);
    v.push(105);
    v.push(99);
    v.push(97);
    v.push(116);
    v.push(105);
    v.push(111);
    v.push(110);
    v.push(47);
    v.push(106);
    v.push(115);
    v.push(111);
    v.push(110);
    proof {
        assert(v@ =~= spec_ct_json());
    }
    v
}

/// `"image/svg+xml"`: content type for the `svg` extension.
pub open spec fn spec_ct_svg() -> Seq<u8> {
    seq![105, 109, 97, 103, 101, 47, 115, 118, 103, 43, 120, 109, 108]
}

pub fn ct_svg() -> (v: Vec<u8>)
    ensures
        v@ == spec_ct_svg(),
{
    let mut v: Vec<u8> = Vec::new();
    v.push(105);
    v.push(109);
    v.push(97);
    v.push(103);
    v.push(101);
    v.push(47);
    v.push(115);
    v.push(118);
    v.push(103);
    v.push(43);
    v.push(120);
    v.push(109);
    v.push(108);
    proof {
        assert(v@ =~= spec_ct_svg());
    }
    v
}

/// `"text/plain"`: content type for every other extension.
pub open spec fn spec_ct_plain() -> Seq<u8> {
    seq![116, 101, 120, 116, 47, 112, 108, 97, 105, 110]
}

pub fn ct_plain() -> (v: Vec<u8>)
    ensures
        v@ == spec_ct_plain(),
{
    let mut v: Vec<u8> = Vec::new();
    v.push(116);
    v.push(101);
    v.push(120);
    v.push(116);
    v.push(47);
    v.push(112);
    v.push(108);
    v.push(97);
    v.push(105);
    v.push(110);
    proof {
        assert(v@ =~= spec_ct_plain());
    }
    v
}

/// `"html"`: extension compared against.
pub open spec fn spec_ext_html() -> Seq<u8> {
    seq![104, 116, 109, 108]
}

pub fn ext_html() -> (v: Vec<u8>)
    ensures
        v@ == spec_ext_html(),
{
    let mut v: Vec<u8> = Vec::new();
    v.push(104);
    v.push(116);
    v.push(109);
    v.push(108);
    proof {
        assert(v@ =~= spec_ext_html());
    }
    v
}

/// `"css"`: extension compared against.
pub open spec fn spec_ext_css() -> Seq<u8> {
    seq![99, 115, 115]
}

pub fn ext_css() -> (v: Vec<u8>)
    ensures
        v@ == spec_ext_css(),
{
    let mut v: Vec<u8> = Vec::new();
    v.push(99);
    v.push(115);
    v.push(115);
    proof {
        assert(v@ =~= spec_ext_css());
    }
    v
}

/// `"js"`: extension compared against.
pub open spec fn spec_ext_js() -> Seq<u8> {
    seq![106, 115]
}

pub fn ext_js() -> (v: Vec<u8>)
    ensures
        v@ == spec_ext_js(),
{
    let mut v: Vec<u8> = Vec::new();
    v.push(106);
    v.push(115);
    proof {
        assert(v@ =~= spec_ext_js());
    }
    v
}

/// `"json"`: extension compared against.
pub open spec fn spec_ext_json() -> Seq<u8> {
    seq![106, 115, 111, 110]
}

pub fn ext_json() -> (v: Vec<u8>)
    ensures
        v@ == spec_ext_json(),
{
    let mut v: Vec<u8> = Vec::new();
    v.push(106);
    v.push(115);
    v.push(111);
    v.push(110);
    proof {
        assert(v@ =~= spec_ext_json());
    }
    v
}

/// `"svg"`: extension compared against.
pub open spec fn spec_ext_svg() -> Seq<u8> {
    seq![115, 118, 103]
}

pub fn ext_svg() -> (v: Vec<u8>)
    ensures
        v@ == spec_ext_svg(),
{
    let mut v: Vec<u8> = Vec::new();
    v.push(115);
    v.push(118);
    v.push(103);
    proof {
        assert(v@ =~= spec_ext_svg());
    }
    v
}
/// The position of the last `.` in `s`, or `-1` when `s` holds none.
pub open spec fn spec_last_dot(s: Seq<u8>) -> int
    decreases s.len(),
{
    if s.len() == 0 {
        -1
    } else if s[s.len() - 1] == 46 {
        s.len() - 1
    } else {
        spec_last_dot(s.drop_last())
    }
}

/// The extension of a path: the bytes after the last `.`, when one occurs.
pub open spec fn spec_extension(s: Seq<u8>) -> Option<Seq<u8>> {
    if spec_last_dot(s) >= 0 {
        Some(s.subrange(spec_last_dot(s) + 1, s.len() as int))
    } else {
        None
    }
}

fn last_dot(s: &Vec<u8>) -> (r: Option<usize>)
    ensures
        match r {
            Some(i) => i < s@.len() && spec_last_dot(s@) == i as int,
            None => spec_last_dot(s@) == -1,
        },
{
    let mut i: usize = s.len();
    proof {
        assert(s@.subrange(0, s@.len() as int) =~= s@);
    }
    while i > 0
        invariant
            i <= s@.len(),
            spec_last_dot(s@) == spec_last_dot(s@.subrange(0, i as int)),
        decreases i,
    {
        if s[i - 1] == 46 {
            proof {
                let pre = s@.subrange(0, i as int);
                assert(pre.len() == i);
                assert(pre[i - 1] == s@[i - 1]);
            }
            return Some(i - 1);
        }
        proof {
            let pre = s@.subrange(0, i as int);
            assert(pre[i - 1] == s@[i - 1]);
            assert(pre.drop_last() =~= s@.subrange(0, i as int - 1));
        }
        i = i - 1;
    }
    proof {
        assert(s@.subrange(0, 0) =~= Seq::<u8>::empty());
    }
    None
}

/// The content type served for a requested path, decided by its extension
/// alone: `html`, `css`, `js`, `json` and `svg` map to their media types;
/// anything else — an unknown extension, an uppercase one, or a path
/// without a `.` — to `text/plain`.
pub open spec fn spec_content_type(path: Seq<u8>) -> Seq<u8> {
    match spec_extension(path) {
        Some(e) => if e == spec_ext_html() {
            spec_ct_html()
        } else if e == spec_ext_css() {
            spec_ct_css()
        } else if e == spec_ext_js() {
            spec_ct_js()
        } else if e == spec_ext_json() {
            spec_ct_json()
        } else if e == spec_ext_svg() {
            spec_ct_svg()
        } else {
            spec_ct_plain()
        },
        None => spec_ct_plain(),
    }
}

/// Maps the extension of `path` to the `Content-Type` value to serve.
pub fn content_type(path: &Vec<u8>) -> (ct: Vec<u8>)
    ensures
        ct@ == spec_content_type(path@),
{
    match last_dot(path) {
        None => ct_plain(),
        Some(i) => {
            let end = path.len();
            let e = copy_range(path, i + 1, end);
            let x_html = ext_html();
            let x_css = ext_css();
            let x_js = ext_js();
            let x_json = ext_json();
            let x_svg = ext_svg();
            if bytes_eq(&e, &x_html) {
                ct_html()
            } else if bytes_eq(&e, &x_css) {
                ct_css()
            } else if bytes_eq(&e, &x_js) {
                ct_js()
            } else if bytes_eq(&e, &x_json) {
                ct_json()
            } else if bytes_eq(&e, &x_svg) {
                ct_svg()
            } else {
                ct_plain()
            }
        },
    }
}

/// The decimal numeral of `n`, most significant digit first.
pub open spec fn spec_decimal(n: nat) -> Seq<u8>
    decreases n,
{
    if n < 10 {
        seq![(48 + n) as u8]
    } else {
        spec_decimal(n / 10) + seq![(48 + n % 10) as u8]
    }
}

/// Renders a byte length as decimal ASCII digits.
pub fn decimal_bytes(n: usize) -> (v: Vec<u8>)
    ensures
        v@ == spec_decimal(n as nat),
    decreases n,
{
    if n < 10 {
        let mut v: Vec<u8> = Vec::new();
        v.push(48 + (n as u8));
        proof {
            assert(v@ =~= spec_decimal(n as nat));
        }
        v
    } else {
        let mut v = decimal_bytes(n / 10);
        v.push(48 + ((n % 10) as u8));
        proof {
            assert(v@ =~= spec_decimal(n as nat));
        }
        v
    }
}

/// The number that a string of decimal digits denotes.
pub open spec fn spec_decimal_value(s: Seq<u8>) -> int
    decreases s.len(),
{
    if s.len() == 0 {
        0
    } else {
        spec_decimal_value(s.drop_last()) * 10 + (s.last() - 48)
    }
}

/// The decimal rendering of `n` is non-empty, consists of digit bytes
/// only, and denotes `n` itself.
pub proof fn lemma_decimal_round_trip(n: nat)
    ensures
        spec_decimal(n).len() >= 1,
        forall|i: int| 0 <= i < spec_decimal(n).len() ==> 48 <= #[trigger] spec_decimal(n)[i] <= 57,
        spec_decimal_value(spec_decimal(n)) == n,
    decreases n,
{
    if n < 10 {
        assert(spec_decimal(n).drop_last() =~= Seq::<u8>::empty());
        assert(spec_decimal_value(Seq::<u8>::empty()) == 0);
        assert((48 + n) as u8 == 48 + n);
    } else {
        lemma_decimal_round_trip(n / 10);
        let d = (48 + n % 10) as u8;
        assert(d == 48 + n % 10);
        assert((spec_decimal(n / 10) + seq![d]).drop_last() =~= spec_decimal(n / 10));
        assert((spec_decimal(n / 10) + seq![d]).last() == d);
        assert(spec_decimal_value(spec_decimal(n)) == spec_decimal_value(spec_decimal(n / 10))
            * 10 + (d - 48));
        vstd::arithmetic::div_mod::lemma_fundamental_div_mod(n as int, 10);
        assert(n == 10 * (n / 10) + n % 10);
    }
}

/// The status line: `200 OK` on a hit, `404 NOT FOUND` on a miss.
pub open spec fn spec_status(found: bool) -> Seq<u8> {
    if found {
        spec_status_ok()
    } else {
        spec_status_not_found()
    }
}

/// The response body: the file's bytes on a hit; on a miss, the diagnostic
/// line naming the requested path.
pub open spec fn spec_body(found: bool, contents: Seq<u8>, path: Seq<u8>) -> Seq<u8> {
    if found {
        contents
    } else {
        spec_not_found_prefix() + path
    }
}

/// Everything before the body: the status line, the content-type header,
/// the content-length header, and the blank line, each line ending in
/// `\r\n`.
pub open spec fn spec_headers(found: bool, contents: Seq<u8>, path: Seq<u8>) -> Seq<u8> {
    spec_status(found) + spec_crlf() + spec_content_type_header() + spec_content_type(path)
        + spec_crlf() + spec_content_length_header()
        + spec_decimal(spec_body(found, contents, path).len()) + spec_crlf() + spec_crlf()
}

/// One full HTTP response, byte for byte.
pub open spec fn spec_response(found: bool, contents: Seq<u8>, path: Seq<u8>) -> Seq<u8> {
    spec_headers(found, contents, path) + spec_body(found, contents, path)
}

/// Builds the body served for a resolution outcome.
pub fn body_bytes(found: bool, contents: &Vec<u8>, path: &Vec<u8>) -> (b: Vec<u8>)
    ensures
        b@ == spec_body(found, contents@, path@),
{
    if found {
        let mut b: Vec<u8> = Vec::new();
        extend(&mut b, contents);
        proof {
            assert(b@ =~= contents@);
        }
        b
    } else {
        let mut b = not_found_prefix();
        extend(&mut b, path);
        b
    }
}

/// Frames the complete response for a resolution outcome: `found` says
/// whether any candidate existed, `contents` holds the bytes read from the
/// winning candidate (ignored on a miss), and `path` is the originally
/// requested relative path, which alone decides the content type.
pub fn build_response(found: bool, contents: &Vec<u8>, path: &Vec<u8>) -> (r: Vec<u8>)
    ensures
        r@ == spec_response(found, contents@, path@),
{
    let body = body_bytes(found, contents, path);
    let line_end = crlf();
    let mut r = if found {
        status_ok()
    } else {
        status_not_found()
    };
    extend(&mut r, &line_end);
    let ct_name = content_type_header();
    extend(&mut r, &ct_name);
    let ct = content_type(path);
    extend(&mut r, &ct);
    extend(&mut r, &line_end);
    let cl_name = content_length_header();
    extend(&mut r, &cl_name);
    let cl = decimal_bytes(body.len());
    extend(&mut r, &cl);
    extend(&mut r, &line_end);
    extend(&mut r, &line_end);
    proof {
        assert(r@ =~= spec_headers(found, contents@, path@));
    }
    extend(&mut r, &body);
    r
}

/// `needle` occurs somewhere in `hay`.
pub open spec fn spec_contains(hay: Seq<u8>, needle: Seq<u8>) -> bool {
    exists|k: int|
        0 <= k <= hay.len() - needle.len() && #[trigger] hay.subrange(k, k + needle.len())
            == needle
}

/// A hit is served with status `200 OK`; the body is byte-for-byte the
/// file's contents, and the content-length header carries the decimal
/// numeral denoting exactly the body's byte length.
pub proof fn lemma_ok_response(contents: Seq<u8>, path: Seq<u8>)
    ensures
        ({
            let r = spec_response(true, contents, path);
            let header_len = spec_headers(true, contents, path).len();
            &&& r.len() == header_len + contents.len()
            &&& r.subrange(0, spec_status_ok().len() as int) == spec_status_ok()
            &&& r.subrange(header_len as int, r.len() as int) == contents
            &&& spec_contains(
                r,
                spec_content_length_header() + spec_decimal(contents.len()) + spec_crlf(),
            )
            &&& spec_decimal_value(spec_decimal(contents.len())) == contents.len()
        }),
{
    let r = spec_response(true, contents, path);
    let h = spec_headers(true, contents, path);
    assert(r.subrange(0, spec_status_ok().len() as int) =~= spec_status_ok());
    assert(r.subrange(h.len() as int, r.len() as int) =~= contents);
    let k = spec_status_ok().len() + spec_crlf().len() + spec_content_type_header().len()
        + spec_content_type(path).len() + spec_crlf().len();
    let needle = spec_content_length_header() + spec_decimal(contents.len()) + spec_crlf();
    assert(r.subrange(k as int, k as int + needle.len() as int) =~= needle);
    lemma_decimal_round_trip(contents.len());
}

/// A miss is answered with status `404 NOT FOUND` and a diagnostic body
/// that ends with the literal requested path.
pub proof fn lemma_not_found_response(contents: Seq<u8>, path: Seq<u8>)
    ensures
        ({
            let r = spec_response(false, contents, path);
            let header_len = spec_headers(false, contents, path).len();
            &&& spec_body(false, contents, path) == spec_not_found_prefix() + path
            &&& r.len() == header_len + spec_not_found_prefix().len() + path.len()
            &&& r.subrange(0, spec_status_not_found().len() as int) == spec_status_not_found()
            &&& r.subrange(r.len() - path.len(), r.len() as int) == path
        }),
{
    let r = spec_response(false, contents, path);
    assert(r.subrange(0, spec_status_not_found().len() as int) =~= spec_status_not_found());
    assert(r.subrange(r.len() - path.len(), r.len() as int) =~= path);
}

/// The content-type field of a response sits right after the status line
/// and the header name, and holds `spec_content_type(path)`: the requested
/// path alone decides it.
pub proof fn lemma_content_type_field(found: bool, contents: Seq<u8>, path: Seq<u8>)
    ensures
        ({
            let r = spec_response(found, contents, path);
            let o = spec_status(found).len() + spec_crlf().len()
                + spec_content_type_header().len();
            r.subrange(o as int, (o + spec_content_type(path).len()) as int)
                == spec_content_type(path)
        }),
{
    let r = spec_response(found, contents, path);
    let o = spec_status(found).len() + spec_crlf().len() + spec_content_type_header().len();
    assert(r.subrange(o as int, (o + spec_content_type(path).len()) as int)
        =~= spec_content_type(path));
}

/// Which candidate served the file never changes the `Content-Type`: for
/// one requested path, any two responses — hit or miss, whatever bytes the
/// winning candidate supplied — carry identical content-type fields.
pub proof fn lemma_content_type_independent(
    found1: bool,
    contents1: Seq<u8>,
    found2: bool,
    contents2: Seq<u8>,
    path: Seq<u8>,
)
    ensures
        ({
            let r1 = spec_response(found1, contents1, path);
            let o1 = spec_status(found1).len() + spec_crlf().len()
                + spec_content_type_header().len();
            let r2 = spec_response(found2, contents2, path);
            let o2 = spec_status(found2).len() + spec_crlf().len()
                + spec_content_type_header().len();
            r1.subrange(o1 as int, (o1 + spec_content_type(path).len()) as int)
                == r2.subrange(o2 as int, (o2 + spec_content_type(path).len()) as int)
        }),
{
    lemma_content_type_field(found1, contents1, path);
    lemma_content_type_field(found2, contents2, path);
}

/// Requesting `/` and requesting `/index.html` produce the same response,
/// given the same resolution outcome and file contents.
pub proof fn lemma_root_same_response(t: Seq<u8>, found: bool, contents: Seq<u8>)
    requires
        spec_strip_query(t) == seq![47u8],
    ensures
        spec_response(found, contents, spec_path_of_token(t)) == spec_response(
            found,
            contents,
            spec_path_of_token(spec_index_path()),
        ),
{
    crate::request::lemma_root_equivalent(t);
}

} // verus!

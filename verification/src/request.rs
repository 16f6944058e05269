//! Request-line parsing.
//!
//! The server reads at most one buffer from the socket and interprets it as
//! an HTTP request: the first line of the buffer is the request line, its
//! second whitespace-delimited token is the request target.  A query string
//! is cut off at the first `?`, a bare `/` stands for `/index.html`, and one
//! leading `/` is removed before the path is resolved on disk.  Whenever no
//! target can be found the server falls back to serving `index.html`.

use vstd::prelude::*;
use crate::bytes::copy_range;

verus! {

/// `"/index.html"`, the target that a bare `/` (or a missing target) stands
/// for.
pub open spec fn spec_index_path() -> Seq<u8> {
    seq![47, 105, 110, 100, 101, 120, 46, 104, 116, 109, 108]
}

pub fn index_path() -> (v: Vec<u8>)
    ensures
        v@ == spec_index_path(),
{
    let mut v: Vec<u8> = Vec::new();
    v.push(47);
    v.push(105);
    v.push(110);
    v.push(100);
    v.push(101);
    v.push(120);
    v.push(46);
    v.push(104);
    v.push(116);
    v.push(109);
    v.push(108);
    proof {
        assert(v@ =~= spec_index_path());
    }
    v
}

/// `"index.html"`: `spec_index_path()` with its leading slash removed.
pub open spec fn spec_index_file() -> Seq<u8> {
    seq![105, 110, 100, 101, 120, 46, 104, 116, 109, 108]
}

pub fn index_file() -> (v: Vec<u8>)
    ensures
        v@ == spec_index_file(),
{
    let mut v: Vec<u8> = Vec::new();
    v.push(105);
    v.push(110);
    v.push(100);
    v.push(101);
    v.push(120);
    v.push(46);
    v.push(104);
    v.push(116);
    v.push(109);
    v.push(108);
    proof {
        assert(v@ =~= spec_index_file());
    }
    v
}

/// The bytes that count as whitespace when the request line is split into
/// tokens: tab, line feed, vertical tab, form feed, carriage return, space.
pub open spec fn spec_is_ws(b: u8) -> bool {
    b == 9 || b == 10 || b == 11 || b == 12 || b == 13 || b == 32
}

fn is_ws(b: u8) -> (r: bool)
    ensures
        r == spec_is_ws(b),
{
    b == 9 || b == 10 || b == 11 || b == 12 || b == 13 || b == 32
}

/// The first position at or after `i` holding the byte `c`, or the length
/// of `s` when `c` does not occur there.
pub open spec fn spec_find(s: Seq<u8>, c: u8, i: int) -> int
    decreases s.len() - i,
{
    if i < 0 || i >= s.len() {
        s.len() as int
    } else if s[i] == c {
        i
    } else {
        spec_find(s, c, i + 1)
    }
}

/// `spec_find` lands on `c`, no earlier occurrence exists, and the result
/// stays within `[i, s.len()]`.
pub proof fn lemma_find_props(s: Seq<u8>, c: u8, i: int)
    requires
        0 <= i <= s.len(),
    ensures
        i <= spec_find(s, c, i) <= s.len(),
        spec_find(s, c, i) < s.len() ==> s[spec_find(s, c, i)] == c,
        forall|j: int| i <= j < spec_find(s, c, i) ==> s[j] != c,
    decreases s.len() - i,
{
    if i < s.len() && s[i] != c {
        lemma_find_props(s, c, i + 1);
    }
}

fn find_byte(s: &Vec<u8>, c: u8, from: usize) -> (r: usize)
    requires
        from <= s.len(),
    ensures
        r == spec_find(s@, c, from as int),
        from <= r <= s@.len(),
        r < s@.len() ==> s@[r as int] == c,
{
    let mut i: usize = from;
    while i < s.len() && s[i] != c
        invariant
            from <= i <= s@.len(),
            spec_find(s@, c, from as int) == spec_find(s@, c, i as int),
        decreases s@.len() - i,
    {
        i = i + 1;
    }
    i
}

/// The first position at or after `i` holding a non-whitespace byte, or the
/// length of `s`.
pub open spec fn spec_skip_ws(s: Seq<u8>, i: int) -> int
    decreases s.len() - i,
{
    if i < 0 || i >= s.len() {
        s.len() as int
    } else if spec_is_ws(s[i]) {
        spec_skip_ws(s, i + 1)
    } else {
        i
    }
}

/// The first position at or after `i` holding a whitespace byte, or the
/// length of `s`: the end of the token that starts at `i`.
pub open spec fn spec_skip_token(s: Seq<u8>, i: int) -> int
    decreases s.len() - i,
{
    if i < 0 || i >= s.len() {
        s.len() as int
    } else if spec_is_ws(s[i]) {
        i
    } else {
        spec_skip_token(s, i + 1)
    }
}

fn skip_ws_from(s: &Vec<u8>, from: usize) -> (r: usize)
    requires
        from <= s.len(),
    ensures
        r == spec_skip_ws(s@, from as int),
        from <= r <= s@.len(),
{
    let mut i: usize = from;
    while i < s.len() && is_ws(s[i])
        invariant
            from <= i <= s@.len(),
            spec_skip_ws(s@, from as int) == spec_skip_ws(s@, i as int),
        decreases s@.len() - i,
    {
        i = i + 1;
    }
    i
}

fn skip_token_from(s: &Vec<u8>, from: usize) -> (r: usize)
    requires
        from <= s.len(),
    ensures
        r == spec_skip_token(s@, from as int),
        from <= r <= s@.len(),
{
    let mut i: usize = from;
    while i < s.len() && !is_ws(s[i])
        invariant
            from <= i <= s@.len(),
            spec_skip_token(s@, from as int) == spec_skip_token(s@, i as int),
        decreases s@.len() - i,
    {
        i = i + 1;
    }
    i
}

/// The first line of the buffer: everything before the first line feed,
/// with a carriage return stripped when it sits right before that line
/// feed.  A buffer without a line feed is one single line.
pub open spec fn spec_first_line(s: Seq<u8>) -> Seq<u8> {
    let e = spec_find(s, 10, 0);
    if e < s.len() && e > 0 && s[e - 1] == 13 {
        s.subrange(0, e - 1)
    } else {
        s.subrange(0, e)
    }
}

/// Extracts the request line from the bytes read off the socket.
pub fn first_line(buffer: &Vec<u8>) -> (line: Vec<u8>)
    ensures
        line@ == spec_first_line(buffer@),
{
    let e = find_byte(buffer, 10, 0);
    if e < buffer.len() && e > 0 && buffer[e - 1] == 13 {
        copy_range(buffer, 0, e - 1)
    } else {
        copy_range(buffer, 0, e)
    }
}

/// The second whitespace-delimited token of `s`: the request target of a
/// request line `METHOD TARGET PROTOCOL`.  `None` when `s` holds fewer than
/// two tokens.
pub open spec fn spec_second_token(s: Seq<u8>) -> Option<Seq<u8>> {
    let first_start = spec_skip_ws(s, 0);
    let first_end = spec_skip_token(s, first_start);
    let second_start = spec_skip_ws(s, first_end);
    if second_start < s.len() {
        Some(s.subrange(second_start, spec_skip_token(s, second_start)))
    } else {
        None
    }
}

/// Splits the request line on whitespace and hands back its second token,
/// if it has one.
pub fn second_token(line: &Vec<u8>) -> (r: Option<Vec<u8>>)
    ensures
        match r {
            Some(t) => spec_second_token(line@) == Some(t@),
            None => spec_second_token(line@) is None,
        },
{
    let first_start = skip_ws_from(line, 0);
    let first_end = skip_token_from(line, first_start);
    let second_start = skip_ws_from(line, first_end);
    if second_start < line.len() {
        let second_end = skip_token_from(line, second_start);
        Some(copy_range(line, second_start, second_end))
    } else {
        None
    }
}

/// Cuts the token off at its first `?`: the query string plays no part in
/// resolution.
pub open spec fn spec_strip_query(t: Seq<u8>) -> Seq<u8> {
    t.subrange(0, spec_find(t, 63, 0))
}

/// A bare `/` stands for `/index.html`; every other target passes through.
pub open spec fn spec_map_root(t: Seq<u8>) -> Seq<u8> {
    if t == seq![47u8] {
        spec_index_path()
    } else {
        t
    }
}

/// Removes exactly one leading `/`, when there is one.
pub open spec fn spec_strip_slash(t: Seq<u8>) -> Seq<u8> {
    if t.len() > 0 && t[0] == 47 {
        t.subrange(1, t.len() as int)
    } else {
        t
    }
}

/// The filesystem path that a request target resolves to: the query string
/// is stripped, a bare `/` becomes `/index.html`, and one leading `/` is
/// removed.
pub open spec fn spec_path_of_token(t: Seq<u8>) -> Seq<u8> {
    spec_strip_slash(spec_map_root(spec_strip_query(t)))
}

/// Turns a raw request target into the relative path to look up.
pub fn path_of_token(t: &Vec<u8>) -> (p: Vec<u8>)
    ensures
        p@ == spec_path_of_token(t@),
{
    let q = find_byte(t, 63, 0);
    let stripped = copy_range(t, 0, q);
    proof {
        assert(stripped@ == spec_strip_query(t@));
    }
    let rooted = if stripped.len() == 1 && stripped[0] == 47 {
        proof {
            assert(stripped@ =~= seq![47u8]);
        }
        index_path()
    } else {
        proof {
            assert(stripped@ != seq![47u8]) by {
                if stripped@ == seq![47u8] {
                    assert(stripped@.len() == 1);
                    assert(stripped@[0] == 47);
                }
            }
        }
        stripped
    };
    proof {
        assert(rooted@ == spec_map_root(spec_strip_query(t@)));
    }
    if rooted.len() > 0 && rooted[0] == 47 {
        copy_range(&rooted, 1, rooted.len())
    } else {
        rooted
    }
}

/// The path served for the bytes read off the socket: the second token of
/// the first line, cleaned up — or `index.html` when no target is present.
pub open spec fn spec_request_path(b: Seq<u8>) -> Seq<u8> {
    match spec_second_token(spec_first_line(b)) {
        Some(t) => spec_path_of_token(t),
        None => spec_index_file(),
    }
}

/// Parses one request buffer down to the relative path to serve.
pub fn request_path(buffer: &Vec<u8>) -> (p: Vec<u8>)
    ensures
        p@ == spec_request_path(buffer@),
{
    let line = first_line(buffer);
    match second_token(&line) {
        Some(t) => path_of_token(&t),
        None => index_file(),
    }
}

/// When `u` extends `t` past `t`'s length and carries `c` right at that
/// boundary, searching `u` finds `c` where `t` did, or at the boundary when
/// `t` held none.
proof fn lemma_find_common_prefix(t: Seq<u8>, u: Seq<u8>, c: u8, i: int)
    requires
        0 <= i <= t.len(),
        t.len() < u.len(),
        forall|j: int| 0 <= j < t.len() ==> u[j] == t[j],
        u[t.len() as int] == c,
    ensures
        spec_find(u, c, i) == if spec_find(t, c, i) < t.len() {
            spec_find(t, c, i)
        } else {
            t.len() as int
        },
    decreases t.len() - i,
{
    if i < t.len() && t[i] != c {
        lemma_find_common_prefix(t, u, c, i + 1);
    }
}

/// A query string plays no part in resolution: a target of the form
/// `t?q` resolves to exactly the path that `t` alone resolves to.
pub proof fn lemma_query_ignored(t: Seq<u8>, q: Seq<u8>)
    ensures
        spec_path_of_token(t + seq![63u8] + q) == spec_path_of_token(t),
{
    let u = t + seq![63u8] + q;
    assert(u[t.len() as int] == 63);
    lemma_find_common_prefix(t, u, 63, 0);
    lemma_find_props(t, 63, 0);
    if spec_find(t, 63, 0) < t.len() {
        assert(spec_strip_query(u) =~= spec_strip_query(t));
    } else {
        assert(spec_strip_query(u) =~= t);
        assert(spec_strip_query(t) =~= t);
    }
}

/// `spec_index_path()` holds no `?`, so stripping a query leaves it whole.
proof fn lemma_index_path_has_no_query()
    ensures
        spec_strip_query(spec_index_path()) == spec_index_path(),
{
    assert(spec_find(spec_index_path(), 63, 0) == spec_index_path().len()) by {
        reveal_with_fuel(spec_find, 13);
    }
    assert(spec_strip_query(spec_index_path()) =~= spec_index_path());
}

/// A target whose query-stripped form is a bare `/` — `/` itself,
/// `/?q`, and the like — resolves to `index.html`, exactly as the target
/// `/index.html` does.
pub proof fn lemma_root_equivalent(t: Seq<u8>)
    requires
        spec_strip_query(t) == seq![47u8],
    ensures
        spec_path_of_token(t) == spec_index_file(),
        spec_path_of_token(t) == spec_path_of_token(spec_index_path()),
{
    assert(spec_map_root(spec_strip_query(t)) == spec_index_path());
    assert(spec_index_path()[0] == 47);
    assert(spec_strip_slash(spec_index_path()) =~= spec_index_file());
    lemma_index_path_has_no_query();
    assert(spec_index_path().len() == 11);
    assert(spec_map_root(spec_index_path()) == spec_index_path()) by {
        assert(spec_index_path() != seq![47u8]);
    }
}

} // verus!

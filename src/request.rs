//! The request-line parser: `METHOD PATH?QUERY PROTOCOL`.
use vstd::prelude::*;
use vstd::string::StringExecFns;
use crate::cgi_env::CgiEnv;
use crate::text::{chars_of, lemma_stop_index_at, scan_until, stop_index, string_of};

verus! {

/// What follows position `i` of `s`: nothing when `i` is at or past the end.
pub open spec fn rest_after(s: Seq<char>, i: int) -> Seq<char> {
    if i < s.len() {
        s.skip(i + 1)
    } else {
        Seq::empty()
    }
}

/// The method: everything before the first space.
pub open spec fn request_method(s: Seq<char>) -> Seq<char> {
    s.take(stop_index(s, ' ', ' '))
}

/// What follows the method and its space.
pub open spec fn after_method(s: Seq<char>) -> Seq<char> {
    rest_after(s, stop_index(s, ' ', ' '))
}

/// The path: what follows the method, up to the first `?` or space.
pub open spec fn request_path(s: Seq<char>) -> Seq<char> {
    let r = after_method(s);
    r.take(stop_index(r, '?', ' '))
}

/// Whether the path ends at a `?`, so that a query string follows.
pub open spec fn has_query(s: Seq<char>) -> bool {
    let r = after_method(s);
    let p = stop_index(r, '?', ' ');
    p < r.len() && r[p] == '?'
}

/// The query string: after the path's `?`, up to the next space; empty without a `?`.
pub open spec fn request_query(s: Seq<char>) -> Seq<char> {
    let r = after_method(s);
    let q = r.skip(stop_index(r, '?', ' ') + 1);
    if has_query(s) {
        q.take(stop_index(q, ' ', ' '))
    } else {
        Seq::empty()
    }
}

/// What follows the path (and query string) and the space after it.
pub open spec fn protocol_tail(s: Seq<char>) -> Seq<char> {
    let r = after_method(s);
    let p = stop_index(r, '?', ' ');
    let q = r.skip(p + 1);
    if has_query(s) {
        rest_after(q, stop_index(q, ' ', ' '))
    } else {
        rest_after(r, p)
    }
}

/// The protocol: that tail up to the first `\r` or `\n`.
pub open spec fn request_protocol(s: Seq<char>) -> Seq<char> {
    let t = protocol_tail(s);
    t.take(stop_index(t, '\r', '\n'))
}

/// The four fields of a request line. A field that the line ends before is empty.
pub struct RequestLine {
    pub method: String,
    pub path_info: String,
    pub query_string: String,
    pub protocol: String,
}

/// The index in `s` just after position `i`, or the end when `i` is at the end.
fn next_start(s: &Vec<char>, i: usize) -> (r: usize)
    requires
        i <= s.len(),
    ensures
        r <= s.len(),
        s@.skip(r as int) == rest_after(s@.skip(i as int), 0),
{
    if i < s.len() {
        assert(s@.skip(i as int).skip(1) == s@.skip(i + 1));
        i + 1
    } else {
        assert(s@.skip(s.len() as int) == Seq::<char>::empty());
        i
    }
}

/// Splits a request line into method, path, query string and protocol. Nothing is
/// checked: a line that ends early leaves the later fields empty.
pub fn parse_request(line: &String) -> (r: RequestLine)
    ensures
        r.method@ == request_method(line@),
        r.path_info@ == request_path(line@),
        r.query_string@ == request_query(line@),
        r.protocol@ == request_protocol(line@),
{
    let cs = chars_of(line.as_str());
    assert(cs@.skip(0) == cs@);
    let m = scan_until(&cs, 0, ' ', ' ');
    let method = string_of(&cs, 0, m);
    let a = next_start(&cs, m);
    assert(cs@.skip(a as int) == after_method(line@)) by {
        if m < cs.len() {
            assert(cs@.skip(m as int).skip(1) == cs@.skip(m + 1));
        }
    }
    let p = scan_until(&cs, a, '?', ' ');
    let path_info = string_of(&cs, a, p);
    assert(cs@.skip(a as int).take(p - a) == cs@.subrange(a as int, p as int));
    let mut query_string = String::new();
    let start;
    if p < cs.len() && cs[p] == '?' {
        assert(cs@.skip(a as int)[p - a] == cs@[p as int]);
        assert(cs@.skip(a as int).skip(p - a + 1) == cs@.skip(p + 1));
        let q = scan_until(&cs, p + 1, ' ', ' ');
        query_string = string_of(&cs, p + 1, q);
        assert(cs@.skip(p + 1).take(q - (p + 1)) == cs@.subrange(p + 1, q as int));
        start = next_start(&cs, q);
        assert(cs@.skip(start as int) == protocol_tail(line@)) by {
            if q < cs.len() {
                assert(cs@.skip(q as int).skip(1) == cs@.skip(q + 1));
                assert(cs@.skip(p + 1).skip(q - (p + 1) + 1) == cs@.skip(q + 1));
            }
        }
    } else {
        assert(p < cs.len() ==> cs@.skip(a as int)[p - a] == cs@[p as int]);
        start = next_start(&cs, p);
        assert(cs@.skip(start as int) == protocol_tail(line@)) by {
            if p < cs.len() {
                assert(cs@.skip(p as int).skip(1) == cs@.skip(p + 1));
                assert(cs@.skip(a as int).skip(p - a + 1) == cs@.skip(p + 1));
            }
        }
    }
    let e = scan_until(&cs, start, '\r', '\n');
    let protocol = string_of(&cs, start, e);
    assert(cs@.skip(start as int).take(e - start) == cs@.subrange(start as int, e as int));
    RequestLine { method, path_info, query_string, protocol }
}

/// Stores the request line in the environment: `REQUEST_METHOD`, `PATH_INFO`,
/// `QUERY_STRING` and `SERVER_PROTOCOL` from its fields, and an empty `SCRIPT_NAME`.
pub fn set_request(line: &String, env: &mut CgiEnv)
    ensures
        final(env)@ == old(env)@.insert("REQUEST_METHOD"@, request_method(line@)).insert(
            "SCRIPT_NAME"@,
            Seq::empty(),
        ).insert("PATH_INFO"@, request_path(line@)).insert(
            "QUERY_STRING"@,
            request_query(line@),
        ).insert("SERVER_PROTOCOL"@, request_protocol(line@)),
{
    let r = parse_request(line);
    env.set(String::from_str("REQUEST_METHOD"), r.method);
    env.set(String::from_str("SCRIPT_NAME"), String::new());
    env.set(String::from_str("PATH_INFO"), r.path_info);
    env.set(String::from_str("QUERY_STRING"), r.query_string);
    env.set(String::from_str("SERVER_PROTOCOL"), r.protocol);
}

/// Whether no character of `s` is `a` or `b`.
pub open spec fn free_of(s: Seq<char>, a: char, b: char) -> bool {
    forall|i: int| 0 <= i < s.len() ==> s[i] != a && s[i] != b
}

/// `stop_index` of a field followed by a stop is the field's length.
proof fn lemma_field_then(field: Seq<char>, stop: char, rest: Seq<char>, a: char, b: char)
    requires
        free_of(field, a, b),
        stop == a || stop == b,
    ensures
        stop_index(field + seq![stop] + rest, a, b) == field.len(),
        (field + seq![stop] + rest).take(field.len() as int) == field,
        (field + seq![stop] + rest)[field.len() as int] == stop,
        rest_after(field + seq![stop] + rest, field.len() as int) == rest,
{
    let s = field + seq![stop] + rest;
    assert forall|i: int| 0 <= i < field.len() implies s[i] != a && s[i] != b by {
        assert(s[i] == field[i]);
    }
    assert(s[field.len() as int] == stop);
    lemma_stop_index_at(s, a, b, field.len() as int);
    assert(s.take(field.len() as int) == field);
    assert(s.skip(field.len() + 1 as int) == rest);
}

/// A line `METHOD PATH?QUERY PROTOCOL\r\n` splits into exactly those four fields, when
/// the method holds no space, the path no `?` or space, the query string no space and
/// the protocol no `\r` or `\n`.
pub proof fn lemma_request_fields(
    method: Seq<char>,
    path: Seq<char>,
    query: Seq<char>,
    protocol: Seq<char>,
)
    requires
        free_of(method, ' ', ' '),
        free_of(path, '?', ' '),
        free_of(query, ' ', ' '),
        free_of(protocol, '\r', '\n'),
    ensures
        ({
            let line = method + seq![' '] + path + seq!['?'] + query + seq![' '] + protocol + seq![
                '\r',
                '\n',
            ];
            &&& request_method(line) == method
            &&& request_path(line) == path
            &&& request_query(line) == query
            &&& request_protocol(line) == protocol
        }),
{
    let tail = protocol + seq!['\r', '\n'];
    let r3 = query + seq![' '] + tail;
    let r2 = path + seq!['?'] + r3;
    let line = method + seq![' '] + r2;
    assert(line == method + seq![' '] + path + seq!['?'] + query + seq![' '] + protocol + seq![
        '\r',
        '\n',
    ]);
    lemma_field_then(method, ' ', r2, ' ', ' ');
    lemma_field_then(path, '?', r3, '?', ' ');
    lemma_field_then(query, ' ', tail, ' ', ' ');
    lemma_field_then(protocol, '\r', seq!['\n'], '\r', '\n');
    assert(protocol + seq!['\r'] + seq!['\n'] == tail);
    assert(r2.skip(path.len() + 1 as int) == r3);
}

/// A line `METHOD PATH PROTOCOL\r\n`, without `?`, splits into those fields and an empty
/// query string, under the same conditions on the fields.
pub proof fn lemma_request_fields_no_query(method: Seq<char>, path: Seq<char>, protocol: Seq<char>)
    requires
        free_of(method, ' ', ' '),
        free_of(path, '?', ' '),
        free_of(protocol, '\r', '\n'),
    ensures
        ({
            let line = method + seq![' '] + path + seq![' '] + protocol + seq!['\r', '\n'];
            &&& request_method(line) == method
            &&& request_path(line) == path
            &&& request_query(line) == Seq::<char>::empty()
            &&& request_protocol(line) == protocol
        }),
{
    let tail = protocol + seq!['\r', '\n'];
    let r2 = path + seq![' '] + tail;
    let line = method + seq![' '] + r2;
    assert(line == method + seq![' '] + path + seq![' '] + protocol + seq!['\r', '\n']);
    lemma_field_then(method, ' ', r2, ' ', ' ');
    lemma_field_then(path, ' ', tail, '?', ' ');
    lemma_field_then(protocol, '\r', seq!['\n'], '\r', '\n');
    assert(protocol + seq!['\r'] + seq!['\n'] == tail);
}

} // verus!

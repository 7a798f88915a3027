use cgid::cgi_env::{set_field, CgiEnv};
use cgid::relay::{copy_exact, ExactRelay, RelayError, RELAY_BUFFER_SIZE};
use cgid::request::{parse_request, set_request};
use cgid::response::{scan_response_line, status_from_field, status_line};
use cgid::text::underscore_dashes;
use cgid::{parse_header, set_header, HTTP};

#[test]
fn parse_header_upper_cases_the_name() {
    let (k, v) = parse_header(&"key: value\r".to_string()).unwrap();
    assert_eq!(k, "KEY");
    assert_eq!(v, "value");
}

#[test]
fn parse_header_rejects_a_line_without_colon() {
    assert!(parse_header(&"key=value".to_string()).is_err());
    assert!(parse_header(&"".to_string()).is_err());
    assert!(parse_header(&"\r\n".to_string()).is_err());
}

#[test]
fn parse_header_normalises_dashes_and_skips_spaces() {
    let (k, v) = parse_header(&"x-Forwarded-for:    10.0.0.1\r".to_string()).unwrap();
    assert_eq!(k, "X_FORWARDED_FOR");
    assert_eq!(v, "10.0.0.1");
}

#[test]
fn parse_header_keeps_value_as_written() {
    let (k, v) = parse_header(&"Accept:text/html, */*  \r\n".to_string()).unwrap();
    assert_eq!(k, "ACCEPT");
    assert_eq!(v, "text/html, */*  ");
    let (_, v) = parse_header(&"A: b: c".to_string()).unwrap();
    assert_eq!(v, "b: c");
    let (_, v) = parse_header(&"Status: 200 OK\n".to_string()).unwrap();
    assert_eq!(v, "200 OK");
    let (_, v) = parse_header(&"Status: 200 OK".to_string()).unwrap();
    assert_eq!(v, "200 OK");
}

#[test]
fn parse_header_first_character_after_spaces_is_kept() {
    let (k, v) = parse_header(&"Empty:  \r".to_string()).unwrap();
    assert_eq!(k, "EMPTY");
    assert_eq!(v, "\r");
    let (k, v) = parse_header(&":   ".to_string()).unwrap();
    assert_eq!(k, "");
    assert_eq!(v, "");
}

#[test]
fn underscore_dashes_replaces_every_dash() {
    assert_eq!(underscore_dashes(&"A-B--C".to_string()), "A_B__C");
    assert_eq!(underscore_dashes(&"".to_string()), "");
}

#[test]
fn set_header_stores_under_http_prefix() {
    let mut env = CgiEnv::new();
    let mut content_length: usize = 0;
    assert!(set_header("key: value".to_string(), &mut content_length, &mut env).is_ok());
    assert_eq!(env.get("HTTP_KEY"), Some("value".to_string()));
    assert_eq!(content_length, 0);
}

#[test]
fn set_header_without_colon_changes_nothing() {
    let mut env = CgiEnv::new();
    let mut content_length: usize = 5;
    let r = set_header("no colon here".to_string(), &mut content_length, &mut env);
    assert_eq!(r, Err(HTTP::_400));
    assert_eq!(content_length, 5);
    assert!(env.entries().is_empty());
}

#[test]
fn content_length_header_sets_the_length() {
    let mut env = CgiEnv::new();
    let mut content_length: usize = 0;
    assert!(set_header("Content-Length: 42".to_string(), &mut content_length, &mut env).is_ok());
    assert_eq!(content_length, 42);
    assert_eq!(env.get("CONTENT_LENGTH"), Some("42".to_string()));
    assert_eq!(env.get("HTTP_CONTENT_LENGTH"), None);
}

#[test]
fn content_length_that_is_no_number_is_a_client_error() {
    let mut env = CgiEnv::new();
    let mut content_length: usize = 3;
    let r = set_header("Content-Length: abc".to_string(), &mut content_length, &mut env);
    assert_eq!(r, Err(HTTP::_400));
    assert_eq!(content_length, 3);
    assert_eq!(env.get("CONTENT_LENGTH"), None);
    for bad in ["Content-Length: ", "Content-Length: -1", "Content-Length: 18446744073709551616", "Content-Length: 4 "] {
        assert_eq!(set_header(bad.to_string(), &mut content_length, &mut env), Err(HTTP::_400));
    }
    assert_eq!(content_length, 3);
}

#[test]
fn content_length_accepts_a_plus_sign() {
    let mut env = CgiEnv::new();
    let mut content_length: usize = 0;
    assert!(set_header("content-length: +7".to_string(), &mut content_length, &mut env).is_ok());
    assert_eq!(content_length, 7);
    assert_eq!(env.get("CONTENT_LENGTH"), Some("+7".to_string()));
}

#[test]
fn content_type_header_has_no_prefix() {
    let mut env = CgiEnv::new();
    let mut content_length: usize = 0;
    assert!(set_header("Content-Type: text/plain".to_string(), &mut content_length, &mut env).is_ok());
    assert_eq!(env.get("CONTENT_TYPE"), Some("text/plain".to_string()));
    assert_eq!(env.get("HTTP_CONTENT_TYPE"), None);
}

#[test]
fn set_field_maps_normalised_names() {
    let mut env = CgiEnv::new();
    let mut content_length: usize = 0;
    assert!(set_field(&"HOST".to_string(), "example.org".to_string(), &mut content_length, &mut env).is_ok());
    assert!(set_field(&"CONTENT_LENGTH".to_string(), "12".to_string(), &mut content_length, &mut env).is_ok());
    assert_eq!(env.get("HTTP_HOST"), Some("example.org".to_string()));
    assert_eq!(content_length, 12);
    assert_eq!(
        set_field(&"CONTENT_LENGTH".to_string(), "x".to_string(), &mut content_length, &mut env),
        Err(HTTP::_400)
    );
    assert_eq!(env.get("CONTENT_LENGTH"), Some("12".to_string()));
}

#[test]
fn later_setting_replaces_earlier() {
    let mut env = CgiEnv::new();
    env.set("A".to_string(), "1".to_string());
    env.set("B".to_string(), "2".to_string());
    env.set("A".to_string(), "3".to_string());
    assert_eq!(env.get("A"), Some("3".to_string()));
    assert_eq!(env.get("B"), Some("2".to_string()));
    assert_eq!(env.get("C"), None);
}

#[test]
fn server_environment_defaults() {
    let env = CgiEnv::for_server(None, None);
    assert_eq!(env.get("GATEWAY_INTERFACE"), Some("CGI/1.1".to_string()));
    assert_eq!(env.get("SERVER_SOFTWARE"), Some("cgid/0.1.0".to_string()));
    assert_eq!(env.get("SERVER_NAME"), Some("127.0.0.1".to_string()));
    assert_eq!(env.get("SERVER_PORT"), Some("80".to_string()));
    let env = CgiEnv::for_server(Some("10.1.2.3".to_string()), Some("8080".to_string()));
    assert_eq!(env.get("SERVER_NAME"), Some("10.1.2.3".to_string()));
    assert_eq!(env.get("SERVER_PORT"), Some("8080".to_string()));
}

#[test]
fn request_line_with_query() {
    let r = parse_request(&"GET /foo?x=1 HTTP/1.0\r\n".to_string());
    assert_eq!(r.method, "GET");
    assert_eq!(r.path_info, "/foo");
    assert_eq!(r.query_string, "x=1");
    assert_eq!(r.protocol, "HTTP/1.0");
}

#[test]
fn request_line_without_query() {
    let r = parse_request(&"POST /a/b HTTP/1.1\n".to_string());
    assert_eq!(r.method, "POST");
    assert_eq!(r.path_info, "/a/b");
    assert_eq!(r.query_string, "");
    assert_eq!(r.protocol, "HTTP/1.1");
}

#[test]
fn request_line_cut_short_leaves_fields_empty() {
    let r = parse_request(&"GET".to_string());
    assert_eq!(r.method, "GET");
    assert_eq!(r.path_info, "");
    assert_eq!(r.query_string, "");
    assert_eq!(r.protocol, "");
    let r = parse_request(&"GET /x?a?b".to_string());
    assert_eq!(r.path_info, "/x");
    assert_eq!(r.query_string, "a?b");
    assert_eq!(r.protocol, "");
}

#[test]
fn set_request_fills_the_environment() {
    let mut env = CgiEnv::new();
    set_request(&"HEAD /p?q HTTP/1.0\r\n".to_string(), &mut env);
    assert_eq!(env.get("REQUEST_METHOD"), Some("HEAD".to_string()));
    assert_eq!(env.get("SCRIPT_NAME"), Some("".to_string()));
    assert_eq!(env.get("PATH_INFO"), Some("/p".to_string()));
    assert_eq!(env.get("QUERY_STRING"), Some("q".to_string()));
    assert_eq!(env.get("SERVER_PROTOCOL"), Some("HTTP/1.0".to_string()));
}

fn pattern(len: usize) -> Vec<u8> {
    (0..len).map(|i| (i % 251) as u8).collect()
}

#[test]
fn copy_exact_copies_the_first_bytes() {
    let source = pattern(10);
    let mut sink = vec![9u8];
    assert_eq!(copy_exact(&source, &mut sink, 4), Ok(()));
    assert_eq!(sink, vec![9u8, 0, 1, 2, 3]);
}

#[test]
fn copy_exact_zero_length() {
    let mut sink = Vec::new();
    assert_eq!(copy_exact(&[], &mut sink, 0), Ok(()));
    assert!(sink.is_empty());
}

#[test]
fn copy_exact_spans_several_buffers() {
    let source = pattern(3 * RELAY_BUFFER_SIZE + 5);
    for length in [RELAY_BUFFER_SIZE, RELAY_BUFFER_SIZE + 1, 2 * RELAY_BUFFER_SIZE, 3 * RELAY_BUFFER_SIZE + 5] {
        let mut sink = Vec::new();
        assert_eq!(copy_exact(&source, &mut sink, length), Ok(()));
        assert_eq!(sink, source[..length].to_vec());
    }
}

#[test]
fn copy_exact_short_source_fails() {
    let source = pattern(RELAY_BUFFER_SIZE + 100);
    let mut sink = Vec::new();
    assert_eq!(copy_exact(&source, &mut sink, 2 * RELAY_BUFFER_SIZE), Err(RelayError::SourceEnded));
    assert_eq!(sink, source[..RELAY_BUFFER_SIZE].to_vec());
    let mut sink = Vec::new();
    assert_eq!(copy_exact(&source[..3], &mut sink, 4), Err(RelayError::SourceEnded));
    assert!(sink.is_empty());
}

#[test]
fn exact_relay_asks_for_whole_buffers_then_the_rest() {
    let mut relay = ExactRelay::new(2 * RELAY_BUFFER_SIZE + 10);
    assert_eq!(relay.next_chunk(), RELAY_BUFFER_SIZE);
    assert_eq!(relay.advance(RELAY_BUFFER_SIZE), Ok(()));
    assert_eq!(relay.advance(RELAY_BUFFER_SIZE), Ok(()));
    assert_eq!(relay.remaining(), 10);
    assert_eq!(relay.next_chunk(), 10);
    assert_eq!(relay.advance(9), Err(RelayError::SourceEnded));
    assert_eq!(relay.remaining(), 10);
    assert!(!relay.is_done());
    assert_eq!(relay.advance(10), Ok(()));
    assert!(relay.is_done());
    assert_eq!(relay.next_chunk(), 0);
}

#[test]
fn status_line_formats() {
    assert_eq!(status_line("404 Not Found"), "HTTP/1.0 404 Not Found\r\n");
    assert_eq!(HTTP::_400.status_line(), "HTTP/1.0 400 Invalid Header\r\n");
    assert_eq!(HTTP::_500.status_line(), "HTTP/1.0 500 Internal Server Error\r\n");
    assert_eq!(status_from_field(&"STATUS".to_string(), &"201 Created".to_string()), Some("HTTP/1.0 201 Created\r\n".to_string()));
    assert_eq!(status_from_field(&"LOCATION".to_string(), &"/x".to_string()), None);
}

#[test]
fn response_status_header_becomes_status_line() {
    assert_eq!(scan_response_line(&"status: 302 Found\r\n".to_string()), Ok(Some("HTTP/1.0 302 Found\r\n".to_string())));
    assert_eq!(scan_response_line(&"Status: 200 OK\n".to_string()), Ok(Some("HTTP/1.0 200 OK\r\n".to_string())));
    assert_eq!(scan_response_line(&"Content-Type: text/html\r\n".to_string()), Ok(None));
    assert_eq!(scan_response_line(&"garbage\r\n".to_string()), Err(HTTP::_500));
}

/// Runs the reply handling over a whole reply held in memory: skips headers up to the
/// status, then passes on the rest unchanged.
fn reply_to_client(reply: &str) -> Result<String, HTTP> {
    let mut rest = reply;
    loop {
        let end = rest.find('\n').map(|i| i + 1).unwrap_or(rest.len());
        let (line, tail) = rest.split_at(end);
        rest = tail;
        if let Some(status) = scan_response_line(&line.to_string())? {
            return Ok(status + rest);
        }
    }
}

#[test]
fn end_to_end_get_with_status() {
    let mut env = CgiEnv::for_server(None, None);
    let mut content_length: usize = 0;
    let input = "GET /foo?x=1 HTTP/1.0\r\nContent-Length: 0\r\n\r\n";
    let mut lines = input.split_inclusive('\n');
    set_request(&lines.next().unwrap().to_string(), &mut env);
    for line in lines {
        let line = line.trim_end_matches('\n').trim_end_matches('\r');
        if line.is_empty() {
            break;
        }
        assert_eq!(set_header(line.to_string(), &mut content_length, &mut env), Ok(()));
    }
    assert_eq!(env.get("PATH_INFO"), Some("/foo".to_string()));
    assert_eq!(env.get("QUERY_STRING"), Some("x=1".to_string()));
    assert_eq!(env.get("CONTENT_LENGTH"), Some("0".to_string()));
    let mut body = Vec::new();
    assert_eq!(copy_exact(&[], &mut body, content_length), Ok(()));
    assert_eq!(reply_to_client("Status: 200 OK\r\n\r\nhello"), Ok("HTTP/1.0 200 OK\r\n\r\nhello".to_string()));
}

#[test]
fn end_to_end_header_without_colon() {
    let mut env = CgiEnv::for_server(None, None);
    let mut content_length: usize = 0;
    set_request(&"GET / HTTP/1.0\r\n".to_string(), &mut env);
    let r = set_header("Bogus header".to_string(), &mut content_length, &mut env);
    assert_eq!(r, Err(HTTP::_400));
    assert_eq!(r.unwrap_err().status_line(), "HTTP/1.0 400 Invalid Header\r\n");
}

#[test]
fn end_to_end_reply_without_status() {
    let r = reply_to_client("Content-Type: text/plain\r\n\r\nhello");
    assert_eq!(r, Err(HTTP::_500));
    assert_eq!(r.unwrap_err().status_line(), "HTTP/1.0 500 Internal Server Error\r\n");
    assert_eq!(reply_to_client(""), Err(HTTP::_500));
}

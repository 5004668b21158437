use rusty_httpd::method::Method;
use rusty_httpd::value::{Value, ValueMap};
use rusty_httpd::query_string::QueryString;
use rusty_httpd::request::{ParseError, Request};

#[test]
fn parse_simple_get() {
    let req = Request::parse(b"GET / HTTP/1.1\r\nHost: x\r\n\r\n").unwrap();
    assert_eq!(*req.method(), Method::GET);
    assert_eq!(req.path(), "/");
    assert!(req.query().is_none());
    let headers = req.headers().unwrap();
    let values = headers.values("Host").unwrap();
    assert_eq!(values, vec!["x".to_string()]);
}

#[test]
fn parse_header_names_case_insensitive() {
    let req = Request::parse(b"GET / HTTP/1.1\r\nHost: example\r\nAccept: */*\r\n\r\n").unwrap();
    let headers = req.headers().unwrap();
    assert_eq!(headers.values("hOsT").unwrap(), vec!["example".to_string()]);
    assert_eq!(headers.values("accept").unwrap(), vec!["*/*".to_string()]);
    assert!(headers.values("cookie").is_none());
    let names = headers.names();
    assert_eq!(names, vec!["Host".to_string(), "Accept".to_string()]);
}

#[test]
fn parse_duplicate_headers_keep_order() {
    let req =
        Request::parse(b"GET / HTTP/1.1\r\nX-Tag: one\r\nX-Tag: two\r\nX-Tag: three\r\n\r\n")
            .unwrap();
    let headers = req.headers().unwrap();
    let values = headers.values("x-tag").unwrap();
    assert_eq!(
        values,
        vec!["one".to_string(), "two".to_string(), "three".to_string()]
    );
}

#[test]
fn parse_no_headers_gives_none() {
    let req = Request::parse(b"GET /x HTTP/1.1\r\n\r\n").unwrap();
    assert!(req.headers().is_none());
}

#[test]
fn parse_query_multi_and_percent() {
    let req = Request::parse(b"GET /?a=1&a=2&b=%20 HTTP/1.1\r\n\r\n").unwrap();
    assert_eq!(req.path(), "/");
    let query = req.query().unwrap();
    assert_eq!(query.values("a").unwrap(), vec!["1".to_string(), "2".to_string()]);
    assert_eq!(query.values("b").unwrap(), vec![" ".to_string()]);
    assert!(query.values("c").is_none());
}

#[test]
fn parse_query_keys_case_sensitive() {
    let req = Request::parse(b"GET /?key=1&KEY=2 HTTP/1.1\r\n\r\n").unwrap();
    let query = req.query().unwrap();
    assert_eq!(query.values("key").unwrap(), vec!["1".to_string()]);
    assert_eq!(query.values("KEY").unwrap(), vec!["2".to_string()]);
}

#[test]
fn parse_query_invalid_escape_stays_raw() {
    let q: Vec<char> = "x=%zz".chars().collect();
    let query = QueryString::parse(&q).unwrap();
    assert_eq!(query.values("x").unwrap(), vec!["%zz".to_string()]);
}

#[test]
fn parse_query_empty_keys_dropped() {
    let q: Vec<char> = "=1&&  ".chars().collect();
    assert!(QueryString::parse(&q).is_none());
}

#[test]
fn parse_empty_query_gives_none() {
    let req = Request::parse(b"GET /? HTTP/1.1\r\n\r\n").unwrap();
    assert_eq!(req.path(), "/");
    assert!(req.query().is_none());
}

#[test]
fn parse_rejects_http2() {
    let err = Request::parse(b"GET / HTTP/2.0\r\n\r\n").unwrap_err();
    assert_eq!(err, ParseError::Protocol);
}

#[test]
fn parse_rejects_minor_two() {
    let err = Request::parse(b"GET / HTTP/1.2\r\n\r\n").unwrap_err();
    assert_eq!(err, ParseError::Protocol);
}

#[test]
fn parse_accepts_protocol_variants() {
    assert!(Request::parse(b"GET / HTTP/1.0\r\n\r\n").is_ok());
    assert!(Request::parse(b"GET / http/1.1\r\n\r\n").is_ok());
    assert!(Request::parse(b"GET / HTTP/01.01\r\n\r\n").is_ok());
}

#[test]
fn parse_rejects_malformed_protocol() {
    assert_eq!(
        Request::parse(b"GET / HTTP/1.\r\n\r\n").unwrap_err(),
        ParseError::Protocol
    );
    assert_eq!(
        Request::parse(b"GET / HTTP/.1\r\n\r\n").unwrap_err(),
        ParseError::Protocol
    );
    assert_eq!(
        Request::parse(b"GET / HTTPS/1.1\r\n\r\n").unwrap_err(),
        ParseError::Protocol
    );
    assert_eq!(
        Request::parse(b"GET / HTTP/1x1\r\n\r\n").unwrap_err(),
        ParseError::Protocol
    );
}

#[test]
fn parse_rejects_short_request_line() {
    assert_eq!(Request::parse(b"GET /\r\n\r\n").unwrap_err(), ParseError::Request);
    assert_eq!(Request::parse(b"\r\n\r\n").unwrap_err(), ParseError::Request);
    assert_eq!(Request::parse(b"").unwrap_err(), ParseError::Request);
}

#[test]
fn parse_rejects_unknown_method() {
    assert_eq!(
        Request::parse(b"BREW / HTTP/1.1\r\n\r\n").unwrap_err(),
        ParseError::Method
    );
}

#[test]
fn parse_rejects_invalid_utf8() {
    assert_eq!(
        Request::parse(b"GET /\xff HTTP/1.1\r\n\r\n").unwrap_err(),
        ParseError::Encoding
    );
}

#[test]
fn parse_error_messages() {
    assert_eq!(ParseError::Request.message(), "Invalid Request");
    assert_eq!(ParseError::Encoding.message(), "Invalid Encoding");
    assert_eq!(ParseError::Protocol.message(), "Invalid Protocol");
    assert_eq!(ParseError::Method.message(), "Invalid Method");
}

#[test]
fn method_parse_tolerates_case_and_space() {
    assert_eq!(Method::from_str("get").unwrap(), Method::GET);
    assert_eq!(Method::from_str("  Head ").unwrap(), Method::HEAD);
    assert_eq!(Method::from_str("POST").unwrap(), Method::POST);
    assert_eq!(Method::from_str("delete").unwrap(), Method::DELETE);
    assert_eq!(Method::from_str("PUT").unwrap(), Method::PUT);
    assert_eq!(Method::from_str("connect").unwrap(), Method::CONNECT);
    assert_eq!(Method::from_str("OPTIONS").unwrap(), Method::OPTIONS);
    assert_eq!(Method::from_str("trace").unwrap(), Method::TRACE);
    assert_eq!(Method::from_str("PATCH").unwrap(), Method::PATCH);
    assert!(Method::from_str("BREW").is_err());
    assert!(Method::from_str("").is_err());
}

#[test]
fn method_names() {
    assert_eq!(Method::GET.as_str(), "GET");
    assert_eq!(Method::HEAD.as_str(), "HEAD");
}

#[test]
fn parse_bare_linefeed_lines() {
    let req = Request::parse(b"GET /x HTTP/1.1\nHost: a\n\n").unwrap();
    assert_eq!(req.path(), "/x");
    assert_eq!(req.headers().unwrap().values("host").unwrap(), vec!["a".to_string()]);
}

#[test]
fn parse_header_without_colon_has_empty_value() {
    let req = Request::parse(b"GET / HTTP/1.1\r\nMarker\r\n\r\n").unwrap();
    let headers = req.headers().unwrap();
    assert_eq!(headers.values("marker").unwrap(), vec!["".to_string()]);
}

#[test]
fn parse_headers_stop_at_blank_line() {
    let req = Request::parse(b"GET / HTTP/1.1\r\nA: 1\r\n\r\nB: 2\r\n\r\n").unwrap();
    let headers = req.headers().unwrap();
    assert!(headers.values("A").is_some());
    assert!(headers.values("B").is_none());
}

#[test]
fn parse_header_values_are_trimmed() {
    let req = Request::parse(b"GET / HTTP/1.1\r\n  Name  :   spaced value  \r\n\r\n").unwrap();
    let headers = req.headers().unwrap();
    assert_eq!(headers.values("name").unwrap(), vec!["spaced value".to_string()]);
}

#[test]
fn value_iter_lists_all() {
    let single = Value::Single("a".to_string());
    assert_eq!(single.iter(), vec!["a".to_string()]);
    let multiple = Value::Multiple(vec!["a".to_string(), "b".to_string()]);
    assert_eq!(multiple.iter(), vec!["a".to_string(), "b".to_string()]);
    let map = ValueMap::new();
    assert!(map.keys().is_empty());
}

#[test]
fn parse_extra_request_line_tokens_ignored() {
    let req = Request::parse(b"GET /a HTTP/1.1 junk\r\n\r\n").unwrap();
    assert_eq!(req.path(), "/a");
}

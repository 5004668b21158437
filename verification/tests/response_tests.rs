use rusty_httpd::method::Method;
use rusty_httpd::request::{ParseError, Request};
use rusty_httpd::response::Response;
use rusty_httpd::server::{
    accept_step, clamp_backlog, clamp_threads, duration, worker_should_continue, AcceptAction,
    AcceptEvent,
};
use rusty_httpd::status_code::StatusCode;
use rusty_httpd::value::ValueMap;
use rusty_httpd::web_handler::{
    dispatch, error_forbidden, error_internal, error_method_not_allowed, error_not_found,
    Dispatch, FileProbe, Routed, WebHandler,
};

const SERVER_LINE: &str = "Server: Rusty HTTP Server 1.0.0\r\n";

#[test]
fn status_codes_and_reasons() {
    assert_eq!(StatusCode::Okay.code(), 200);
    assert_eq!(StatusCode::Okay.reason_phrase(), "Ok");
    assert_eq!(StatusCode::BadRequest.code(), 400);
    assert_eq!(StatusCode::BadRequest.reason_phrase(), "Bad Request");
    assert_eq!(StatusCode::Forbidden.code(), 403);
    assert_eq!(StatusCode::Forbidden.reason_phrase(), "Forbidden");
    assert_eq!(StatusCode::NotFound.code(), 404);
    assert_eq!(StatusCode::NotFound.reason_phrase(), "Not Found");
    assert_eq!(StatusCode::MethodNotAllowed.code(), 405);
    assert_eq!(StatusCode::MethodNotAllowed.reason_phrase(), "Method Not Allowed");
    assert_eq!(StatusCode::InternalServerError.code(), 500);
    assert_eq!(StatusCode::InternalServerError.reason_phrase(), "Internal Server Error");
}

#[test]
fn status_line_of_every_code() {
    for (status, line) in [
        (StatusCode::Okay, "HTTP/1.1 200 Ok\r\n"),
        (StatusCode::BadRequest, "HTTP/1.1 400 Bad Request\r\n"),
        (StatusCode::Forbidden, "HTTP/1.1 403 Forbidden\r\n"),
        (StatusCode::NotFound, "HTTP/1.1 404 Not Found\r\n"),
        (StatusCode::MethodNotAllowed, "HTTP/1.1 405 Method Not Allowed\r\n"),
        (StatusCode::InternalServerError, "HTTP/1.1 500 Internal Server Error\r\n"),
    ] {
        let response = Response::new(status, None, None);
        assert!(response.header_str().starts_with(line));
    }
}

#[test]
fn ok_response_header_exact() {
    let response = WebHandler::response_for_probe("/srv/public/index.html", &FileProbe::Opened(2));
    let expected = format!(
        "HTTP/1.1 200 Ok\r\n{SERVER_LINE}Content-Length: 2\r\nContent-Type: text/html\r\n\r\n"
    );
    assert_eq!(response.header_str(), expected);
    assert_eq!(response.serialize(), expected.into_bytes());
}

#[test]
fn head_response_for_png_file() {
    let response = WebHandler::response_for_probe("/srv/public/file.png", &FileProbe::Opened(37));
    let expected = format!(
        "HTTP/1.1 200 Ok\r\n{SERVER_LINE}Content-Length: 37\r\nContent-Type: image/png\r\n\r\n"
    );
    let bytes = response.serialize();
    assert_eq!(bytes, expected.clone().into_bytes());
    assert!(bytes.ends_with(b"\r\n\r\n"));
}

#[test]
fn probe_outcomes_map_to_statuses() {
    let missing = WebHandler::response_for_probe("/srv/p/x", &FileProbe::Missing);
    assert!(missing.header_str().starts_with("HTTP/1.1 404 "));
    let dir = WebHandler::response_for_probe("/srv/p/d", &FileProbe::Directory);
    assert!(dir.header_str().starts_with("HTTP/1.1 403 "));
    let unopened = WebHandler::response_for_probe("/srv/p/f", &FileProbe::OpenFailed);
    assert!(unopened.header_str().starts_with("HTTP/1.1 500 "));
    let opened = WebHandler::response_for_probe("/srv/p/f", &FileProbe::Opened(1));
    assert!(opened.header_str().starts_with("HTTP/1.1 200 "));
}

#[test]
fn content_length_matches_body_bytes() {
    let body = "hello response".to_string();
    let n = body.len();
    let response = Response::from_string(StatusCode::Okay, body.clone(), None);
    let header = response.header_str().to_string();
    assert!(header.contains(&format!("Content-Length: {n}\r\n")));
    assert!(header.contains("Content-Type: text/plain\r\n"));
    let bytes = response.serialize();
    let blank = bytes
        .windows(4)
        .position(|w| w == b"\r\n\r\n")
        .unwrap();
    let after_blank = &bytes[blank + 4..];
    assert_eq!(after_blank.len(), n);
    assert_eq!(after_blank, body.as_bytes());
}

#[test]
fn from_data_sets_length_without_type() {
    let data = vec![1u8, 2, 3, 4, 5];
    let response = Response::from_data(StatusCode::Okay, data.clone(), None);
    let header = response.header_str().to_string();
    assert!(header.contains("Content-Length: 5\r\n"));
    assert!(!header.contains("Content-Type"));
    let bytes = response.serialize();
    assert!(bytes.ends_with(&data));
}

#[test]
fn head_is_get_without_body() {
    let get_header = WebHandler::response_for_probe("/p/a.txt", &FileProbe::Opened(9))
        .serialize();
    let head_bytes = WebHandler::response_for_probe("/p/a.txt", &FileProbe::Opened(9))
        .serialize();
    assert_eq!(head_bytes, get_header);
    assert!(head_bytes.ends_with(b"\r\n\r\n"));
}

#[test]
fn error_bodies_exact() {
    let forbidden = error_forbidden().serialize();
    let expected_403 = "<!doctype html><title>Error 403</title><h1>403 Forbidden</h1><h3>You don't have permission to access the requested resource on this server.</h3>\n";
    assert!(forbidden.ends_with(expected_403.as_bytes()));
    assert!(forbidden.starts_with(b"HTTP/1.1 403 Forbidden\r\n"));
    let header = String::from_utf8(forbidden.clone()).unwrap();
    assert!(header.contains(&format!("Content-Length: {}\r\n", expected_403.len())));
    assert!(header.contains("Content-Type: text/html\r\n"));

    let not_found = error_not_found().serialize();
    let expected_404 = "<!doctype html><title>Error 404</title><h1>404 Not Found</h1><h3>The requested resource could not be found on this server, but may be available in the future.</h3>\n";
    assert!(not_found.ends_with(expected_404.as_bytes()));
    assert!(not_found.starts_with(b"HTTP/1.1 404 Not Found\r\n"));

    let not_allowed = error_method_not_allowed().serialize();
    let expected_405 = "<!doctype html><title>Error 405</title><h1>405 Method Not Allowed</h1><h3>The request method is known by the server, but is not supported by the target resource.</h3>\n";
    assert!(not_allowed.ends_with(expected_405.as_bytes()));
    assert!(not_allowed.starts_with(b"HTTP/1.1 405 Method Not Allowed\r\n"));

    let internal = error_internal().serialize();
    let expected_500 = "<!doctype html><title>Error 500</title><h1>500 Internal Server Error</h1><h3>The server encountered an internal error and was unable to complete your request.</h3>\n";
    assert!(internal.ends_with(expected_500.as_bytes()));
    assert!(internal.starts_with(b"HTTP/1.1 500 Internal Server Error\r\n"));
}

#[test]
fn dispatch_by_method() {
    assert_eq!(dispatch(&Method::GET), Dispatch::Serve(true));
    assert_eq!(dispatch(&Method::HEAD), Dispatch::Serve(false));
    assert_eq!(dispatch(&Method::POST), Dispatch::NotAllowed);
    assert_eq!(dispatch(&Method::PUT), Dispatch::NotAllowed);
    assert_eq!(dispatch(&Method::DELETE), Dispatch::NotAllowed);
    assert_eq!(dispatch(&Method::CONNECT), Dispatch::NotAllowed);
    assert_eq!(dispatch(&Method::OPTIONS), Dispatch::NotAllowed);
    assert_eq!(dispatch(&Method::TRACE), Dispatch::NotAllowed);
    assert_eq!(dispatch(&Method::PATCH), Dispatch::NotAllowed);
}

#[test]
fn route_post_gives_405() {
    let handler = WebHandler::new("/srv/public".to_string(), None);
    let routed = handler.route_request(Request::parse(b"POST / HTTP/1.1\r\n\r\n"));
    match routed {
        Routed::Done(resp) => {
            assert!(resp.header_str().starts_with("HTTP/1.1 405 Method Not Allowed\r\n"))
        }
        Routed::ServeFile { .. } => panic!("a POST must not serve a file"),
    }
}

#[test]
fn route_traversal_gives_404() {
    let handler = WebHandler::new("/srv/public".to_string(), None);
    let routed = handler.route_request(Request::parse(b"GET /../etc/passwd HTTP/1.1\r\n\r\n"));
    match routed {
        Routed::Done(resp) => {
            assert!(resp.header_str().starts_with("HTTP/1.1 404 Not Found\r\n"))
        }
        Routed::ServeFile { .. } => panic!("a traversal must not serve a file"),
    }
}

#[test]
fn route_hidden_gives_404() {
    let handler = WebHandler::new("/srv/public".to_string(), None);
    let routed = handler.route_request(Request::parse(b"GET /.hidden HTTP/1.1\r\n\r\n"));
    match routed {
        Routed::Done(resp) => {
            assert!(resp.header_str().starts_with("HTTP/1.1 404 Not Found\r\n"))
        }
        Routed::ServeFile { .. } => panic!("a hidden name must not serve a file"),
    }
}

#[test]
fn route_parse_error_gives_400() {
    let handler = WebHandler::new("/srv/public".to_string(), None);
    let routed = handler.route_request(Request::parse(b"GET / HTTP/2.0\r\n\r\n"));
    match routed {
        Routed::Done(resp) => {
            let bytes = resp.serialize();
            assert!(bytes.starts_with(b"HTTP/1.1 400 Bad Request\r\n"));
            assert!(bytes.ends_with(b"Invalid Protocol"));
        }
        Routed::ServeFile { .. } => panic!("a bad request must not serve a file"),
    }
}

#[test]
fn route_get_and_head_to_same_file() {
    let handler = WebHandler::new("/srv/public".to_string(), None);
    let get = handler.route_request(Request::parse(b"GET /a.txt HTTP/1.1\r\n\r\n"));
    let head = handler.route_request(Request::parse(b"HEAD /a.txt HTTP/1.1\r\n\r\n"));
    match (get, head) {
        (
            Routed::ServeFile { full_path: gp, transmit: gt },
            Routed::ServeFile { full_path: hp, transmit: ht },
        ) => {
            assert_eq!(gp, "/srv/public/a.txt");
            assert_eq!(hp, gp);
            assert!(gt);
            assert!(!ht);
        }
        _ => panic!("GET and HEAD must both serve the file"),
    }
}

#[test]
fn value_map_promotes_and_looks_up() {
    let mut map = ValueMap::new();
    assert!(map.is_empty());
    map.put("k".to_string(), "1".to_string());
    assert!(!map.is_empty());
    assert_eq!(map.values("k").unwrap(), vec!["1".to_string()]);
    map.put("k".to_string(), "2".to_string());
    assert_eq!(map.values("k").unwrap(), vec!["1".to_string(), "2".to_string()]);
    map.put("k".to_string(), "3".to_string());
    assert_eq!(
        map.values("k").unwrap(),
        vec!["1".to_string(), "2".to_string(), "3".to_string()]
    );
    assert!(map.values("K").is_none());
    assert_eq!(map.keys(), vec!["k".to_string()]);
}

#[test]
fn value_map_case_insensitive_keeps_first_name() {
    let mut map = ValueMap::new_case_insensitive();
    map.put("Host".to_string(), "a".to_string());
    map.put("HOST".to_string(), "b".to_string());
    assert_eq!(map.values("host").unwrap(), vec!["a".to_string(), "b".to_string()]);
    assert_eq!(map.keys(), vec!["Host".to_string()]);
}

#[test]
fn pool_clamps_and_duration() {
    assert_eq!(clamp_threads(None, 8), 8);
    assert_eq!(clamp_threads(None, 1), 2);
    assert_eq!(clamp_threads(None, 200), 64);
    assert_eq!(clamp_threads(Some(16), 4), 16);
    assert_eq!(clamp_threads(Some(0), 4), 2);
    assert_eq!(clamp_threads(Some(1000), 4), 64);
    assert_eq!(clamp_backlog(None), 256);
    assert_eq!(clamp_backlog(Some(0)), 1);
    assert_eq!(clamp_backlog(Some(99999)), 16384);
    assert_eq!(clamp_backlog(Some(512)), 512);
    assert_eq!(duration(0), None);
    assert_eq!(duration(15000), Some(15000));
}

#[test]
fn acceptor_stops_only_when_cancelled() {
    for event in [
        AcceptEvent::Connection,
        AcceptEvent::Cancelled,
        AcceptEvent::TimedOut,
        AcceptEvent::Failed,
    ] {
        assert_eq!(accept_step(true, &event), AcceptAction::Stop);
    }
    assert_eq!(accept_step(false, &AcceptEvent::Connection), AcceptAction::Enqueue);
    assert_eq!(accept_step(false, &AcceptEvent::TimedOut), AcceptAction::Ignore);
    assert_eq!(accept_step(false, &AcceptEvent::Failed), AcceptAction::Ignore);
    assert_eq!(accept_step(false, &AcceptEvent::Cancelled), AcceptAction::Ignore);
    assert!(worker_should_continue(true));
    assert!(!worker_should_continue(false));
}

#[test]
fn content_length_formats_exactly() {
    let response = Response::new(StatusCode::Okay, Some(0), None);
    assert!(response.header_str().contains("Content-Length: 0\r\n"));
    let response = Response::new(StatusCode::Okay, Some(1048576), None);
    assert!(response.header_str().contains("Content-Length: 1048576\r\n"));
    let response = Response::new(StatusCode::Okay, Some(u64::MAX), None);
    assert!(response
        .header_str()
        .contains("Content-Length: 18446744073709551615\r\n"));
}

#[test]
fn route_error_matches_parse_error() {
    let handler = WebHandler::new("/srv/public".to_string(), None);
    for (raw, message) in [
        (&b"GET /\xff HTTP/1.1\r\n\r\n"[..], "Invalid Encoding"),
        (&b"GET /\r\n\r\n"[..], "Invalid Request"),
        (&b"BREW / HTTP/1.1\r\n\r\n"[..], "Invalid Method"),
    ] {
        match handler.route_request(Request::parse(raw)) {
            Routed::Done(resp) => {
                let bytes = resp.serialize();
                assert!(bytes.starts_with(b"HTTP/1.1 400 Bad Request\r\n"));
                assert!(bytes.ends_with(message.as_bytes()));
            }
            Routed::ServeFile { .. } => panic!("a bad request must not serve a file"),
        }
    }
}

#[test]
fn parse_error_equality() {
    assert_eq!(ParseError::Protocol, ParseError::Protocol);
    assert_ne!(ParseError::Protocol, ParseError::Method);
}

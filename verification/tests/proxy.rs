use rpgx::config::{Config, Location};
use rpgx::http::res::INTERNAL_ERROR_PAGE;
use rpgx::proxy::{HandlerAction, ProxyServer};
use rpgx::str_map::StrMap;
use rpgx::wire::{RequestHead, RequestParse};

fn server_with(paths: &[&str]) -> ProxyServer {
    let mut location = StrMap::new();
    for p in paths {
        location.insert(p.to_string(), Location { proxy_pass: "http://127.0.0.1:3000".to_string() });
    }
    ProxyServer::new(Config { max_tcp_buffer_size: 1024, location })
}

fn reply_status(a: HandlerAction) -> u32 {
    match a {
        HandlerAction::Reply(r) => r.status,
        HandlerAction::Ignore(m) => panic!("request ignored: {}", m),
    }
}

#[test]
fn served_path_is_answered_401() {
    let s = server_with(&["/", "/api"]);
    let a = s.request_handler(b"GET /api HTTP/1.1\r\nHost: localhost\r\n\r\n");
    match a {
        HandlerAction::Reply(r) => {
            assert_eq!(r.status, 401);
            assert!(r.body.is_empty());
            assert_eq!(r.headers.get(&"content-type".to_string()).unwrap(), "text/html; charset=utf-8");
        }
        HandlerAction::Ignore(_) => panic!("ignored"),
    }
}

#[test]
fn unknown_path_is_answered_404() {
    let s = server_with(&["/api"]);
    assert_eq!(reply_status(s.request_handler(b"GET /other HTTP/1.1\r\n\r\n")), 404);
    assert_eq!(reply_status(s.request_handler(b"GET /api/ HTTP/1.1\r\n\r\n")), 404);
    let empty = server_with(&[]);
    assert_eq!(reply_status(empty.request_handler(b"GET / HTTP/1.0\r\n\r\n")), 404);
}

#[test]
fn partial_request_gets_internal_error() {
    let s = server_with(&["/api"]);
    match s.request_handler(b"GET /api HTTP/1.1\r\nHost: loc") {
        HandlerAction::Reply(r) => {
            assert_eq!(r.status, 500);
            assert_eq!(r.body, INTERNAL_ERROR_PAGE.as_bytes().to_vec());
        }
        HandlerAction::Ignore(_) => panic!("ignored"),
    }
    assert_eq!(reply_status(s.request_handler(b"")), 500);
}

#[test]
fn invalid_request_is_ignored_with_reason() {
    let s = server_with(&["/api"]);
    match s.request_handler(b"GET /api HTTP/9.9\r\n\r\n") {
        HandlerAction::Ignore(m) => assert_eq!(m, "invalid HTTP version"),
        HandlerAction::Reply(_) => panic!("answered"),
    }
    match s.request_handler(b"G\x01T / HTTP/1.1\r\n\r\n") {
        HandlerAction::Ignore(m) => assert_eq!(m, "invalid token"),
        HandlerAction::Reply(_) => panic!("answered"),
    }
}

#[test]
fn too_many_request_headers_are_refused() {
    let s = server_with(&["/"]);
    let mut req = b"GET / HTTP/1.1\r\n".to_vec();
    for i in 0..65 {
        req.extend_from_slice(format!("h{}: v\r\n", i).as_bytes());
    }
    req.extend_from_slice(b"\r\n");
    match s.request_handler(&req) {
        HandlerAction::Ignore(m) => assert_eq!(m, "too many headers"),
        HandlerAction::Reply(_) => panic!("answered"),
    }
}

#[test]
fn decide_on_given_outcomes() {
    let s = server_with(&["/x"]);
    let complete = |p: &str| RequestParse::Complete(RequestHead {
        body_offset: 0,
        method: Some("GET".to_string()),
        path: Some(p.to_string()),
        version: Some(1),
    });
    assert_eq!(reply_status(s.decide(&complete("/x"))), 401);
    assert_eq!(reply_status(s.decide(&complete("/y"))), 404);
    assert_eq!(reply_status(s.decide(&RequestParse::Partial)), 500);
    match s.decide(&RequestParse::Invalid("bad".to_string())) {
        HandlerAction::Ignore(m) => assert_eq!(m, "bad"),
        HandlerAction::Reply(_) => panic!("answered"),
    }
}

#[test]
fn reply_bytes_for_routed_request() {
    let s = server_with(&["/"]);
    match s.request_handler(b"GET /missing HTTP/1.1\r\n\r\n") {
        HandlerAction::Reply(r) => assert_eq!(
            r.to_bytes(),
            b"HTTP/1.1 404 Not Found\r\ncontent-type:text/html; charset=utf-8\r\n\r\n".to_vec()
        ),
        HandlerAction::Ignore(_) => panic!("ignored"),
    }
}

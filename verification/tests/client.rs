use rpgx::http::client::{HttpClient, HttpClientError};
use rpgx::http::req::{RequestUrl, RpgxRequest};
use rpgx::str_map::StrMap;
use rpgx::wire::{ResponseHead, ResponseParse};

fn pairs(m: &StrMap<String>) -> Vec<(String, String)> {
    let mut out = Vec::new();
    for i in 0..m.len() {
        let (k, v) = m.get_index(i);
        out.push((k.clone(), v.clone()));
    }
    out
}

#[test]
fn url_parse_keeps_serialization_and_path() {
    let u = RequestUrl::parse("http://localhost:3000/api/versions?page=2").ok().unwrap();
    assert_eq!(u.as_str(), "http://localhost:3000/api/versions?page=2");
    assert_eq!(u.path(), "/api/versions");
    let root = RequestUrl::parse("https://example.com").ok().unwrap();
    assert_eq!(root.as_str(), "https://example.com/");
    assert_eq!(root.path(), "/");
}

#[test]
fn url_parse_refuses_relative_url() {
    match RequestUrl::parse("/only/a/path") {
        Err(e) => assert_eq!(e, "relative URL without a base"),
        Ok(_) => panic!("a relative URL was accepted"),
    }
}

#[test]
fn request_text_without_headers() {
    let req = RpgxRequest {
        url: RequestUrl::parse("http://localhost:3000/index.html").ok().unwrap(),
        method: "GET".to_string(),
        headers: StrMap::new(),
        body: Vec::new(),
    };
    assert_eq!(req.to_vec(), "GET /index.html HTTP/1.1\r\n\r\n\r\n");
}

#[test]
fn request_text_with_headers_in_order() {
    let mut headers = StrMap::new();
    headers.insert("Host".to_string(), "localhost".to_string());
    headers.insert("Accept".to_string(), "*/*".to_string());
    let req = RpgxRequest {
        url: RequestUrl::parse("http://localhost:3000/a/b?q=1#frag").ok().unwrap(),
        method: "POST".to_string(),
        headers,
        body: b"data".to_vec(),
    };
    assert_eq!(
        req.to_vec(),
        "POST /a/b HTTP/1.1\r\nHost:localhost\r\nAccept:*/*\r\n\r\n\r\n"
    );
}

#[test]
fn read_complete_reply() {
    let client = HttpClient::new();
    let reply = b"HTTP/1.1 200 OK\r\nContent-Length: 2\r\nX-A: b\r\n\r\nhi";
    let r = client.read_response(reply).unwrap();
    assert_eq!(r.status, 200);
    assert_eq!(r.body, reply.to_vec());
    assert_eq!(
        pairs(&r.headers),
        vec![
            ("Content-Length".to_string(), "2".to_string()),
            ("X-A".to_string(), "b".to_string()),
            (String::new(), String::new()),
        ]
    );
    assert_eq!(r.headers.get(&"X-A".to_string()).unwrap(), "b");
}

#[test]
fn read_reply_with_invalid_utf8_value() {
    let client = HttpClient::new();
    let reply = b"HTTP/1.1 404 Not Found\r\nX-Raw: a\xffb\r\n\r\n";
    let r = client.read_response(reply).unwrap();
    assert_eq!(r.status, 404);
    assert_eq!(r.headers.get(&"X-Raw".to_string()).unwrap(), "a\u{fffd}b");
}

#[test]
fn read_reply_with_sixty_four_headers_has_no_empty_entry() {
    let mut reply = b"HTTP/1.1 204 No Content\r\n".to_vec();
    for i in 0..64 {
        reply.extend_from_slice(format!("h{}: {}\r\n", i, i).as_bytes());
    }
    reply.extend_from_slice(b"\r\n");
    let r = HttpClient::new().read_response(&reply).unwrap();
    assert_eq!(r.headers.len(), 64);
    assert_eq!(r.headers.get(&String::new()), None);
    assert_eq!(r.headers.get(&"h63".to_string()).unwrap(), "63");
}

#[test]
fn read_reply_with_too_many_headers_fails() {
    let mut reply = b"HTTP/1.1 200 OK\r\n".to_vec();
    for i in 0..65 {
        reply.extend_from_slice(format!("h{}: {}\r\n", i, i).as_bytes());
    }
    reply.extend_from_slice(b"\r\n");
    assert!(HttpClient::new().read_response(&reply).is_none());
}

#[test]
fn read_partial_or_invalid_reply_fails() {
    let client = HttpClient::new();
    assert!(client.read_response(b"HTTP/1.1 200 OK\r\nContent-Le").is_none());
    assert!(client.read_response(b"").is_none());
    assert!(client.read_response(b"NOT HTTP\r\n\r\n").is_none());
}

#[test]
fn response_from_head_without_code_fails() {
    let parsed = ResponseParse::Complete(ResponseHead { body_offset: 0, code: None, headers: Vec::new() });
    assert!(HttpClient::new().response_from_head(b"", &parsed).is_none());
}

#[test]
fn response_from_given_head_pads_header_slots() {
    let parsed = ResponseParse::Complete(ResponseHead {
        body_offset: 3,
        code: Some(302),
        headers: vec![("Location".to_string(), b"/x".to_vec()), ("location".to_string(), b"/y".to_vec())],
    });
    let r = HttpClient::new().response_from_head(b"abc", &parsed).unwrap();
    assert_eq!(r.status, 302);
    assert_eq!(r.body, b"abc".to_vec());
    assert_eq!(
        pairs(&r.headers),
        vec![
            ("Location".to_string(), "/x".to_string()),
            ("location".to_string(), "/y".to_string()),
            (String::new(), String::new()),
        ]
    );
}

#[test]
fn client_error_keeps_its_message() {
    let e = HttpClientError::new("Failed to connect".to_string());
    assert_eq!(e.message(), "Failed to connect");
}

use rpgx::http::res::{RpgxResponse as UpstreamResponse, INTERNAL_ERROR_PAGE};
use rpgx::proxy::RpgxResponse;
use rpgx::text::{push_decimal, reason_for};

fn header_pairs(r: &RpgxResponse) -> Vec<(String, String)> {
    let mut out = Vec::new();
    for i in 0..r.headers.len() {
        let (k, v) = r.headers.get_index(i);
        out.push((k.clone(), v.clone()));
    }
    out
}

#[test]
fn new_response_has_status_html_header_and_no_body() {
    let r = RpgxResponse::new(404);
    assert_eq!(r.status, 404);
    assert_eq!(
        header_pairs(&r),
        vec![("content-type".to_string(), "text/html; charset=utf-8".to_string())]
    );
    assert!(r.body.is_empty());
}

#[test]
fn internal_error_response_carries_the_page() {
    let r = RpgxResponse::make_internal_error();
    assert_eq!(r.status, 500);
    assert_eq!(r.body, INTERNAL_ERROR_PAGE.as_bytes().to_vec());
    assert!(String::from_utf8(r.body.clone()).unwrap().contains("<center><h1>500 Internal Server Error</h1></center>"));
    assert_eq!(r.headers.get(&"content-type".to_string()).unwrap(), "text/html; charset=utf-8");
}

#[test]
fn reasons_of_known_and_unknown_codes() {
    assert_eq!(RpgxResponse::new(200).get_reason(), "Ok");
    assert_eq!(RpgxResponse::new(404).get_reason(), "Not Found");
    assert_eq!(RpgxResponse::new(500).get_reason(), "Internal Server Error");
    assert_eq!(RpgxResponse::new(401).get_reason(), "Unknown");
    assert_eq!(reason_for(302), "Unknown");
}

#[test]
fn not_found_response_bytes() {
    let bytes = RpgxResponse::new(404).to_bytes();
    assert_eq!(
        bytes,
        b"HTTP/1.1 404 Not Found\r\ncontent-type:text/html; charset=utf-8\r\n\r\n".to_vec()
    );
}

#[test]
fn unauthorized_response_bytes_use_unknown_reason() {
    let bytes = RpgxResponse::new(401).to_bytes();
    assert_eq!(
        bytes,
        b"HTTP/1.1 401 Unknown\r\ncontent-type:text/html; charset=utf-8\r\n\r\n".to_vec()
    );
}

#[test]
fn internal_error_bytes_end_with_the_page() {
    let bytes = RpgxResponse::make_internal_error().to_bytes();
    let head = b"HTTP/1.1 500 Internal Server Error\r\ncontent-type:text/html; charset=utf-8\r\n\r\n";
    assert_eq!(&bytes[..head.len()], &head[..]);
    assert_eq!(&bytes[head.len()..], INTERNAL_ERROR_PAGE.as_bytes());
}

#[test]
fn response_without_headers_still_ends_head_with_empty_line() {
    let mut r = RpgxResponse::new(200);
    r.headers = rpgx::str_map::StrMap::new();
    r.body = b"hello".to_vec();
    assert_eq!(r.to_bytes(), b"HTTP/1.1 200 Ok\r\n\r\nhello".to_vec());
}

#[test]
fn response_headers_in_insertion_order_with_non_ascii_value() {
    let mut r = RpgxResponse::new(200);
    r.headers.insert("x-name".to_string(), "caf\u{e9}".to_string());
    r.headers.insert("content-type".to_string(), "text/plain".to_string());
    assert_eq!(
        r.to_bytes(),
        "HTTP/1.1 200 Ok\r\ncontent-type:text/plain\r\nx-name:caf\u{e9}\r\n\r\n".as_bytes().to_vec()
    );
}

#[test]
fn status_code_reads_back_from_head() {
    for status in [0u32, 7, 10, 99, 100, 404, 65535, 4294967295] {
        let bytes = RpgxResponse::new(status).to_bytes();
        let text = String::from_utf8(bytes).unwrap();
        let rest = text.strip_prefix("HTTP/1.1 ").unwrap();
        let digits: String = rest.chars().take_while(|c| c.is_ascii_digit()).collect();
        assert_eq!(digits.parse::<u64>().unwrap(), status as u64);
        assert_eq!(rest.as_bytes()[digits.len()], b' ');
        assert!(text.ends_with("\r\n\r\n"));
    }
}

#[test]
fn decimal_numerals() {
    let mut s = String::from("n=");
    push_decimal(&mut s, 0);
    assert_eq!(s, "n=0");
    let mut s = String::new();
    push_decimal(&mut s, 1200);
    assert_eq!(s, "1200");
    let mut s = String::new();
    push_decimal(&mut s, u32::MAX);
    assert_eq!(s, "4294967295");
}

#[test]
fn upstream_response_matches_proxy_response() {
    let a = UpstreamResponse::new(404);
    assert_eq!(a.status, 404u16);
    assert_eq!(a.get_reason(), "Not Found");
    assert_eq!(a.to_bytes(), RpgxResponse::new(404).to_bytes());
    let e = UpstreamResponse::make_internal_error();
    assert_eq!(e.status, 500u16);
    assert_eq!(e.to_bytes(), RpgxResponse::make_internal_error().to_bytes());
}

//! Responses: the default HTML responses and their wire form.

use vstd::prelude::*;
use vstd::slice::slice_to_vec;
use vstd::utf8::encode_utf8;

use crate::str_map::{keys_distinct, StrMap};
use crate::text::{reason_for, reason_phrase, response_bytes, text_entries, write_response};

verus! {

/// The page sent with an internal server error.
pub const INTERNAL_ERROR_PAGE: &'static str = "\n            <html>\n                <head><title>500 Not Found</title></head>\n                <body bgcolor=\"white\">\n                    <center><h1>500 Internal Server Error</h1></center>\n                    <hr/>\n                </body>\n            </html>\n        ";

/// A response as plain values: status, header entries in order, body.
pub struct ResponseView {
    pub status: nat,
    pub headers: Seq<(Seq<char>, Seq<char>)>,
    pub body: Seq<u8>,
}

/// The single header of the default responses.
pub open spec fn html_header_entries() -> Seq<(Seq<char>, Seq<char>)> {
    seq![("content-type"@, "text/html; charset=utf-8"@)]
}

/// A default response: HTML content type and an empty body.
pub open spec fn html_response(status: nat) -> ResponseView {
    ResponseView { status, headers: html_header_entries(), body: Seq::empty() }
}

/// The internal server error response.
pub open spec fn internal_error_response() -> ResponseView {
    ResponseView {
        status: 500,
        headers: html_header_entries(),
        body: encode_utf8(INTERNAL_ERROR_PAGE@),
    }
}

/// The bytes that go on the wire for a response.
pub open spec fn wire_bytes(r: ResponseView) -> Seq<u8> {
    response_bytes(r.status, r.headers, r.body)
}

/// The header map of the default responses.
pub fn html_headers() -> (m: StrMap<String>)
    ensures
        text_entries(m.entry_seq()) == html_header_entries(),
        keys_distinct(m.entry_seq()),
{
    let mut m: StrMap<String> = StrMap::new();
    let k = String::from_str("content-type");
    let v = String::from_str("text/html; charset=utf-8");
    m.insert(k, v);
    assert(text_entries(m.entry_seq()) =~= html_header_entries());
    m
}

/// The bytes of the internal server error page.
pub fn internal_error_body() -> (b: Vec<u8>)
    ensures
        b@ == encode_utf8(INTERNAL_ERROR_PAGE@),
{
    slice_to_vec(INTERNAL_ERROR_PAGE.as_bytes())
}

/// A response received from upstream, or one made here.
pub struct RpgxResponse {
    pub status: u16,
    pub headers: StrMap<String>,
    pub body: Vec<u8>,
}

impl View for RpgxResponse {
    type V = ResponseView;

    open spec fn view(&self) -> ResponseView {
        ResponseView {
            status: self.status as nat,
            headers: text_entries(self.headers.entry_seq()),
            body: self.body@,
        }
    }
}

impl RpgxResponse {
    /// A response with `status`, the HTML content type and an empty body.
    pub fn new(status: u16) -> (r: Self)
        ensures
            r.status == status,
            r@ == html_response(status as nat),
            keys_distinct(r.headers.entry_seq()),
    {
        RpgxResponse { status, headers: html_headers(), body: Vec::new() }
    }

    /// The internal server error response: status 500, the HTML content type
    /// and the error page.
    pub fn make_internal_error() -> (r: Self)
        ensures
            r.status == 500,
            r@ == internal_error_response(),
            keys_distinct(r.headers.entry_seq()),
    {
        RpgxResponse { status: 500, headers: html_headers(), body: internal_error_body() }
    }

    /// The reason phrase of the status.
    pub fn get_reason(&self) -> (r: String)
        ensures
            r@ == reason_phrase(self.status as int),
    {
        reason_for(self.status as u32)
    }

    /// The bytes sent for this response: status line, header lines, an empty
    /// line, then the body.
    pub fn to_bytes(&self) -> (r: Vec<u8>)
        ensures
            r@ == wire_bytes(self@),
    {
        write_response(self.status as u32, &self.headers, &self.body)
    }
}

/// A default response keeps the status it was made for, has the single
/// header `content-type: text/html; charset=utf-8`, and has an empty body,
/// whatever the status; only the internal error response carries the error
/// page, and that page is not empty.
pub proof fn lemma_default_responses(status: nat)
    ensures
        html_response(status).status == status,
        html_response(status).headers == seq![("content-type"@, "text/html; charset=utf-8"@)],
        html_response(status).body.len() == 0,
        internal_error_response().status == 500,
        internal_error_response().headers == html_response(status).headers,
        internal_error_response().body.len() > 0,
        vstd::utf8::decode_utf8(internal_error_response().body) == INTERNAL_ERROR_PAGE@,
{
    reveal_strlit("\n            <html>\n                <head><title>500 Not Found</title></head>\n                <body bgcolor=\"white\">\n                    <center><h1>500 Internal Server Error</h1></center>\n                    <hr/>\n                </body>\n            </html>\n        ");
    vstd::utf8::encode_utf8_decode_utf8(INTERNAL_ERROR_PAGE@);
    assert(INTERNAL_ERROR_PAGE@.len() > 0);
    let e = encode_utf8(INTERNAL_ERROR_PAGE@);
    if e.len() == 0 {
        assert(vstd::utf8::decode_utf8(e) =~= Seq::<char>::empty());
    }
}

} // verus!

//! The heads of HTTP messages as the `httparse` crate reads them, held as
//! plain values, and the calls that read them.

use vstd::prelude::*;

verus! {

/// Room for header lines given to the parser: a head with more header lines
/// than this is refused.
pub const MAX_HEADERS: usize = 64;

/// The request line of a request head, as read.
pub struct RequestHead {
    /// Offset of the first byte after the head.
    pub body_offset: usize,
    /// The method, such as `GET`.
    pub method: Option<String>,
    /// The request target, such as `/about`.
    pub path: Option<String>,
    /// The minor version: `1` for `HTTP/1.1`.
    pub version: Option<u8>,
}

/// A request head taken by its characters.
pub struct RequestHeadView {
    pub body_offset: usize,
    pub method: Option<Seq<char>>,
    pub path: Option<Seq<char>>,
    pub version: Option<u8>,
}

/// The outcome of reading a request head.
pub enum RequestParse {
    /// The whole head was read.
    Complete(RequestHead),
    /// The bytes end before the head does.
    Partial,
    /// The bytes are not a request head; the text says why.
    Invalid(String),
}

/// The outcome of reading a request head, taken by its characters.
pub enum RequestParseView {
    Complete(RequestHeadView),
    Partial,
    Invalid(Seq<char>),
}

/// The status line and header lines of a response head, as read.
pub struct ResponseHead {
    /// Offset of the first byte after the head.
    pub body_offset: usize,
    /// The status code, such as `200`.
    pub code: Option<u16>,
    /// The header lines in order: name and raw value bytes.
    pub headers: Vec<(String, Vec<u8>)>,
}

/// A response head taken by its characters and bytes.
pub struct ResponseHeadView {
    pub body_offset: usize,
    pub code: Option<u16>,
    pub headers: Seq<(Seq<char>, Seq<u8>)>,
}

/// The outcome of reading a response head.
pub enum ResponseParse {
    /// The whole head was read.
    Complete(ResponseHead),
    /// The bytes end before the head does.
    Partial,
    /// The bytes are not a response head; the text says why.
    Invalid(String),
}

/// The outcome of reading a response head, taken by its characters and bytes.
pub enum ResponseParseView {
    Complete(ResponseHeadView),
    Partial,
    Invalid(Seq<char>),
}

impl View for RequestHead {
    type V = RequestHeadView;

    open spec fn view(&self) -> RequestHeadView {
        RequestHeadView {
            body_offset: self.body_offset,
            method: match self.method {
                Some(m) => Some(m@),
                None => None,
            },
            path: match self.path {
                Some(p) => Some(p@),
                None => None,
            },
            version: self.version,
        }
    }
}

impl View for RequestParse {
    type V = RequestParseView;

    open spec fn view(&self) -> RequestParseView {
        match self {
            RequestParse::Complete(h) => RequestParseView::Complete(h@),
            RequestParse::Partial => RequestParseView::Partial,
            RequestParse::Invalid(e) => RequestParseView::Invalid(e@),
        }
    }
}

/// Header lines taken by their characters and bytes.
pub open spec fn header_fields_view(hs: Seq<(String, Vec<u8>)>) -> Seq<(Seq<char>, Seq<u8>)> {
    hs.map_values(|h: (String, Vec<u8>)| (h.0@, h.1@))
}

impl View for ResponseHead {
    type V = ResponseHeadView;

    open spec fn view(&self) -> ResponseHeadView {
        ResponseHeadView {
            body_offset: self.body_offset,
            code: self.code,
            headers: header_fields_view(self.headers@),
        }
    }
}

impl View for ResponseParse {
    type V = ResponseParseView;

    open spec fn view(&self) -> ResponseParseView {
        match self {
            ResponseParse::Complete(h) => ResponseParseView::Complete(h@),
            ResponseParse::Partial => ResponseParseView::Partial,
            ResponseParse::Invalid(e) => ResponseParseView::Invalid(e@),
        }
    }
}

/// What `httparse::Request::parse` makes of `buf` when given room for
/// `max_headers` header lines.
pub uninterp spec fn httparse_request(buf: Seq<u8>, max_headers: nat) -> RequestParseView;

/// What `httparse::Response::parse` makes of `buf` when given room for
/// `max_headers` header lines.
pub uninterp spec fn httparse_response(buf: Seq<u8>, max_headers: nat) -> ResponseParseView;

/// Reads a request head with `httparse::Request::parse`, with room for
/// `max_headers` header lines. Trusted: the outcome is the one that
/// `httparse_request` names for these arguments, and, as the crate's source
/// shows, a complete head has its method, target and version set and ends
/// within `buf`. Nothing is said here of how the request grammar is read.
#[verifier::external_body]
pub(crate) fn read_request_head(buf: &[u8], max_headers: usize) -> (r: RequestParse)
    ensures
        r@ == httparse_request(buf@, max_headers as nat),
        r matches RequestParse::Complete(h) ==> h.body_offset <= buf@.len() && h.method is Some
            && h.path is Some && h.version is Some,
{
    let mut slots = vec![httparse::EMPTY_HEADER; max_headers];
    let mut req = httparse::Request::new(&mut slots);
    match req.parse(buf) {
        Ok(httparse::Status::Complete(n)) => RequestParse::Complete(RequestHead {
            body_offset: n,
            method: req.method.map(|m| m.to_string()),
            path: req.path.map(|p| p.to_string()),
            version: req.version,
        }),
        Ok(httparse::Status::Partial) => RequestParse::Partial,
        Err(e) => RequestParse::Invalid(e.to_string()),
    }
}

/// Reads a response head with `httparse::Response::parse`, with room for
/// `max_headers` header lines. Trusted: the outcome is the one that
/// `httparse_response` names for these arguments, and, as the crate's source
/// shows, a complete head has its status code set, ends within `buf`, and
/// holds no more header lines than there was room for. Nothing is said here
/// of how the response grammar is read.
#[verifier::external_body]
pub(crate) fn read_response_head(buf: &[u8], max_headers: usize) -> (r: ResponseParse)
    ensures
        r@ == httparse_response(buf@, max_headers as nat),
        r matches ResponseParse::Complete(h) ==> h.body_offset <= buf@.len() && h.code is Some
            && h.headers@.len() <= max_headers,
{
    let mut slots = vec![httparse::EMPTY_HEADER; max_headers];
    let mut res = httparse::Response::new(&mut slots);
    match res.parse(buf) {
        Ok(httparse::Status::Complete(n)) => ResponseParse::Complete(ResponseHead {
            body_offset: n,
            code: res.code,
            headers: res.headers.iter().map(|h| (h.name.to_string(), h.value.to_vec())).collect(),
        }),
        Ok(httparse::Status::Partial) => ResponseParse::Partial,
        Err(e) => ResponseParse::Invalid(e.to_string()),
    }
}

} // verus!

//! The proxy front: how an incoming request is answered, and the responses
//! it sends.

use vstd::prelude::*;

use crate::config::Config;
use crate::http::res::{
    html_headers, html_response, internal_error_body, internal_error_response, wire_bytes,
    ResponseView,
};
use crate::str_map::keys_distinct;
use crate::str_map::StrMap;
use crate::text::{reason_for, reason_phrase, text_entries, write_response};
use crate::wire::{httparse_request, read_request_head, RequestParse, RequestParseView, MAX_HEADERS};

verus! {

/// A response sent by the proxy to a client.
pub struct RpgxResponse {
    pub status: u32,
    pub headers: StrMap<String>,
    pub body: Vec<u8>,
}

impl View for RpgxResponse {
    type V = ResponseView;

    open spec fn view(&self) -> ResponseView {
        ResponseView {
            status: self.status as nat,
            headers: text_entries(self.headers.entry_seq()),
            body: self.body@,
        }
    }
}

impl RpgxResponse {
    /// A response with `status`, the HTML content type and an empty body.
    pub fn new(status: u32) -> (r: Self)
        ensures
            r.status == status,
            r@ == html_response(status as nat),
            keys_distinct(r.headers.entry_seq()),
    {
        RpgxResponse { status, headers: html_headers(), body: Vec::new() }
    }

    /// The internal server error response: status 500, the HTML content type
    /// and the error page.
    pub fn make_internal_error() -> (r: Self)
        ensures
            r.status == 500,
            r@ == internal_error_response(),
            keys_distinct(r.headers.entry_seq()),
    {
        RpgxResponse { status: 500, headers: html_headers(), body: internal_error_body() }
    }

    /// The reason phrase of the status.
    pub fn get_reason(&self) -> (r: String)
        ensures
            r@ == reason_phrase(self.status as int),
    {
        reason_for(self.status)
    }

    /// The bytes sent for this response: status line, header lines, an empty
    /// line, then the body.
    pub fn to_bytes(&self) -> (r: Vec<u8>)
        ensures
            r@ == wire_bytes(self@),
    {
        write_response(self.status, &self.headers, &self.body)
    }
}

/// What to do with an incoming connection after reading a request.
pub enum HandlerAction {
    /// Send nothing and close; the text says why the request was refused.
    Ignore(String),
    /// Send this response and close.
    Reply(RpgxResponse),
}

/// An action taken by its plain values.
pub enum ActionView {
    Ignore(Seq<char>),
    Reply(ResponseView),
}

impl View for HandlerAction {
    type V = ActionView;

    open spec fn view(&self) -> ActionView {
        match self {
            HandlerAction::Ignore(m) => ActionView::Ignore(m@),
            HandlerAction::Reply(r) => ActionView::Reply(r@),
        }
    }
}

/// How a request read as `parsed` is answered, given the served paths:
/// an unreadable request gets no answer, an incomplete one the internal
/// error page, a path that is not served `404`, and a served path `401`.
pub open spec fn request_decision(served: Set<Seq<char>>, parsed: RequestParseView) -> ActionView {
    match parsed {
        RequestParseView::Invalid(m) => ActionView::Ignore(m),
        RequestParseView::Partial => ActionView::Reply(internal_error_response()),
        RequestParseView::Complete(h) => ActionView::Reply(
            html_response(
                if served.contains(h.path.unwrap()) {
                    401
                } else {
                    404
                },
            ),
        ),
    }
}

/// The proxy server with its configuration.
pub struct ProxyServer {
    pub config: Config,
}

impl ProxyServer {
    /// A server with `config`.
    pub fn new(config: Config) -> (s: Self)
        ensures
            s.config == config,
    {
        ProxyServer { config }
    }

    /// Answers a request read as `parsed`.
    pub fn decide(&self, parsed: &RequestParse) -> (a: HandlerAction)
        requires
            parsed matches RequestParse::Complete(h) ==> h.path is Some,
        ensures
            a@ == request_decision(self.config.location@.dom(), parsed@),
    {
        match parsed {
            RequestParse::Invalid(m) => HandlerAction::Ignore(m.clone()),
            RequestParse::Partial => HandlerAction::Reply(RpgxResponse::make_internal_error()),
            RequestParse::Complete(h) => {
                let path = h.path.as_ref().unwrap();
                let status: u32 = match self.config.location.get(path) {
                    Some(_) => 401,
                    None => 404,
                };
                HandlerAction::Reply(RpgxResponse::new(status))
            },
        }
    }

    /// Answers the bytes `data` read from a client: they are read as a
    /// request head with room for `MAX_HEADERS` header lines, and the
    /// outcome is answered as `decide` does.
    pub fn request_handler(&self, data: &[u8]) -> (a: HandlerAction)
        ensures
            a@ == request_decision(
                self.config.location@.dom(),
                httparse_request(data@, MAX_HEADERS as nat),
            ),
    {
        let parsed = read_request_head(data, MAX_HEADERS);
        self.decide(&parsed)
    }
}

/// A complete request is answered by its path alone: whatever its method,
/// version and head length, a configured path gets a reply with status 401
/// and any other path a reply with status 404, each with the single header
/// `content-type: text/html; charset=utf-8` and an empty body. Two complete
/// requests with the same path get the same answer.
pub proof fn lemma_routing_by_path(
    served: Set<Seq<char>>,
    h1: crate::wire::RequestHeadView,
    h2: crate::wire::RequestHeadView,
)
    requires
        h1.path is Some,
        h2.path == h1.path,
    ensures
        ({
            let p = h1.path.unwrap();
            match request_decision(served, RequestParseView::Complete(h1)) {
                ActionView::Reply(r) => {
                    &&& (served.contains(p) ==> r.status == 401)
                    &&& (!served.contains(p) ==> r.status == 404)
                    &&& r.headers == seq![("content-type"@, "text/html; charset=utf-8"@)]
                    &&& r.body.len() == 0
                },
                ActionView::Ignore(_) => false,
            }
        }),
        request_decision(served, RequestParseView::Complete(h1)) == request_decision(
            served,
            RequestParseView::Complete(h2),
        ),
{
}

} // verus!

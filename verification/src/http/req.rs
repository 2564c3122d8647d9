//! Requests sent upstream and their text form.

use vstd::prelude::*;

use crate::str_map::StrMap;
use crate::text::{header_lines, push_header_lines, text_entries};

verus! {

/// What `url::Url::parse` makes of `input`: on success the URL's
/// serialization and its path, otherwise the error's message.
pub uninterp spec fn url_parse(input: Seq<char>) -> Result<(Seq<char>, Seq<char>), Seq<char>>;

/// An absolute URL, held as its serialization and its path.
pub struct RequestUrl {
    serialization: String,
    path: String,
}

impl View for RequestUrl {
    type V = (Seq<char>, Seq<char>);

    closed spec fn view(&self) -> (Seq<char>, Seq<char>) {
        (self.serialization@, self.path@)
    }
}

/// Parses `input` with `url::Url::parse` and keeps the URL's serialization
/// (`Url::as_str`) and path (`Url::path`), or the error's message. Trusted:
/// the outcome is the one that `url_parse` names for `input`; nothing is
/// said here of the URL grammar.
#[verifier::external_body]
fn parse_url(input: &str) -> (r: Result<RequestUrl, String>)
    ensures
        match r {
            Ok(u) => url_parse(input@) == Ok::<(Seq<char>, Seq<char>), Seq<char>>(u@),
            Err(e) => url_parse(input@) == Err::<(Seq<char>, Seq<char>), Seq<char>>(e@),
        },
{
    match url::Url::parse(input) {
        Ok(u) => Ok(RequestUrl { serialization: u.as_str().to_string(), path: u.path().to_string() }),
        Err(e) => Err(e.to_string()),
    }
}

impl RequestUrl {
    /// Parses an absolute URL; the error is the parser's message.
    pub fn parse(input: &str) -> (r: Result<RequestUrl, String>)
        ensures
            match r {
                Ok(u) => url_parse(input@) == Ok::<(Seq<char>, Seq<char>), Seq<char>>(u@),
                Err(e) => url_parse(input@) == Err::<(Seq<char>, Seq<char>), Seq<char>>(e@),
            },
    {
        parse_url(input)
    }

    /// The URL as a string.
    pub fn as_str(&self) -> (r: &str)
        ensures
            r@ == self@.0,
    {
        self.serialization.as_str()
    }

    /// The path of the URL.
    pub fn path(&self) -> (r: &str)
        ensures
            r@ == self@.1,
    {
        self.path.as_str()
    }
}

/// The text of a request head: the request line, a line break, the header
/// lines, a line break, and an empty line.
pub open spec fn request_text(
    method: Seq<char>,
    path: Seq<char>,
    headers: Seq<(Seq<char>, Seq<char>)>,
) -> Seq<char> {
    method + " "@ + path + " HTTP/1.1"@ + "\r\n"@ + header_lines(headers) + "\r\n"@ + "\r\n"@
}

/// A request to send upstream.
pub struct RpgxRequest {
    pub url: RequestUrl,
    pub method: String,
    pub headers: StrMap<String>,
    pub body: Vec<u8>,
}

impl RpgxRequest {
    /// The head of this request as text: `METHOD path HTTP/1.1`, then the
    /// header lines in entry order, then an empty line.
    pub fn to_vec(&self) -> (r: String)
        ensures
            r@ == request_text(self.method@, self.url@.1, text_entries(self.headers.entry_seq())),
    {
        let mut out = String::new();
        out.append(self.method.as_str());
        out.append(" ");
        out.append(self.url.path());
        out.append(" HTTP/1.1");
        out.append("\r\n");
        push_header_lines(&mut out, &self.headers);
        out.append("\r\n");
        out.append("\r\n");
        proof {
            let es = text_entries(self.headers.entry_seq());
            assert(out@ =~= request_text(self.method@, self.url@.1, es));
        }
        out
    }
}

/// A request head starts with its method and a space, and ends with a line
/// break followed by an empty line.
pub proof fn lemma_request_framing(
    method: Seq<char>,
    path: Seq<char>,
    headers: Seq<(Seq<char>, Seq<char>)>,
)
    ensures
        request_text(method, path, headers).len() >= method.len() + 1 + 4,
        request_text(method, path, headers).subrange(0, method.len() as int) == method,
        request_text(method, path, headers)[method.len() as int] == ' ',
        request_text(method, path, headers).subrange(
            request_text(method, path, headers).len() - 4,
            request_text(method, path, headers).len() as int,
        ) == "\r\n\r\n"@,
{
    reveal_strlit(" ");
    reveal_strlit("\r\n");
    reveal_strlit("\r\n\r\n");
    let t = request_text(method, path, headers);
    let n = t.len();
    assert(t.subrange(0, method.len() as int) =~= method);
    assert(t.subrange(n - 4, n as int) =~= "\r\n\r\n"@);
}

/// The request line carries the path exactly: after the method and one
/// space come all the characters of the path, unchanged, and then
/// ` HTTP/1.1` and a line break.
pub proof fn lemma_request_line_path(
    method: Seq<char>,
    path: Seq<char>,
    headers: Seq<(Seq<char>, Seq<char>)>,
)
    ensures
        ({
            let t = request_text(method, path, headers);
            let start = method.len() + 1;
            let end = start + path.len();
            &&& t.len() >= end + 11
            &&& t.subrange(start as int, end as int) == path
            &&& t.subrange(end as int, end + 11int) == " HTTP/1.1\r\n"@
        }),
{
    reveal_strlit(" ");
    reveal_strlit(" HTTP/1.1");
    reveal_strlit("\r\n");
    reveal_strlit(" HTTP/1.1\r\n");
    let t = request_text(method, path, headers);
    let start = method.len() + 1;
    let end = start + path.len();
    assert(t.subrange(start as int, end as int) =~= path);
    assert(t.subrange(end as int, end + 11int) =~= " HTTP/1.1\r\n"@);
}

} // verus!

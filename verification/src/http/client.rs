//! Reading the reply of an upstream server into a response.

use vstd::prelude::*;
use vstd::slice::slice_to_vec;
use vstd::utf8::{decode_utf8, valid_utf8};

use crate::http::res::{ResponseView, RpgxResponse};
use crate::str_map::{insert_each, keys_distinct, StrMap};
use crate::text::{lemma_text_entries_insert, text_entries};
use crate::wire::{
    httparse_response, read_response_head, ResponseHeadView, ResponseParse, ResponseParseView,
    MAX_HEADERS,
};

verus! {

/// What `String::from_utf8_lossy` makes of `bytes`.
pub uninterp spec fn utf8_lossy(bytes: Seq<u8>) -> Seq<char>;

/// Decodes `bytes` as UTF-8 with `String::from_utf8_lossy`, replacing what is
/// not UTF-8. Trusted: the text is the one that `utf8_lossy` names for
/// `bytes`, and, as std documents, valid UTF-8 is decoded unchanged. How
/// invalid sequences are replaced is not stated here.
#[verifier::external_body]
fn lossy_string(bytes: &[u8]) -> (r: String)
    ensures
        r@ == utf8_lossy(bytes@),
        valid_utf8(bytes@) ==> r@ == decode_utf8(bytes@),
{
    String::from_utf8_lossy(bytes).into_owned()
}

/// How a header value is decoded: valid UTF-8 as it is, anything else
/// leniently, with replacement characters.
pub open spec fn header_value_text(v: Seq<u8>) -> Seq<char> {
    if valid_utf8(v) {
        decode_utf8(v)
    } else {
        utf8_lossy(v)
    }
}

/// The name and value pairs that reading a reply stores as headers: one per
/// header slot, the read header lines first (values decoded as
/// `header_value_text` says) and then an empty name and value for each slot
/// left over.
pub open spec fn header_slots(hs: Seq<(Seq<char>, Seq<u8>)>, slots: nat) -> Seq<
    (Seq<char>, Seq<char>),
> {
    let n = if hs.len() >= slots {
        hs.len()
    } else {
        slots
    };
    Seq::new(
        n,
        |i: int|
            if i < hs.len() {
                (hs[i].0, header_value_text(hs[i].1))
            } else {
                (Seq::<char>::empty(), Seq::<char>::empty())
            },
    )
}

/// The response read from a reply `buffer` whose head was read as `head`:
/// none unless the head is complete with a status code; otherwise that
/// status, the headers of all header slots inserted in order, and the whole
/// buffer as body.
pub open spec fn response_from_head(head: ResponseParseView, buffer: Seq<u8>) -> Option<
    ResponseView,
> {
    match head {
        ResponseParseView::Complete(h) => match h.code {
            Some(c) => Some(
                ResponseView {
                    status: c as nat,
                    headers: insert_each(
                        Seq::empty(),
                        header_slots(h.headers, MAX_HEADERS as nat),
                    ),
                    body: buffer,
                },
            ),
            None => None,
        },
        _ => None,
    }
}

/// An error of the client, with its message.
pub struct HttpClientError {
    message: String,
}

impl View for HttpClientError {
    type V = Seq<char>;

    closed spec fn view(&self) -> Seq<char> {
        self.message@
    }
}

impl HttpClientError {
    /// An error with `message`.
    pub fn new(message: String) -> (r: Self)
        ensures
            r@ == message@,
    {
        HttpClientError { message }
    }

    /// The message of the error.
    pub fn message(&self) -> (r: &String)
        ensures
            r@ == self@,
    {
        &self.message
    }
}

/// A client that sends requests upstream and reads the replies.
pub struct HttpClient {}

impl HttpClient {
    /// A client.
    pub fn new() -> Self {
        HttpClient {  }
    }

    /// The response made from a reply `buffer` whose head was read as
    /// `parsed`.
    pub fn response_from_head(&self, buffer: &[u8], parsed: &ResponseParse) -> (r: Option<
        RpgxResponse,
    >)
        ensures
            match r {
                Some(resp) => response_from_head(parsed@, buffer@) == Some(resp@),
                None => response_from_head(parsed@, buffer@) is None,
            },
    {
        match parsed {
            ResponseParse::Complete(h) => {
                match h.code {
                    Some(code) => {
                        let len = h.headers.len();
                        let n = if len >= MAX_HEADERS {
                            len
                        } else {
                            MAX_HEADERS
                        };
                        let ghost slots = header_slots(h@.headers, MAX_HEADERS as nat);
                        let mut headers: StrMap<String> = StrMap::new();
                        assert(slots.take(0) =~= Seq::<(Seq<char>, Seq<char>)>::empty());
                        assert(text_entries(headers.entry_seq()) =~= Seq::<
                            (Seq<char>, Seq<char>),
                        >::empty());
                        let mut i: usize = 0;
                        while i < n
                            invariant
                                i <= n,
                                n == slots.len(),
                                len == h.headers@.len(),
                                slots == header_slots(h@.headers, MAX_HEADERS as nat),
                                keys_distinct(headers.entry_seq()),
                                text_entries(headers.entry_seq()) == insert_each(
                                    Seq::empty(),
                                    slots.take(i as int),
                                ),
                            decreases n - i,
                        {
                            let name: String;
                            let value: String;
                            if i < len {
                                name = h.headers[i].0.clone();
                                value = lossy_string(h.headers[i].1.as_slice());
                            } else {
                                name = String::new();
                                value = String::new();
                            }
                            assert((name@, value@) == slots[i as int]);
                            proof {
                                lemma_text_entries_insert(headers.entry_seq(), name@, value);
                                assert(slots.take(i + 1).drop_last() =~= slots.take(i as int));
                            }
                            headers.insert(name, value);
                            i = i + 1;
                        }
                        assert(slots.take(n as int) =~= slots);
                        Some(RpgxResponse { status: code, headers, body: slice_to_vec(buffer) })
                    },
                    None => None,
                }
            },
            _ => None,
        }
    }

    /// Reads a reply of an upstream server: its head is read with room for
    /// `MAX_HEADERS` header lines, and a complete head gives a response with
    /// its status, the headers of all header slots, and the whole reply as
    /// body.
    pub fn read_response(&self, buffer: &[u8]) -> (r: Option<RpgxResponse>)
        ensures
            httparse_response(buffer@, MAX_HEADERS as nat) is Complete ==> r is Some,
            match r {
                Some(resp) => response_from_head(
                    httparse_response(buffer@, MAX_HEADERS as nat),
                    buffer@,
                ) == Some(resp@),
                None => response_from_head(
                    httparse_response(buffer@, MAX_HEADERS as nat),
                    buffer@,
                ) is None,
            },
    {
        let parsed = read_response_head(buffer, MAX_HEADERS);
        self.response_from_head(buffer, &parsed)
    }
}

/// A header line read from a reply is kept whole: when its name is not empty
/// and no later header line has the same name, the response has that name
/// as a header, and where the value bytes are valid UTF-8 the stored value
/// is their text, encoding back to exactly those bytes; the response keeps
/// the status code and the whole buffer.
pub proof fn lemma_reply_header_kept(h: ResponseHeadView, buffer: Seq<u8>, i: int)
    requires
        h.code is Some,
        0 <= i < h.headers.len(),
        h.headers[i].0.len() > 0,
        forall|j: int| i < j < h.headers.len() ==> h.headers[j].0 != h.headers[i].0,
    ensures
        response_from_head(ResponseParseView::Complete(h), buffer) matches Some(r) && {
            let m = crate::str_map::entries_to_map(r.headers);
            &&& r.status == h.code.unwrap()
            &&& r.body == buffer
            &&& m.contains_key(h.headers[i].0)
            &&& valid_utf8(h.headers[i].1) ==> m[h.headers[i].0] == decode_utf8(h.headers[i].1)
                && vstd::utf8::encode_utf8(m[h.headers[i].0]) == h.headers[i].1
        },
{
    let slots = header_slots(h.headers, MAX_HEADERS as nat);
    crate::str_map::lemma_insert_each_map(slots);
    assert forall|j: int| i < j < slots.len() implies slots[j].0 != slots[i].0 by {
        if j < h.headers.len() {
        } else {
            assert(slots[j].0 == Seq::<char>::empty());
        }
    }
    crate::str_map::lemma_last_entry_wins(slots, i);
    if valid_utf8(h.headers[i].1) {
        vstd::utf8::decode_utf8_encode_utf8(h.headers[i].1);
    }
}

} // verus!

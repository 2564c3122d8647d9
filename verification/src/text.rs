//! Text building blocks: decimal numerals, status reason phrases and the
//! `name:value` header block shared by requests and responses.

use vstd::prelude::*;
use vstd::slice::slice_to_vec;
use vstd::utf8::encode_utf8;

use crate::str_map::{entries_after_insert, has_key, keys_distinct, StrMap};

verus! {

/// The ASCII decimal digits, indexed by their value.
pub open spec fn digit_chars() -> Seq<char> {
    seq!['0', '1', '2', '3', '4', '5', '6', '7', '8', '9']
}

/// The character for a digit value below ten.
pub open spec fn digit_char(d: nat) -> char {
    digit_chars()[d as int]
}

/// The decimal numeral of `n`, most significant digit first, without
/// leading zeros (zero is written `0`).
pub open spec fn decimal(n: nat) -> Seq<char>
    decreases n,
{
    if n < 10 {
        seq![digit_char(n)]
    } else {
        decimal(n / 10).push(digit_char(n % 10))
    }
}

/// The value of a digit character (its distance from `'0'`).
pub open spec fn digit_value(c: char) -> int {
    (c as int) - ('0' as int)
}

/// Whether `c` is one of the ASCII decimal digits.
pub open spec fn is_digit(c: char) -> bool {
    '0' <= c && c <= '9'
}

/// The number that a string of decimal digits denotes.
pub open spec fn numeral_value(s: Seq<char>) -> int
    decreases s.len(),
{
    if s.len() == 0 {
        0
    } else {
        numeral_value(s.drop_last()) * 10 + digit_value(s.last())
    }
}

/// Reading back a decimal numeral gives the number that was written: every
/// character is a digit, the numeral is never empty, it starts with a
/// non-zero digit unless the number is zero, and its value is the number.
pub proof fn lemma_decimal_round_trip(n: nat)
    ensures
        decimal(n).len() >= 1,
        forall|i: int| 0 <= i < decimal(n).len() ==> is_digit(#[trigger] decimal(n)[i]),
        n > 0 ==> decimal(n)[0] != '0',
        numeral_value(decimal(n)) == n,
    decreases n,
{
    if n < 10 {
        let s = decimal(n);
        assert(s.drop_last() =~= Seq::<char>::empty());
        assert(numeral_value(s.drop_last()) == 0);
    } else {
        lemma_decimal_round_trip(n / 10);
        let s = decimal(n);
        let p = decimal(n / 10);
        assert(s.drop_last() =~= p);
        assert(n == (n / 10) * 10 + n % 10) by (nonlinear_arith);
        assert forall|i: int| 0 <= i < s.len() implies is_digit(#[trigger] s[i]) by {
            if i < p.len() {
                assert(s[i] == p[i]);
            }
        }
        assert(s[0] == p[0]);
    }
}

/// The string of one decimal digit.
fn digit_str(d: u32) -> (r: &'static str)
    requires
        d < 10,
    ensures
        r@ == seq![digit_char(d as nat)],
{
    proof {
        reveal_strlit("0");
        reveal_strlit("1");
        reveal_strlit("2");
        reveal_strlit("3");
        reveal_strlit("4");
        reveal_strlit("5");
        reveal_strlit("6");
        reveal_strlit("7");
        reveal_strlit("8");
        reveal_strlit("9");
    }
    if d == 0 {
        "0"
    } else if d == 1 {
        "1"
    } else if d == 2 {
        "2"
    } else if d == 3 {
        "3"
    } else if d == 4 {
        "4"
    } else if d == 5 {
        "5"
    } else if d == 6 {
        "6"
    } else if d == 7 {
        "7"
    } else if d == 8 {
        "8"
    } else {
        "9"
    }
}

/// Appends the decimal numeral of `n` to `out`.
pub fn push_decimal(out: &mut String, n: u32)
    ensures
        final(out)@ == old(out)@ + decimal(n as nat),
    decreases n,
{
    if n >= 10 {
        push_decimal(out, n / 10);
    }
    let d: u32 = n % 10;
    out.append(digit_str(d));
    proof {
        if n < 10 {
            assert(n % 10 == n);
        }
    }
}

/// The reason phrase that goes with a status code.
pub open spec fn reason_phrase(status: int) -> Seq<char> {
    if status == 200 {
        "Ok"@
    } else if status == 404 {
        "Not Found"@
    } else if status == 500 {
        "Internal Server Error"@
    } else {
        "Unknown"@
    }
}

/// The reason phrase for `status`.
pub fn reason_for(status: u32) -> (r: String)
    ensures
        r@ == reason_phrase(status as int),
{
    if status == 200 {
        String::from_str("Ok")
    } else if status == 404 {
        String::from_str("Not Found")
    } else if status == 500 {
        String::from_str("Internal Server Error")
    } else {
        String::from_str("Unknown")
    }
}

/// One header line: `name:value` and a line break.
pub open spec fn header_line(name: Seq<char>, value: Seq<char>) -> Seq<char> {
    name + ":"@ + value + "\r\n"@
}

/// The header lines of `entries`, in order.
pub open spec fn header_lines(entries: Seq<(Seq<char>, Seq<char>)>) -> Seq<char>
    decreases entries.len(),
{
    if entries.len() == 0 {
        Seq::empty()
    } else {
        header_lines(entries.drop_last()) + header_line(entries.last().0, entries.last().1)
    }
}

/// The entries of a map of strings, with values taken by their characters.
pub open spec fn text_entries(s: Seq<(Seq<char>, String)>) -> Seq<(Seq<char>, Seq<char>)> {
    s.map_values(|e: (Seq<char>, String)| (e.0, e.1@))
}

/// Appends one `name:value` line per entry of `headers`, in entry order.
pub fn push_header_lines(out: &mut String, headers: &StrMap<String>)
    ensures
        final(out)@ == old(out)@ + header_lines(text_entries(headers.entry_seq())),
{
    let ghost es = text_entries(headers.entry_seq());
    let n = headers.len();
    assert(es.take(0) =~= Seq::<(Seq<char>, Seq<char>)>::empty());
    let mut i: usize = 0;
    while i < n
        invariant
            i <= n,
            n == es.len(),
            es == text_entries(headers.entry_seq()),
            out@ == old(out)@ + header_lines(es.take(i as int)),
        decreases n - i,
    {
        let (name, value) = headers.get_index(i);
        out.append(name.as_str());
        out.append(":");
        out.append(value.as_str());
        out.append("\r\n");
        proof {
            assert(es.take(i + 1).drop_last() =~= es.take(i as int));
            assert(es.take(i + 1).last() == es[i as int]);
        }
        i = i + 1;
    }
    assert(es.take(n as int) =~= es);
}

/// The status line of a response: version, code, reason and a line break.
pub open spec fn status_line(status: nat) -> Seq<char> {
    "HTTP/1.1 "@ + decimal(status) + " "@ + reason_phrase(status as int) + "\r\n"@
}

/// The head of a response: status line, header lines and an empty line.
pub open spec fn response_head(status: nat, headers: Seq<(Seq<char>, Seq<char>)>) -> Seq<char> {
    status_line(status) + header_lines(headers) + "\r\n"@
}

/// The bytes of a response with the given status, headers and body: the
/// UTF-8 encoding of its head followed by the body.
pub open spec fn response_bytes(status: nat, headers: Seq<(Seq<char>, Seq<char>)>, body: Seq<u8>) -> Seq<u8> {
    encode_utf8(response_head(status, headers)) + body
}

/// Writes out a response as it goes on the wire.
pub fn write_response(status: u32, headers: &StrMap<String>, body: &Vec<u8>) -> (r: Vec<u8>)
    ensures
        r@ == response_bytes(status as nat, text_entries(headers.entry_seq()), body@),
{
    let mut head = String::new();
    head.append("HTTP/1.1 ");
    push_decimal(&mut head, status);
    head.append(" ");
    let reason = reason_for(status);
    head.append(reason.as_str());
    head.append("\r\n");
    push_header_lines(&mut head, headers);
    head.append("\r\n");
    assert(head@ =~= response_head(status as nat, text_entries(headers.entry_seq())));
    let mut out = slice_to_vec(head.as_str().as_bytes());
    let mut tail = slice_to_vec(body.as_slice());
    out.append(&mut tail);
    out
}

/// Taking values by their characters commutes with inserting into entries
/// whose keys are distinct.
pub proof fn lemma_text_entries_insert(s: Seq<(Seq<char>, String)>, k: Seq<char>, v: String)
    requires
        keys_distinct(s),
    ensures
        keys_distinct(text_entries(s)),
        text_entries(entries_after_insert(s, k, v)) == entries_after_insert(
            text_entries(s),
            k,
            v@,
        ),
{
    let t = text_entries(s);
    assert(keys_distinct(t)) by {
        assert forall|i: int, j: int| 0 <= i < j < t.len() implies #[trigger] t[i].0
            != #[trigger] t[j].0 by {
            assert(t[i].0 == s[i].0 && t[j].0 == s[j].0);
        }
    }
    if has_key(s, k) {
        let ws = choose|i: int| 0 <= i < s.len() && #[trigger] s[i].0 == k;
        assert(t[ws].0 == k);
        assert(has_key(t, k));
        let wt = choose|i: int| 0 <= i < t.len() && #[trigger] t[i].0 == k;
        assert(s[wt].0 == t[wt].0);
        if ws != wt {
            if ws < wt {
                assert(s[ws].0 != s[wt].0);
            } else {
                assert(s[wt].0 != s[ws].0);
            }
        }
        assert(text_entries(entries_after_insert(s, k, v)) =~= entries_after_insert(t, k, v@));
    } else {
        if has_key(t, k) {
            let wt = choose|i: int| 0 <= i < t.len() && #[trigger] t[i].0 == k;
            assert(s[wt].0 == k);
        }
        assert(text_entries(entries_after_insert(s, k, v)) =~= entries_after_insert(t, k, v@));
    }
}

/// The head of every response starts with the version and ends with a line
/// break followed by an empty line, whatever the status and headers; on the
/// wire the body follows the head unchanged.
pub proof fn lemma_response_framing(
    status: nat,
    headers: Seq<(Seq<char>, Seq<char>)>,
    body: Seq<u8>,
)
    ensures
        response_head(status, headers).len() >= 13,
        response_head(status, headers).subrange(0, 9) == "HTTP/1.1 "@,
        response_head(status, headers).subrange(
            response_head(status, headers).len() - 4,
            response_head(status, headers).len() as int,
        ) == "\r\n\r\n"@,
        response_bytes(status, headers, body).subrange(
            0,
            encode_utf8(response_head(status, headers)).len() as int,
        ) == encode_utf8(response_head(status, headers)),
        response_bytes(status, headers, body).subrange(
            encode_utf8(response_head(status, headers)).len() as int,
            response_bytes(status, headers, body).len() as int,
        ) == body,
{
    reveal_strlit("HTTP/1.1 ");
    reveal_strlit("\r\n");
    reveal_strlit("\r\n\r\n");
    reveal_strlit(" ");
    lemma_decimal_round_trip(status);
    let head = response_head(status, headers);
    let sl = status_line(status);
    let hl = header_lines(headers);
    assert(head == sl + hl + "\r\n"@);
    assert(sl.len() >= 12);
    assert(sl.subrange(0, 9) =~= "HTTP/1.1 "@);
    assert(head.subrange(0, 9) =~= sl.subrange(0, 9));
    let n = head.len();
    if headers.len() == 0 {
        assert(hl == Seq::<char>::empty());
        assert(sl.subrange(sl.len() - 2, sl.len() as int) =~= "\r\n"@);
        assert(head.subrange(n - 4, n as int) =~= "\r\n\r\n"@) by {
            assert(head =~= sl + "\r\n"@);
            assert(head[n - 4] == sl[sl.len() - 2]);
            assert(head[n - 3] == sl[sl.len() - 1]);
        }
    } else {
        let last = header_line(headers.last().0, headers.last().1);
        assert(hl == header_lines(headers.drop_last()) + last);
        assert(last.subrange(last.len() - 2, last.len() as int) =~= "\r\n"@);
        assert(head.subrange(n - 4, n as int) =~= "\r\n\r\n"@) by {
            assert(head =~= sl + header_lines(headers.drop_last()) + last + "\r\n"@);
            assert(head[n - 4] == last[last.len() - 2]);
            assert(head[n - 3] == last[last.len() - 1]);
        }
    }
    let b = response_bytes(status, headers, body);
    let e = encode_utf8(head);
    assert(b.subrange(0, e.len() as int) =~= e);
    assert(b.subrange(e.len() as int, b.len() as int) =~= body);
}

/// The status code can be read back from the head of a response: right
/// after the version come the digits of the code, and then a space.
pub proof fn lemma_status_readable(status: nat, headers: Seq<(Seq<char>, Seq<char>)>)
    ensures
        ({
            let head = response_head(status, headers);
            let digits = head.subrange(9, 9 + decimal(status).len() as int);
            &&& head.len() > 9 + decimal(status).len()
            &&& forall|i: int| 0 <= i < digits.len() ==> is_digit(#[trigger] digits[i])
            &&& numeral_value(digits) == status
            &&& head[9 + decimal(status).len() as int] == ' '
        }),
{
    reveal_strlit("HTTP/1.1 ");
    reveal_strlit(" ");
    lemma_decimal_round_trip(status);
    let head = response_head(status, headers);
    let d = decimal(status);
    assert(head.subrange(9, 9 + d.len() as int) =~= d);
}

/// Each reason phrase belongs to exactly one status, except `Unknown`:
/// `Ok` is the phrase of 200 alone, `Not Found` of 404 alone, `Internal
/// Server Error` of 500 alone, and every other status gets `Unknown`.
pub proof fn lemma_reason_phrases(status: int)
    ensures
        (reason_phrase(status) == "Ok"@) <==> status == 200,
        (reason_phrase(status) == "Not Found"@) <==> status == 404,
        (reason_phrase(status) == "Internal Server Error"@) <==> status == 500,
        (reason_phrase(status) == "Unknown"@) <==> (status != 200 && status != 404 && status
            != 500),
{
    reveal_strlit("Ok");
    reveal_strlit("Not Found");
    reveal_strlit("Internal Server Error");
    reveal_strlit("Unknown");
    assert("Ok"@.len() == 2);
    assert("Not Found"@.len() == 9);
    assert("Internal Server Error"@.len() == 21);
    assert("Unknown"@.len() == 7);
}

} // verus!

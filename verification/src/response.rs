//! Response serialization: a status line, optional `Content-Type` and
//! `Content-Length` headers, a blank line, then the body. The
//! `Content-Length` is always the byte length of the body actually sent,
//! written in decimal, never copied from an incoming header.

use vstd::prelude::*;

verus! {

/// The decimal digit character for `d`.
pub open spec fn digit_char(d: nat) -> char {
    if d == 0 {
        '0'
    } else if d == 1 {
        '1'
    } else if d == 2 {
        '2'
    } else if d == 3 {
        '3'
    } else if d == 4 {
        '4'
    } else if d == 5 {
        '5'
    } else if d == 6 {
        '6'
    } else if d == 7 {
        '7'
    } else if d == 8 {
        '8'
    } else {
        '9'
    }
}

/// The usual decimal writing of `n`: no sign, no leading zero except for
/// the single digit of zero itself.
pub open spec fn dec_chars(n: nat) -> Seq<char>
    decreases n,
{
    if n < 10 {
        seq![digit_char(n)]
    } else {
        dec_chars(n / 10).push(digit_char(n % 10))
    }
}

/// The number of bytes the characters of `s` occupy in UTF-8 — the length
/// a response's `Content-Length` announces. (A string held in memory never
/// exceeds `usize`, so the clamp to `usize` changes nothing.)
pub open spec fn byte_len(s: Seq<char>) -> nat {
    (vstd::utf8::encode_utf8(s).len() as usize) as nat
}

/// The one-character string for the decimal digit `d`.
fn digit_str(d: usize) -> (r: &'static str)
    requires
        d < 10,
    ensures
        r@ == seq![digit_char(d as nat)],
{
    let r: &'static str = if d == 0 {
        "0"
    } else if d == 1 {
        "1"
    } else if d == 2 {
        "2"
    } else if d == 3 {
        "3"
    } else if d == 4 {
        "4"
    } else if d == 5 {
        "5"
    } else if d == 6 {
        "6"
    } else if d == 7 {
        "7"
    } else if d == 8 {
        "8"
    } else {
        "9"
    };
    proof {
        reveal_strlit("0");
        reveal_strlit("1");
        reveal_strlit("2");
        reveal_strlit("3");
        reveal_strlit("4");
        reveal_strlit("5");
        reveal_strlit("6");
        reveal_strlit("7");
        reveal_strlit("8");
        reveal_strlit("9");
        assert(r@ =~= seq![digit_char(d as nat)]);
    }
    r
}

/// Writes `n` in decimal.
pub fn usize_to_string(n: usize) -> (s: String)
    ensures
        s@ == dec_chars(n as nat),
    decreases n,
{
    if n < 10 {
        digit_str(n).to_owned()
    } else {
        let mut s = usize_to_string(n / 10);
        s.append(digit_str(n % 10));
        proof {
            assert(dec_chars((n / 10) as nat) + seq![digit_char((n % 10) as nat)] =~= dec_chars(
                (n / 10) as nat,
            ).push(digit_char((n % 10) as nat)));
        }
        s
    }
}

/// The response to `GET /`: a bare 200 with no headers and no body.
pub open spec fn spec_response_empty_ok() -> Seq<char> {
    "HTTP/1.1 200 OK\r\n\r\n"@
}

/// A 200 response carrying `body` with the given `Content-Type` and the
/// decimal byte length of `body` as `Content-Length`.
pub open spec fn spec_response_with_body(content_type: Seq<char>, body: Seq<char>) -> Seq<char> {
    "HTTP/1.1 200 OK\r\nContent-Type: "@ + content_type + "\r\nContent-Length: "@ + dec_chars(
        byte_len(body),
    ) + "\r\n\r\n"@ + body
}

/// A 200 response carrying `body` as `text/plain`.
pub open spec fn spec_response_text_ok(body: Seq<char>) -> Seq<char> {
    spec_response_with_body("text/plain"@, body)
}

/// A 200 response carrying `body` as `application/octet-stream`.
pub open spec fn spec_response_octet_ok(body: Seq<char>) -> Seq<char> {
    spec_response_with_body("application/octet-stream"@, body)
}

/// The response to a stored file: a bare 201 with no body.
pub open spec fn spec_response_created() -> Seq<char> {
    "HTTP/1.1 201 Created\r\n\r\n"@
}

/// The fallback response: a bare 404 with no body.
pub open spec fn spec_response_not_found() -> Seq<char> {
    "HTTP/1.1 404 Not Found\r\n\r\n"@
}

/// Serializes the response to `GET /`.
pub fn response_empty_ok() -> (r: String)
    ensures
        r@ == spec_response_empty_ok(),
{
    String::from_str("HTTP/1.1 200 OK\r\n\r\n")
}

/// Serializes a 200 response around `body`, announcing its byte length.
pub fn response_with_body(content_type: &str, body: &str) -> (r: String)
    ensures
        r@ == spec_response_with_body(content_type@, body@),
{
    let mut s = String::from_str("HTTP/1.1 200 OK\r\nContent-Type: ");
    s.append(content_type);
    s.append("\r\nContent-Length: ");
    let len_str = usize_to_string(body.len());
    s.append(len_str.as_str());
    s.append("\r\n\r\n");
    s.append(body);
    proof {
        assert(s@ =~= spec_response_with_body(content_type@, body@));
    }
    s
}

/// Serializes a 200 `text/plain` response around `body`.
pub fn response_text_ok(body: &str) -> (r: String)
    ensures
        r@ == spec_response_text_ok(body@),
{
    proof {
        reveal_strlit("text/plain");
    }
    let r = response_with_body("text/plain", body);
    proof {
        assert(r@ =~= spec_response_text_ok(body@));
    }
    r
}

/// Serializes a 200 `application/octet-stream` response around `body`.
pub fn response_octet_ok(body: &str) -> (r: String)
    ensures
        r@ == spec_response_octet_ok(body@),
{
    proof {
        reveal_strlit("application/octet-stream");
    }
    let r = response_with_body("application/octet-stream", body);
    proof {
        assert(r@ =~= spec_response_octet_ok(body@));
    }
    r
}

/// Serializes the 201 response to a stored file.
pub fn response_created() -> (r: String)
    ensures
        r@ == spec_response_created(),
{
    String::from_str("HTTP/1.1 201 Created\r\n\r\n")
}

/// Serializes the 404 fallback response.
pub fn response_not_found() -> (r: String)
    ensures
        r@ == spec_response_not_found(),
{
    String::from_str("HTTP/1.1 404 Not Found\r\n\r\n")
}

} // verus!

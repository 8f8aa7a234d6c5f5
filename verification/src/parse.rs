//! The request grammar and its parser.
//!
//! The grammar is fixed, rigid, and line-oriented: a start line `METHOD
//! target HTTP/<version>\r\n` with single-or-more space separators, zero
//! or more header lines `Name: value\r\n` — each scoped to its own line,
//! with exactly `": "` as the separator — one blank line, then the body
//! taken verbatim. The functions
//! [`spec_parse_start_line`], [`spec_parse_headers`] and
//! [`spec_parse_request`] are the grammar; the executable parser is proved
//! to return exactly what they describe, errors included.

use crate::request::{HttpError, HttpMethod, Headers, ParsedRequest, RequestView, StartLine,
    StartLineView};
use crate::scan::{crlf_at, find_crlf, lemma_find_crlf_bounds, lemma_span_bounds, lemma_span_exact,
    non_colon_p, non_space_p, scan_non_colons, scan_non_spaces, scan_spaces, scan_to_crlf,
    scan_version_chars, space_p, span, version_p};
use vstd::prelude::*;

verus! {

/// The method token at the head of `s`: `GET` or `POST`, with the position
/// just past it; any other opening is the unsupported-method failure.
pub open spec fn spec_parse_method(s: Seq<char>) -> Result<(HttpMethod, int), HttpError> {
    if s.len() >= 3 && s[0] == 'G' && s[1] == 'E' && s[2] == 'T' {
        Ok((HttpMethod::GET, 3))
    } else if s.len() >= 4 && s[0] == 'P' && s[1] == 'O' && s[2] == 'S' && s[3] == 'T' {
        Ok((HttpMethod::POST, 4))
    } else {
        Err(HttpError::UnsupportedMethod)
    }
}

/// The start line at the head of `s`: method, one or more spaces, a
/// non-empty target of non-space characters, one or more spaces, the
/// literal `HTTP/`, a non-empty version of digits and dots, then `\r\n`.
/// Returns the parsed value and the position just past the terminator.
pub open spec fn spec_parse_start_line(s: Seq<char>) -> Result<
    (StartLineView, int),
    HttpError,
> {
    match spec_parse_method(s) {
        Err(e) => Err(e),
        Ok((m, i0)) => {
            let i1 = span(s, i0, space_p());
            let i2 = span(s, i1, non_space_p());
            let i3 = span(s, i2, space_p());
            if i1 == i0 || i2 == i1 || i3 == i2 {
                Err(HttpError::MalformedStartLine)
            } else if !(i3 + 5 <= s.len() && s[i3] == 'H' && s[i3 + 1] == 'T' && s[i3 + 2] == 'T'
                && s[i3 + 3] == 'P' && s[i3 + 4] == '/') {
                Err(HttpError::MalformedStartLine)
            } else {
                let i4 = span(s, i3 + 5, version_p());
                if i4 == i3 + 5 {
                    Err(HttpError::MalformedStartLine)
                } else if !(i4 + 2 <= s.len() && s[i4] == '\r' && s[i4 + 1] == '\n') {
                    Err(HttpError::MalformedStartLine)
                } else {
                    Ok(
                        (
                            StartLineView {
                                method: m,
                                target: s.subrange(i1, i2),
                                version: s.subrange(i3 + 5, i4),
                            },
                            i4 + 2,
                        ),
                    )
                }
            }
        },
    }
}

/// A successful start-line parse consumes at least the terminator and no
/// more than the whole input.
pub proof fn lemma_parse_start_line_bounds(s: Seq<char>)
    ensures
        match spec_parse_start_line(s) {
            Ok((sl, n)) => 0 < n <= s.len(),
            Err(_) => true,
        },
{
    if spec_parse_start_line(s) is Ok {
        let (m, i0) = spec_parse_method(s)->Ok_0;
        lemma_span_bounds(s, i0, space_p());
        let i1 = span(s, i0, space_p());
        lemma_span_bounds(s, i1, non_space_p());
        let i2 = span(s, i1, non_space_p());
        lemma_span_bounds(s, i2, space_p());
        let i3 = span(s, i2, space_p());
        lemma_span_bounds(s, i3 + 5, version_p());
    }
}

/// Parses the method token at the head of `line` — exactly as
/// [`spec_parse_method`] describes.
pub fn parse_method(line: &str) -> (r: Result<(HttpMethod, usize), HttpError>)
    ensures
        match r {
            Ok((m, n)) => spec_parse_method(line@) == Ok::<_, HttpError>((m, n as int)),
            Err(e) => spec_parse_method(line@) == Err::<(HttpMethod, int), _>(e),
        },
{
    let n = line.unicode_len();
    if n >= 3 && line.get_char(0) == 'G' && line.get_char(1) == 'E' && line.get_char(2) == 'T' {
        Ok((HttpMethod::GET, 3))
    } else if n >= 4 && line.get_char(0) == 'P' && line.get_char(1) == 'O' && line.get_char(2)
        == 'S' && line.get_char(3) == 'T' {
        Ok((HttpMethod::POST, 4))
    } else {
        Err(HttpError::UnsupportedMethod)
    }
}

/// Parses the start line at the head of `line`, returning the structured
/// value and the number of characters consumed, or the precise error the
/// grammar gives — exactly as [`spec_parse_start_line`] describes.
pub fn parse_start_line(line: &str) -> (r: Result<(StartLine, usize), HttpError>)
    ensures
        match r {
            Ok((sl, n)) => spec_parse_start_line(line@) == Ok::<_, HttpError>((sl@, n as int)),
            Err(e) => spec_parse_start_line(line@) == Err::<(StartLineView, int), _>(e),
        },
{
    let n = line.unicode_len();
    let (method, i0): (HttpMethod, usize) = match parse_method(line) {
        Ok(p) => p,
        Err(e) => {
            return Err(e);
        },
    };
    proof {
        assert(i0 <= line@.len());
    }
    let i1 = scan_spaces(line, i0);
    let i2 = scan_non_spaces(line, i1);
    let i3 = scan_spaces(line, i2);
    if i1 == i0 || i2 == i1 || i3 == i2 {
        return Err(HttpError::MalformedStartLine);
    }
    if !(n - i3 >= 5 && line.get_char(i3) == 'H' && line.get_char(i3 + 1) == 'T' && line.get_char(
        i3 + 2,
    ) == 'T' && line.get_char(i3 + 3) == 'P' && line.get_char(i3 + 4) == '/') {
        return Err(HttpError::MalformedStartLine);
    }
    let i4 = scan_version_chars(line, i3 + 5);
    if i4 == i3 + 5 {
        return Err(HttpError::MalformedStartLine);
    }
    if !(n - i4 >= 2 && line.get_char(i4) == '\r' && line.get_char(i4 + 1) == '\n') {
        return Err(HttpError::MalformedStartLine);
    }
    let target = line.substring_char(i1, i2).to_owned();
    let version = line.substring_char(i3 + 5, i4).to_owned();
    let sl = StartLine { method, target, version };
    proof {
        assert(spec_parse_start_line(line@) matches Ok(p) && p.0 =~= sl@ && p.1 == i4 + 2);
    }
    Ok((sl, i4 + 2))
}

/// One header line at position `i`, scoped to the line: the line runs to
/// the first `\r\n`, the name is a non-empty run of non-colon characters
/// whose colon must lie before that terminator, the separator is exactly
/// `": "` — a colon without a space, or with extra spaces after the
/// separator, is rejected — and the value is the rest of the line,
/// verbatim. Returns the pair and the position just past the terminator.
/// A line with no colon of its own, an empty name, or a wrong separator is
/// the malformed-header failure; a line that never reaches `\r\n` leaves
/// the block unterminated.
pub open spec fn spec_parse_header(s: Seq<char>, i: int) -> Result<
    ((Seq<char>, Seq<char>), int),
    HttpError,
> {
    if i >= s.len() {
        Err(HttpError::MalformedRequest)
    } else {
        let k = find_crlf(s, i);
        if k >= s.len() {
            Err(HttpError::MalformedRequest)
        } else {
            let j = span(s, i, non_colon_p());
            if j >= k || j == i || s[j + 1] != ' ' {
                Err(HttpError::MalformedHeader)
            } else if j + 2 < k && s[j + 2] == ' ' {
                Err(HttpError::MalformedHeader)
            } else {
                Ok(((s.subrange(i, j), s.subrange(j + 2, k)), k + 2))
            }
        }
    }
}

/// A successful header parse moves strictly forward and stays inside `s`.
pub proof fn lemma_parse_header_bounds(s: Seq<char>, i: int)
    requires
        0 <= i <= s.len(),
    ensures
        match spec_parse_header(s, i) {
            Ok((pair, n)) => i < n <= s.len(),
            Err(_) => true,
        },
{
    if spec_parse_header(s, i) is Ok {
        lemma_find_crlf_bounds(s, i);
    }
}

/// The header lines from position `i` on: header lines while they parse,
/// then exactly one blank line `\r\n`. Returns the pairs in the order
/// received and the position just past the blank line. Without the blank
/// line the block — and with it the request — is malformed.
pub open spec fn spec_parse_headers(s: Seq<char>, i: int) -> Result<
    (Seq<(Seq<char>, Seq<char>)>, int),
    HttpError,
>
    decreases s.len() - i,
    when 0 <= i <= s.len()
{
    if i + 2 <= s.len() && s[i] == '\r' && s[i + 1] == '\n' {
        Ok((Seq::empty(), i + 2))
    } else {
        match spec_parse_header(s, i) {
            Err(e) => Err(e),
            Ok((pair, n)) => if i < n <= s.len() {
                match spec_parse_headers(s, n) {
                    Err(e) => Err(e),
                    Ok((rest, m)) => Ok((seq![pair] + rest, m)),
                }
            } else {
                // never reached: a parsed header line always moves forward
                // (lemma_parse_header_bounds); the branch closes the
                // termination argument.
                Err(HttpError::MalformedRequest)
            },
        }
    }
}

/// Parses one header line of `s` at `from`, returning the `(name, value)`
/// pair and the position just past its terminator — exactly as
/// [`spec_parse_header`] describes.
pub fn parse_header(s: &str, from: usize) -> (r: Result<((String, String), usize), HttpError>)
    requires
        from <= s@.len(),
    ensures
        match r {
            Ok(((name, value), n)) => spec_parse_header(s@, from as int) == Ok::<_, HttpError>(
                ((name@, value@), n as int),
            ) && from < n <= s@.len(),
            Err(e) => spec_parse_header(s@, from as int) == Err::<
                ((Seq<char>, Seq<char>), int),
                _,
            >(e),
        },
{
    let n = s.unicode_len();
    if from >= n {
        return Err(HttpError::MalformedRequest);
    }
    let k = scan_to_crlf(s, from);
    if k >= n {
        return Err(HttpError::MalformedRequest);
    }
    proof {
        lemma_find_crlf_bounds(s@, from as int);
    }
    let j = scan_non_colons(s, from);
    if j >= k || j == from || s.get_char(j + 1) != ' ' {
        return Err(HttpError::MalformedHeader);
    }
    proof {
        // the space after the colon cannot be the terminator's '\r', so
        // the value starts at or before the line's end
        assert(j + 2 <= k);
    }
    if j + 2 < k && s.get_char(j + 2) == ' ' {
        return Err(HttpError::MalformedHeader);
    }
    let name = s.substring_char(from, j).to_owned();
    let value = s.substring_char(j + 2, k).to_owned();
    proof {
        lemma_parse_header_bounds(s@, from as int);
        assert(spec_parse_header(s@, from as int) == Ok::<_, HttpError>(
            ((name@, value@), k + 2 as int),
        ));
    }
    Ok(((name, value), k + 2))
}

/// Parses the header block of `s` starting at `from`, returning the
/// header pairs and the position just past the blank line, or the precise
/// error — exactly as [`spec_parse_headers`] describes.
pub fn parse_headers(s: &str, from: usize) -> (r: Result<(Headers, usize), HttpError>)
    requires
        from <= s@.len(),
    ensures
        match r {
            Ok((hs, m)) => spec_parse_headers(s@, from as int) == Ok::<_, HttpError>(
                (hs@, m as int),
            ) && m <= s@.len(),
            Err(e) => spec_parse_headers(s@, from as int) == Err::<
                (Seq<(Seq<char>, Seq<char>)>, int),
                _,
            >(e),
        },
{
    let n = s.unicode_len();
    let mut headers = Headers::new();
    let mut i = from;
    while !crlf_at(s, i)
        invariant
            from <= i <= n,
            n == s@.len(),
            ({
                match spec_parse_headers(s@, i as int) {
                    Ok((rest, m)) => spec_parse_headers(s@, from as int) == Ok::<_, HttpError>(
                        (headers@ + rest, m),
                    ),
                    Err(e) => spec_parse_headers(s@, from as int) == Err::<
                        (Seq<(Seq<char>, Seq<char>)>, int),
                        _,
                    >(e),
                }
            }),
        decreases n - i,
    {
        let ((name, value), next) = match parse_header(s, i) {
            Ok(p) => p,
            Err(e) => {
                return Err(e);
            },
        };
        let ghost nm = name@;
        let ghost vl = value@;
        let ghost old_view = headers@;
        headers.push(name, value);
        proof {
            if spec_parse_headers(s@, next as int) is Ok {
                let (rest, m) = spec_parse_headers(s@, next as int)->Ok_0;
                assert(old_view + (seq![(nm, vl)] + rest) =~= headers@ + rest);
            }
        }
        i = next;
    }
    proof {
        assert(spec_parse_headers(s@, i as int) == Ok::<_, HttpError>(
            (Seq::<(Seq<char>, Seq<char>)>::empty(), i + 2 as int),
        ));
        assert(headers@ + Seq::<(Seq<char>, Seq<char>)>::empty() =~= headers@);
    }
    Ok((headers, i + 2))
}

/// The whole request: start line, header block, and everything after the
/// blank line — taken verbatim — as the body.
pub open spec fn spec_parse_request(s: Seq<char>) -> Result<RequestView, HttpError> {
    match spec_parse_start_line(s) {
        Err(e) => Err(e),
        Ok((sl, n)) => if 0 <= n <= s.len() {
            match spec_parse_headers(s, n) {
                Err(e) => Err(e),
                Ok((hs, m)) => Ok(
                    RequestView {
                        start_line: sl,
                        headers: hs,
                        body: s.subrange(m, s.len() as int),
                    },
                ),
            }
        } else {
            // never reached: a parsed start line stays inside the input
            // (lemma_parse_start_line_bounds); the branch keeps every call
            // of spec_parse_headers within its domain.
            Err(HttpError::MalformedRequest)
        },
    }
}

/// Parses one full request buffer — exactly as [`spec_parse_request`]
/// describes: the structured request on success, the first grammar
/// violation otherwise, and no partial result in either case.
pub fn parse_request(request: &str) -> (r: Result<ParsedRequest, HttpError>)
    ensures
        match r {
            Ok(req) => spec_parse_request(request@) == Ok::<_, HttpError>(req@),
            Err(e) => spec_parse_request(request@) == Err::<RequestView, _>(e),
        },
{
    proof {
        lemma_parse_start_line_bounds(request@);
    }
    let (start_line, n) = match parse_start_line(request) {
        Ok(p) => p,
        Err(e) => {
            return Err(e);
        },
    };
    let (headers, m) = match parse_headers(request, n) {
        Ok(p) => p,
        Err(e) => {
            return Err(e);
        },
    };
    let body = request.substring_char(m, request.unicode_len()).to_owned();
    let req = ParsedRequest { start_line, headers, body };
    proof {
        assert(spec_parse_request(request@) matches Ok(v) && v =~= req@);
    }
    Ok(req)
}

/// The token that serializes a method.
pub open spec fn method_chars(m: HttpMethod) -> Seq<char> {
    match m {
        HttpMethod::GET => seq!['G', 'E', 'T'],
        HttpMethod::POST => seq!['P', 'O', 'S', 'T'],
    }
}

/// A start-line value the grammar can produce at all: a non-empty target
/// without spaces and a non-empty version drawn from digits and dots.
pub open spec fn start_line_wf(sl: StartLineView) -> bool {
    &&& sl.target.len() > 0
    &&& forall|i: int| 0 <= i < sl.target.len() ==> sl.target[i] != ' '
    &&& sl.version.len() > 0
    &&& forall|i: int| 0 <= i < sl.version.len() ==> version_p()(sl.version[i])
}

/// The canonical serialization of a start line: single-space separators,
/// the exact `HTTP/` prefix, the `\r\n` terminator.
pub open spec fn render_start_line(sl: StartLineView) -> Seq<char> {
    method_chars(sl.method) + seq![' '] + sl.target + seq![' ', 'H', 'T', 'T', 'P', '/']
        + sl.version + seq!['\r', '\n']
}

/// Round trip of the start line: parsing the canonical serialization of
/// any well-formed start line — whatever follows it — yields that start
/// line back and consumes exactly the serialized text. So re-serializing
/// what was parsed reproduces the original start line character for
/// character, up to the separator normalization the serialization fixes
/// (single spaces, the exact `HTTP/` prefix).
pub proof fn lemma_start_line_round_trip(sl: StartLineView, rest: Seq<char>)
    requires
        start_line_wf(sl),
    ensures
        spec_parse_start_line(render_start_line(sl) + rest) == Ok::<_, HttpError>(
            (sl, render_start_line(sl).len() as int),
        ),
{
    let s = render_start_line(sl) + rest;
    let mlen = method_chars(sl.method).len() as int;
    let tlen = sl.target.len() as int;
    let vlen = sl.version.len() as int;
    let i1 = mlen + 1;
    let i2 = i1 + tlen;
    let i3 = i2 + 1;
    let i5 = i3 + 5;
    let i4 = i5 + vlen;
    assert(s.len() == i4 + 2 + rest.len());
    assert forall|i: int| 0 <= i < mlen implies s[i] == method_chars(sl.method)[i] by {}
    assert(s[mlen] == ' ');
    assert forall|i: int| 0 <= i < tlen implies s[i1 + i] == sl.target[i] by {}
    assert(s[i2] == ' ');
    assert(s[i3] == 'H' && s[i3 + 1] == 'T' && s[i3 + 2] == 'T' && s[i3 + 3] == 'P' && s[i3 + 4]
        == '/');
    assert forall|i: int| 0 <= i < vlen implies s[i5 + i] == sl.version[i] by {}
    assert(s[i4] == '\r' && s[i4 + 1] == '\n');
    assert(spec_parse_method(s) == Ok::<_, HttpError>((sl.method, mlen)));
    assert(space_p()(s[mlen]));
    assert(!space_p()(s[i1]));
    lemma_span_exact(s, mlen, i1, space_p());
    assert forall|k: int| i1 <= k < i2 implies non_space_p()(s[k]) by {
        assert(s[k] == sl.target[k - i1]);
    }
    assert(!non_space_p()(s[i2]));
    lemma_span_exact(s, i1, i2, non_space_p());
    assert(space_p()(s[i2]));
    assert(!space_p()(s[i3]));
    lemma_span_exact(s, i2, i3, space_p());
    assert forall|k: int| i5 <= k < i4 implies version_p()(s[k]) by {
        assert(s[k] == sl.version[k - i5]);
    }
    assert(!version_p()(s[i4])) by {
        assert(s[i4] == '\r');
    }
    lemma_span_exact(s, i5, i4, version_p());
    assert(s.subrange(i1, i2) =~= sl.target);
    assert(s.subrange(i5, i4) =~= sl.version);
    assert(spec_parse_start_line(s) matches Ok(p) && p.0 =~= sl && p.1 == i4 + 2);
}

/// A header line the parser accepts is one line carrying the exact `": "`
/// separator: the text it consumes is precisely the non-empty, colon-free
/// name, then `": "`, then the value, then `\r\n` — and that terminator is
/// the only one in the consumed text, so name and value belong to a single
/// line. A header line lacking the exact separator before its own
/// terminator can only fail.
pub proof fn lemma_header_has_exact_separator(s: Seq<char>, i: int)
    requires
        0 <= i <= s.len(),
    ensures
        match spec_parse_header(s, i) {
            Ok(((name, value), n)) => {
                &&& n == i + name.len() + 2 + value.len() + 2
                &&& s.subrange(i, n) == name + ": "@ + value + "\r\n"@
                &&& name.len() > 0
                &&& forall|k: int| 0 <= k < name.len() ==> name[k] != ':'
                &&& forall|x: int|
                    i <= x < n - 2 ==> !(#[trigger] s[x] == '\r' && s[x + 1] == '\n')
            },
            Err(_) => true,
        },
{
    reveal_strlit(": ");
    reveal_strlit("\r\n");
    if spec_parse_header(s, i) is Ok {
        lemma_find_crlf_bounds(s, i);
        let k = find_crlf(s, i);
        lemma_span_bounds(s, i, non_colon_p());
        let j = span(s, i, non_colon_p());
        assert(s[j] == ':') by {
            assert(!non_colon_p()(s[j]));
        }
        let name = s.subrange(i, j);
        let value = s.subrange(j + 2, k);
        assert forall|x: int| 0 <= x < name.len() implies name[x] != ':' by {
            assert(non_colon_p()(s[i + x]));
        }
        assert((": "@).len() == 2 && ": "@[0] == ':' && ": "@[1] == ' ');
        assert(("\r\n"@).len() == 2 && "\r\n"@[0] == '\r' && "\r\n"@[1] == '\n');
        assert(s.subrange(i, k + 2) =~= name + ": "@ + value + "\r\n"@);
    }
}

} // verus!

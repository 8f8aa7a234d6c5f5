//! The data model of a parsed request: method, start line, header pairs,
//! body, and the error taxonomy shared by the parser and the dispatcher.

use crate::scan::str_eq;
use vstd::prelude::*;

verus! {

/// The closed set of supported request methods. Any other token on the
/// start line is rejected as `HttpError::UnsupportedMethod`.
#[derive(Clone, Copy, Debug, PartialEq, Eq, Structural)]
pub enum HttpMethod {
    GET,
    POST,
}

/// Everything that can go wrong while parsing a request or selecting a
/// route for it.
#[derive(Clone, Copy, Debug, PartialEq, Eq, Structural)]
pub enum HttpError {
    /// The start line is missing a separator, the `HTTP/` prefix, the
    /// version token, or its `\r\n` terminator.
    MalformedStartLine,
    /// The method token is outside the supported set.
    UnsupportedMethod,
    /// A header line has no `:` before its own `\r\n` terminator, has an
    /// empty name, or lacks the exact `": "` separator — a colon without
    /// the one space, or with extra spaces after it, is rejected too.
    MalformedHeader,
    /// The header block never reaches its terminating blank line.
    MalformedRequest,
    /// A route needs a header (such as `User-Agent`) that the request lacks.
    MissingExpectedHeader,
    /// Writing a posted file failed; the connection is abandoned.
    FileWriteFailure,
}

/// The first line of a request: method, target, and the version token
/// captured from `HTTP/<version>`.
#[derive(Debug, Clone)]
pub struct StartLine {
    pub method: HttpMethod,
    pub target: String,
    pub version: String,
}

/// The mathematical value of a [`StartLine`].
#[verifier::ext_equal]
pub struct StartLineView {
    pub method: HttpMethod,
    pub target: Seq<char>,
    pub version: Seq<char>,
}

impl View for StartLine {
    type V = StartLineView;

    open spec fn view(&self) -> StartLineView {
        StartLineView { method: self.method, target: self.target@, version: self.version@ }
    }
}

/// The header block of a request: `(name, value)` pairs in the order the
/// lines were received. Duplicate names are kept; lookup takes the last
/// occurrence, matching a map built by inserting the pairs in order.
#[derive(Debug, Clone)]
pub struct Headers {
    pub pairs: Vec<(String, String)>,
}

impl View for Headers {
    type V = Seq<(Seq<char>, Seq<char>)>;

    open spec fn view(&self) -> Seq<(Seq<char>, Seq<char>)> {
        Seq::new(self.pairs@.len(), |i: int| (self.pairs@[i].0@, self.pairs@[i].1@))
    }
}

/// The value of the last pair whose name is `name`, if any: the
/// last-write-wins reading of the header block.
pub open spec fn spec_lookup(hs: Seq<(Seq<char>, Seq<char>)>, name: Seq<char>) -> Option<
    Seq<char>,
>
    decreases hs.len(),
{
    if hs.len() == 0 {
        None
    } else if hs.last().0 == name {
        Some(hs.last().1)
    } else {
        spec_lookup(hs.drop_last(), name)
    }
}

impl Headers {
    /// A header block with no lines yet.
    pub fn new() -> (r: Headers)
        ensures
            r@ =~= Seq::<(Seq<char>, Seq<char>)>::empty(),
    {
        Headers { pairs: Vec::new() }
    }

    /// The number of header lines.
    pub fn len(&self) -> (n: usize)
        ensures
            n == self@.len(),
    {
        self.pairs.len()
    }

    /// Appends one `(name, value)` line at the end of the block.
    pub fn push(&mut self, name: String, value: String)
        ensures
            final(self)@ =~= old(self)@.push((name@, value@)),
    {
        self.pairs.push((name, value));
    }

    /// The value of the header called `name`, taking the last occurrence
    /// when the name was sent more than once.
    pub fn get(&self, name: &str) -> (r: Option<&String>)
        ensures
            match r {
                Some(v) => spec_lookup(self@, name@) == Some(v@),
                None => spec_lookup(self@, name@) is None,
            },
    {
        let mut idx = self.pairs.len();
        proof {
            assert(self@.take(idx as int) =~= self@);
        }
        while idx > 0
            invariant
                idx <= self.pairs.len(),
                spec_lookup(self@, name@) == spec_lookup(self@.take(idx as int), name@),
            decreases idx,
        {
            idx = idx - 1;
            if str_eq(self.pairs[idx].0.as_str(), name) {
                proof {
                    assert(self@.take(idx as int + 1).last() == (
                        self.pairs@[idx as int].0@,
                        self.pairs@[idx as int].1@,
                    ));
                }
                return Some(&self.pairs[idx].1);
            }
            proof {
                assert(self@.take(idx as int + 1).drop_last() =~= self@.take(idx as int));
                assert(self@.take(idx as int + 1).last() == (
                    self.pairs@[idx as int].0@,
                    self.pairs@[idx as int].1@,
                ));
            }
        }
        proof {
            assert(self@.take(0) =~= Seq::<(Seq<char>, Seq<char>)>::empty());
        }
        None
    }
}

/// The structured result of parsing one full request buffer.
#[derive(Debug, Clone)]
pub struct ParsedRequest {
    pub start_line: StartLine,
    pub headers: Headers,
    pub body: String,
}

/// The mathematical value of a [`ParsedRequest`].
#[verifier::ext_equal]
pub struct RequestView {
    pub start_line: StartLineView,
    pub headers: Seq<(Seq<char>, Seq<char>)>,
    pub body: Seq<char>,
}

impl View for ParsedRequest {
    type V = RequestView;

    open spec fn view(&self) -> RequestView {
        RequestView { start_line: self.start_line@, headers: self.headers@, body: self.body@ }
    }
}

} // verus!

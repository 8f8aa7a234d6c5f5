//! Route selection: from a parsed request and the one capability — whether
//! a filesystem root is configured — to exactly one behavior, chosen in a
//! fixed priority order with first match winning. Routes that need no file
//! return the finished response text; the two `/files/` routes return the
//! file operation for the caller to perform, whose outcome
//! [`respond_file_read`] and [`respond_file_write`] turn into the response.

use crate::request::{HttpError, HttpMethod, ParsedRequest, RequestView, spec_lookup};
use crate::response::{response_created, response_empty_ok, response_not_found, response_octet_ok,
    response_text_ok, spec_response_created, spec_response_empty_ok, spec_response_not_found,
    spec_response_octet_ok, spec_response_text_ok};
use crate::scan::{has_prefix, str_eq, str_has_prefix};
use vstd::prelude::*;

verus! {

/// What a request calls for: a finished response, or a file operation on
/// a path relative to the configured root.
#[derive(Debug, Clone)]
pub enum Action {
    /// Send this response text as it stands.
    Respond(String),
    /// Read the file at this relative path; answer with
    /// [`respond_file_read`].
    ReadFile(String),
    /// Create or truncate the file at the relative path and write the
    /// contents; answer with [`respond_file_write`].
    WriteFile(String, String),
}

/// The mathematical value of an [`Action`].
#[verifier::ext_equal]
pub enum ActionView {
    Respond(Seq<char>),
    ReadFile(Seq<char>),
    WriteFile(Seq<char>, Seq<char>),
}

impl View for Action {
    type V = ActionView;

    open spec fn view(&self) -> ActionView {
        match self {
            Action::Respond(s) => ActionView::Respond(s@),
            Action::ReadFile(p) => ActionView::ReadFile(p@),
            Action::WriteFile(p, c) => ActionView::WriteFile(p@, c@),
        }
    }
}

/// The routing table, first match winning:
/// `GET /` — a bare 200; `GET /user-agent` — echo the `User-Agent` header
/// (its absence is fatal to the request); `GET /echo/<rest>` — echo
/// `<rest>`; `GET`/`POST /files/<rest>` with a root configured — the file
/// operation; anything else — 404.
pub open spec fn spec_dispatch(r: RequestView, root_configured: bool) -> Result<
    ActionView,
    HttpError,
> {
    let m = r.start_line.method;
    let t = r.start_line.target;
    if m == HttpMethod::GET && t == "/"@ {
        Ok(ActionView::Respond(spec_response_empty_ok()))
    } else if m == HttpMethod::GET && t == "/user-agent"@ {
        match spec_lookup(r.headers, "User-Agent"@) {
            Some(v) => Ok(ActionView::Respond(spec_response_text_ok(v))),
            None => Err(HttpError::MissingExpectedHeader),
        }
    } else if m == HttpMethod::GET && has_prefix(t, "/echo/"@) {
        Ok(ActionView::Respond(spec_response_text_ok(t.skip("/echo/"@.len() as int))))
    } else if m == HttpMethod::GET && has_prefix(t, "/files/"@) && root_configured {
        Ok(ActionView::ReadFile(t.skip("/files/"@.len() as int)))
    } else if m == HttpMethod::POST && has_prefix(t, "/files/"@) && root_configured {
        Ok(ActionView::WriteFile(t.skip("/files/"@.len() as int), r.body))
    } else {
        Ok(ActionView::Respond(spec_response_not_found()))
    }
}

/// Selects the one behavior the routing table gives this request —
/// exactly as [`spec_dispatch`] describes. A request with no matching
/// route gets the 404 fallback, never an error; the one error a route can
/// raise is the missing `User-Agent` header.
pub fn dispatch(req: &ParsedRequest, root_configured: bool) -> (r: Result<Action, HttpError>)
    ensures
        match r {
            Ok(a) => spec_dispatch(req@, root_configured) == Ok::<_, HttpError>(a@),
            Err(e) => spec_dispatch(req@, root_configured) == Err::<ActionView, _>(e),
        },
{
    let is_get = req.start_line.method == HttpMethod::GET;
    let is_post = req.start_line.method == HttpMethod::POST;
    let target = req.start_line.target.as_str();
    if is_get && str_eq(target, "/") {
        Ok(Action::Respond(response_empty_ok()))
    } else if is_get && str_eq(target, "/user-agent") {
        match req.headers.get("User-Agent") {
            Some(v) => Ok(Action::Respond(response_text_ok(v.as_str()))),
            None => Err(HttpError::MissingExpectedHeader),
        }
    } else if is_get && str_has_prefix(target, "/echo/") {
        proof {
            reveal_strlit("/echo/");
        }
        let rest = target.substring_char(6, target.unicode_len());
        proof {
            assert(rest@ =~= req.start_line.target@.skip("/echo/"@.len() as int));
        }
        Ok(Action::Respond(response_text_ok(rest)))
    } else if is_get && str_has_prefix(target, "/files/") && root_configured {
        proof {
            reveal_strlit("/files/");
        }
        let rest = target.substring_char(7, target.unicode_len());
        proof {
            assert(rest@ =~= req.start_line.target@.skip("/files/"@.len() as int));
        }
        Ok(Action::ReadFile(rest.to_owned()))
    } else if is_post && str_has_prefix(target, "/files/") && root_configured {
        proof {
            reveal_strlit("/files/");
        }
        let rest = target.substring_char(7, target.unicode_len());
        proof {
            assert(rest@ =~= req.start_line.target@.skip("/files/"@.len() as int));
        }
        Ok(Action::WriteFile(rest.to_owned(), req.body.clone()))
    } else {
        Ok(Action::Respond(response_not_found()))
    }
}

/// Routing is free of hidden state: the routing table allows exactly one
/// outcome per request and capability, so any two results that
/// [`dispatch`]'s contract admits for the same request — two dispatches of
/// the same request with nothing changed in between — are equal, and the
/// responses they carry are identical character for character.
pub proof fn lemma_dispatch_deterministic(
    r: RequestView,
    root_configured: bool,
    a1: Result<ActionView, HttpError>,
    a2: Result<ActionView, HttpError>,
)
    requires
        a1 == spec_dispatch(r, root_configured),
        a2 == spec_dispatch(r, root_configured),
    ensures
        a1 == a2,
{
}

/// Turns the outcome of the read that [`Action::ReadFile`] asked for into
/// the response: the file's contents as an `application/octet-stream` 200
/// when the file was found, the bare 404 when it was not.
pub fn respond_file_read(contents: Option<&str>) -> (r: String)
    ensures
        match contents {
            Some(c) => r@ == spec_response_octet_ok(c@),
            None => r@ == spec_response_not_found(),
        },
{
    match contents {
        Some(c) => response_octet_ok(c),
        None => response_not_found(),
    }
}

/// Turns the outcome of the write that [`Action::WriteFile`] asked for
/// into the response: the bare 201 when the write succeeded, the fatal
/// write failure — which abandons the connection — when it did not.
pub fn respond_file_write(ok: bool) -> (r: Result<String, HttpError>)
    ensures
        match r {
            Ok(s) => ok && s@ == spec_response_created(),
            Err(e) => !ok && e == HttpError::FileWriteFailure,
        },
{
    if ok {
        Ok(response_created())
    } else {
        Err(HttpError::FileWriteFailure)
    }
}

} // verus!

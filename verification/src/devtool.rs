//! The local dev server's request handling: which page or action a request
//! asks for, and with what status and content type it is answered.

use vstd::prelude::*;

use crate::jit::panic_text;
use vstd::string::StringSliceAdditionalSpecFns;

verus! {

#[verifier::external_type_specification]
#[verifier::external_body]
pub struct ExHeader(tiny_http::Header);

/// Every byte is ASCII.
pub open spec fn ascii_bytes(b: Seq<u8>) -> bool {
    forall|i: int| 0 <= i < b.len() ==> b[i] < 128
}

/// The header that `tiny_http::Header::from_bytes` builds from the bytes of a
/// field name and of a value.
pub uninterp spec fn header_of(field: Seq<u8>, value: Seq<u8>) -> tiny_http::Header;

/// Wraps `tiny_http::Header::from_bytes`, giving `None` for its error. Its
/// source turns both the field name and the value into an `AsciiString` with
/// `from_ascii`, which fails exactly when some byte is not ASCII; so it
/// succeeds exactly when every byte of both is ASCII. The header it builds
/// holds those two texts and nothing else, so it is named by the two byte
/// sequences alone (`header_of`); what is inside it is left unsaid.
#[verifier::external_body]
fn header_from_bytes(field: &[u8], value: &[u8]) -> (header: Option<tiny_http::Header>)
    ensures
        header is Some <==> (ascii_bytes(field@) && ascii_bytes(value@)),
        header matches Some(h) ==> h == header_of(field@, value@),
{
    match tiny_http::Header::from_bytes(field, value) {
        Ok(h) => Some(h),
        Err(_) => None,
    }
}

/// Whether the texts of `s` and `t` are equal.
fn same_text(s: &str, t: &str) -> (same: bool)
    ensures
        same == (s@ == t@),
{
    let n = s.unicode_len();
    if n != t.unicode_len() {
        return false;
    }
    let mut i: usize = 0;
    while i < n
        invariant
            n == s@.len(),
            n == t@.len(),
            i <= n,
            forall|k: int| 0 <= k < i ==> s@[k] == t@[k],
        decreases n - i,
    {
        if s.get_char(i) != t.get_char(i) {
            return false;
        }
        i = i + 1;
    }
    assert(s@ =~= t@);
    true
}

/// The method of an HTTP request.
#[derive(Clone, Copy, PartialEq, Eq, Structural, Debug)]
pub enum RequestMethod {
    Get,
    Head,
    Post,
    Put,
    Delete,
    Connect,
    Options,
    Trace,
    Patch,
    NonStandard,
}

/// What a request asks for.
#[derive(Clone, Copy, PartialEq, Eq, Structural, Debug)]
pub enum Route {
    /// `GET /`: the editor page.
    Index,
    /// `POST /run`: compile and run the source in the body.
    Run,
    /// Anything else.
    NotFound,
}

/// The route of a request with this method and URL text.
pub open spec fn route_of(method: RequestMethod, url: Seq<char>) -> Route {
    if method == RequestMethod::Get && url == "/"@ {
        Route::Index
    } else if method == RequestMethod::Post && url == "/run"@ {
        Route::Run
    } else {
        Route::NotFound
    }
}

/// The route of a request: `GET /` is the page, `POST /run` runs the body,
/// and nothing else is served.
pub fn route(method: RequestMethod, url: &str) -> (r: Route)
    ensures
        r == route_of(method, url@),
{
    match method {
        RequestMethod::Get => if same_text(url, "/") {
            Route::Index
        } else {
            Route::NotFound
        },
        RequestMethod::Post => if same_text(url, "/run") {
            Route::Run
        } else {
            Route::NotFound
        },
        _ => Route::NotFound,
    }
}

/// How a request is answered.
#[derive(Clone, Copy, PartialEq, Eq, Structural, Debug)]
pub enum Reply {
    /// The editor page, as HTML.
    Page,
    /// The outcome of a run, as JSON.
    RunOutcome,
    /// The request body could not be read.
    BadRequest,
    /// Nothing is served here.
    NotFound,
}

/// The reply to a request on `route`.
pub open spec fn reply_of(route: Route, body_read: bool) -> Reply {
    match route {
        Route::Index => Reply::Page,
        Route::Run => if body_read {
            Reply::RunOutcome
        } else {
            Reply::BadRequest
        },
        Route::NotFound => Reply::NotFound,
    }
}

/// The reply to a request on `route`; `body_read` tells whether the body of
/// a run request could be read.
pub fn reply_for(route: Route, body_read: bool) -> (reply: Reply)
    ensures
        reply == reply_of(route, body_read),
{
    match route {
        Route::Index => Reply::Page,
        Route::Run => if body_read {
            Reply::RunOutcome
        } else {
            Reply::BadRequest
        },
        Route::NotFound => Reply::NotFound,
    }
}

/// The HTTP status of a reply.
pub open spec fn status_of(reply: Reply) -> u16 {
    match reply {
        Reply::Page | Reply::RunOutcome => 200u16,
        Reply::BadRequest => 400u16,
        Reply::NotFound => 404u16,
    }
}

/// The HTTP status of a reply.
pub fn reply_status(reply: Reply) -> (status: u16)
    ensures
        status == status_of(reply),
{
    match reply {
        Reply::Page | Reply::RunOutcome => 200,
        Reply::BadRequest => 400,
        Reply::NotFound => 404,
    }
}

/// The fixed body of an error reply; the page and the run outcome carry
/// their own.
pub fn reply_text(reply: Reply) -> (text: Option<&'static str>)
    ensures
        match reply {
            Reply::BadRequest => text matches Some(t) && t@ == "bad request body"@,
            Reply::NotFound => text matches Some(t) && t@ == "not found"@,
            _ => text is None,
        },
{
    match reply {
        Reply::BadRequest => Some("bad request body"),
        Reply::NotFound => Some("not found"),
        _ => None,
    }
}

/// The content type a reply declares, if any.
pub open spec fn content_type_text(reply: Reply) -> Option<Seq<char>> {
    match reply {
        Reply::Page => Some("text/html; charset=utf-8"@),
        Reply::RunOutcome => Some("application/json"@),
        _ => None,
    }
}

/// A request is answered by its method, its URL and whether its body could
/// be read, and by nothing else: `GET /` gets the page with status 200 as
/// HTML; `POST /run` gets the run outcome with status 200 as JSON, or 400
/// with no content type when its body could not be read; anything else gets
/// 404 with no content type.
pub proof fn law_request_answer(method: RequestMethod, url: Seq<char>, body_read: bool)
    ensures
        (method == RequestMethod::Get && url == "/"@) ==> (reply_of(route_of(method, url), body_read)
            == Reply::Page && status_of(Reply::Page) == 200 && content_type_text(Reply::Page)
            == Some("text/html; charset=utf-8"@)),
        (method == RequestMethod::Post && url == "/run"@ && body_read) ==> (reply_of(
            route_of(method, url),
            body_read,
        ) == Reply::RunOutcome && status_of(Reply::RunOutcome) == 200 && content_type_text(
            Reply::RunOutcome,
        ) == Some("application/json"@)),
        (method == RequestMethod::Post && url == "/run"@ && !body_read) ==> (reply_of(
            route_of(method, url),
            body_read,
        ) == Reply::BadRequest && status_of(Reply::BadRequest) == 400 && content_type_text(
            Reply::BadRequest,
        ) is None),
        !(method == RequestMethod::Get && url == "/"@) && !(method == RequestMethod::Post && url
            == "/run"@) ==> (reply_of(route_of(method, url), body_read) == Reply::NotFound
            && status_of(Reply::NotFound) == 404 && content_type_text(Reply::NotFound) is None),
{
}

/// The bytes of an ASCII text are ASCII.
proof fn lemma_ascii_text_bytes(s: &str)
    requires
        vstd::string::is_ascii(s),
    ensures
        ascii_bytes(s.spec_bytes()),
{
    broadcast use vstd::string::is_ascii_spec_bytes, vstd::utf8::is_ascii_chars_nat_bound;

    assert forall|i: int| 0 <= i < s.spec_bytes().len() implies s.spec_bytes()[i] < 128 by {
        assert((s@[i] as nat) < 128);
    }
}

/// The `Content-Type` header of a reply: HTML for the page, JSON for a run
/// outcome, none for the plain-text error replies.
pub fn content_type_header(reply: Reply) -> (h: Option<tiny_http::Header>)
    ensures
        h == match content_type_text(reply) {
            Some(t) => Some(
                header_of(vstd::utf8::encode_utf8("Content-Type"@), vstd::utf8::encode_utf8(t)),
            ),
            None => None,
        },
{
    let value: &str = match reply {
        Reply::Page => "text/html; charset=utf-8",
        Reply::RunOutcome => "application/json",
        _ => {
            return None;
        },
    };
    let field: &str = "Content-Type";
    proof {
        reveal_strlit("Content-Type");
        reveal_strlit("text/html; charset=utf-8");
        reveal_strlit("application/json");
        assert(vstd::string::is_ascii(field));
        assert(vstd::string::is_ascii(value));
        lemma_ascii_text_bytes(field);
        lemma_ascii_text_bytes(value);
    }
    header_from_bytes(field.as_bytes(), value.as_bytes())
}

/// The error text for a panic while handling a run request: the payload's
/// text when it is a `&str` or a `String`, else a fixed internal-error text.
pub fn run_panic_message(as_str: Option<String>, as_string: Option<String>) -> (msg: String)
    ensures
        msg@ == match (as_str, as_string) {
            (Some(s), _) => s@,
            (None, Some(s)) => s@,
            (None, None) => "kestrelc-devtool: internal error (unknown panic)"@,
        },
{
    panic_text(as_str, as_string, "kestrelc-devtool: internal error (unknown panic)")
}

} // verus!

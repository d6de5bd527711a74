//! The HTTP response value that handlers of this library produce, and the
//! default responses for unmatched requests.

use crate::body::test_body;
use crate::rfc3339::is_rfc3339;
use vstd::prelude::*;

verus! {

/// An HTTP response: a status code, a content type and a body.  An empty
/// content type stands for a response that sets none.
pub struct Response {
    pub status: u16,
    pub content_type: String,
    pub body: String,
}

/// The mathematical value of a `Response`.
#[verifier::ext_equal]
pub ghost struct ResponseView {
    pub status: int,
    pub content_type: Seq<char>,
    pub body: Seq<char>,
}

impl View for Response {
    type V = ResponseView;

    open spec fn view(&self) -> ResponseView {
        ResponseView {
            status: self.status as int,
            content_type: self.content_type@,
            body: self.body@,
        }
    }
}

/// The default response for a path that no route matches: status 404,
/// no content type, empty body.
pub open spec fn not_found_view() -> ResponseView {
    ResponseView { status: 404, content_type: Seq::empty(), body: Seq::empty() }
}

/// The default response for a path whose routes all ask another method:
/// status 405, no content type, empty body.
pub open spec fn method_not_allowed_view() -> ResponseView {
    ResponseView { status: 405, content_type: Seq::empty(), body: Seq::empty() }
}

/// A successful diagnostic response: status 200, JSON content type, and
/// the fixed body around some valid RFC 3339 timestamp.
pub open spec fn is_test_success(v: ResponseView) -> bool {
    &&& v.status == 200
    &&& v.content_type == "application/json"@
    &&& exists|ts: Seq<char>| is_rfc3339(ts) && v.body == test_body(ts)
}

/// Builds the default not-found response.
pub fn not_found() -> (r: Response)
    ensures
        r@ == not_found_view(),
{
    let r = Response { status: 404, content_type: String::new(), body: String::new() };
    proof {
        assert(r@ =~= not_found_view());
    }
    r
}

/// Builds the default method-not-allowed response.
pub fn method_not_allowed() -> (r: Response)
    ensures
        r@ == method_not_allowed_view(),
{
    let r = Response { status: 405, content_type: String::new(), body: String::new() };
    proof {
        assert(r@ =~= method_not_allowed_view());
    }
    r
}

} // verus!

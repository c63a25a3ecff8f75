//! What a lookup selects: a handler of the application or a response that the
//! router makes up itself.

use vstd::prelude::*;
use crate::params::Params;

verus! {

/// Status of the default answer to `OPTIONS`.
pub const NO_CONTENT: u16 = 204;

/// Status of the default answer to a method that a path does not handle.
pub const METHOD_NOT_ALLOWED: u16 = 405;

/// Status of the answer to a path that nothing handles.
pub const NOT_FOUND: u16 = 404;

/// A response that the router makes up itself: a status, at most an `Allow`
/// header, and no body.
pub struct SyntheticResponse {
    pub status: u16,
    pub allow: Option<String>,
}

/// A synthetic response as plain values.
pub struct SyntheticView {
    pub status: u16,
    pub allow: Option<Seq<char>>,
}

impl View for SyntheticResponse {
    type V = SyntheticView;

    open spec fn view(&self) -> SyntheticView {
        SyntheticView {
            status: self.status,
            allow: match self.allow {
                Some(text) => Some(text@),
                None => None,
            },
        }
    }
}

/// The default answer with `status` whose `Allow` header reads `allow`.
pub open spec fn default_response(status: u16, allow: Seq<char>) -> SyntheticView {
    SyntheticView { status, allow: Some(allow) }
}

/// The answer to a path that nothing handles.
pub open spec fn not_found_response() -> SyntheticView {
    SyntheticView { status: NOT_FOUND, allow: None }
}

/// Trusted: `http::StatusCode::as_u16` on `http::StatusCode::NOT_FOUND`, which
/// the `http` crate defines as 404.
#[verifier::external_body]
fn not_found_status() -> (status: u16)
    ensures
        status == NOT_FOUND,
{
    http::StatusCode::NOT_FOUND.as_u16()
}

/// The built-in answer to a path that nothing handles: 404, no header, no body.
pub fn not_found_endpoint() -> (response: SyntheticResponse)
    ensures
        response@ == not_found_response(),
{
    SyntheticResponse { status: not_found_status(), allow: None }
}

/// What the router stores for a path and a method.
pub enum Endpoint<H> {
    /// A handler that the application registered.
    Handler(H),
    /// A response that the router answers with by itself.
    Synthetic(SyntheticResponse),
}

/// An endpoint as plain values.
pub enum EndpointView<H> {
    Handler(H),
    Synthetic(SyntheticView),
}

impl<H> View for Endpoint<H> {
    type V = EndpointView<H>;

    open spec fn view(&self) -> EndpointView<H> {
        match self {
            Endpoint::Handler(handler) => EndpointView::Handler(*handler),
            Endpoint::Synthetic(response) => EndpointView::Synthetic(response@),
        }
    }
}

/// The result of routing a request: the endpoint to run and the parameters
/// that the path bound.
pub struct Selection<'a, H> {
    pub endpoint: &'a Endpoint<H>,
    pub params: Params,
}

/// A selection as plain values.
pub struct SelectionView<H> {
    pub endpoint: EndpointView<H>,
    pub params: Seq<(Seq<char>, Seq<char>)>,
}

impl<'a, H> View for Selection<'a, H> {
    type V = SelectionView<H>;

    open spec fn view(&self) -> SelectionView<H> {
        SelectionView { endpoint: (*self.endpoint)@, params: self.params@ }
    }
}

} // verus!

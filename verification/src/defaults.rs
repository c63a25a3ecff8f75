//! Which default answer a path gets for a method that it does not handle.

use vstd::prelude::*;
use crate::endpoint::{METHOD_NOT_ALLOWED, NO_CONTENT};
use crate::method::{Method, MethodSet};

verus! {

/// The two default answers.
#[derive(Clone, Copy, Debug, PartialEq, Eq, Structural)]
pub enum DefaultKind {
    /// The answer to `OPTIONS`: 204 with the `Allow` header.
    Options,
    /// The answer to any other method: 405 with the `Allow` header.
    MethodNotAllowed,
}

impl DefaultKind {
    /// The status of the answer.
    pub open spec fn status_code(self) -> u16 {
        match self {
            DefaultKind::Options => NO_CONTENT,
            DefaultKind::MethodNotAllowed => METHOD_NOT_ALLOWED,
        }
    }

    /// The status of the answer.
    pub fn status(self) -> (code: u16)
        ensures
            code == self.status_code(),
    {
        match self {
            DefaultKind::Options => NO_CONTENT,
            DefaultKind::MethodNotAllowed => METHOD_NOT_ALLOWED,
        }
    }
}

/// The default that `method` gets on a path whose handled methods are
/// `supported`: none where the path handles the method, none for `HEAD`, which
/// falls back on `GET`, the 204 for `OPTIONS`, and the 405 for every other
/// method.
pub open spec fn default_kind(method: Method, supported: Set<Method>) -> Option<DefaultKind> {
    if supported.contains(method) || method == Method::Head {
        None
    } else if method == Method::Options {
        Some(DefaultKind::Options)
    } else {
        Some(DefaultKind::MethodNotAllowed)
    }
}

/// The default that `method` gets on a path whose handled methods are
/// `supported`.
pub fn default_for(method: Method, supported: &MethodSet) -> (kind: Option<DefaultKind>)
    ensures
        kind == default_kind(method, supported@),
{
    if supported.contains(method) || method == Method::Head {
        None
    } else if method == Method::Options {
        Some(DefaultKind::Options)
    } else {
        Some(DefaultKind::MethodNotAllowed)
    }
}

} // verus!

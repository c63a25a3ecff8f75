//! The path matcher of one HTTP method.
//!
//! Matching itself is the work of the `route_recognizer` crate. This module
//! declares that crate's router, names what it holds and what it answers, and
//! wraps the three calls the library makes. `PathMatcher` is the verified face
//! of it: patterns bound to handler numbers.

use vstd::prelude::*;
use crate::params::{bindings, distinct_keys, Params};
use crate::path::{is_pattern, plain};

verus! {

/// Trusted: `route_recognizer::Router`, carried as an opaque value.
#[verifier::external_type_specification]
#[verifier::external_body]
#[verifier::reject_recursive_types(T)]
pub struct ExRecognizer<T>(route_recognizer::Router<T>);

/// Trusted: the registrations that an engine holds, oldest first, each a
/// pattern and the number it was bound to.
pub uninterp spec fn engine_routes(engine: route_recognizer::Router<usize>) -> Seq<
    (Seq<char>, usize),
>;

/// Trusted: the answer of `route_recognizer::Router::recognize` for `path` from
/// an engine that holds `routes`: the number bound to the pattern it prefers
/// and the bindings of that pattern's named segments in the order in which the
/// engine hands them out, or `None` where no pattern matches.
pub uninterp spec fn recognized(routes: Seq<(Seq<char>, usize)>, path: Seq<char>) -> Option<
    (usize, Seq<(Seq<char>, Seq<char>)>),
>;

/// Some registration in `routes` is bound to `handler`.
pub open spec fn binds(routes: Seq<(Seq<char>, usize)>, handler: usize) -> bool {
    exists|i: int| 0 <= i < routes.len() && (#[trigger] routes[i]).1 == handler
}

/// Trusted: `route_recognizer::Router::new`. A new engine holds no registration.
#[verifier::external_body]
fn engine_new() -> (engine: route_recognizer::Router<usize>)
    ensures
        engine_routes(engine) == Seq::<(Seq<char>, usize)>::empty(),
{
    route_recognizer::Router::new()
}

/// Trusted: `route_recognizer::Router::add`. The call appends one registration
/// and leaves the earlier ones as they were.
///
/// The engine subtracts one from each character of a literal segment and counts
/// the segments in 32 bits, so a NUL character or four thousand million
/// segments would overflow: `is_pattern` rules both out.
#[verifier::external_body]
fn engine_add(engine: &mut route_recognizer::Router<usize>, pattern: &str, dest: usize)
    requires
        is_pattern(pattern@),
    ensures
        engine_routes(*final(engine)) == engine_routes(*old(engine)).push((pattern@, dest)),
{
    engine.add(pattern, dest)
}

/// Trusted: `route_recognizer::Router::recognize`, with the bindings copied out
/// as pairs in the engine's own order (it keeps them in a `BTreeMap`).
///
/// The answer depends on the registrations and the path alone, so it has a
/// name, `recognized`. A number that comes back is one that a registration
/// carries, and no name is bound twice. The engine takes character positions
/// for byte offsets when it cuts the bindings out of the path and subtracts
/// one from each character it looks at: `plain` keeps the two apart from where
/// they differ.
#[verifier::external_body]
fn engine_recognize(engine: &route_recognizer::Router<usize>, path: &str) -> (found: Option<
    (usize, Vec<(String, String)>),
>)
    requires
        plain(path@),
    ensures
        match found {
            Some(hit) => recognized(engine_routes(*engine), path@) == Some(
                (hit.0, bindings(hit.1@)),
            ),
            None => recognized(engine_routes(*engine), path@) is None,
        },
        found matches Some(hit) ==> binds(engine_routes(*engine), hit.0),
        found matches Some(hit) ==> distinct_keys(bindings(hit.1@)),
{
    match engine.recognize(path) {
        Ok(hit) => Some(
            (*hit.handler, hit.params.iter().map(|(k, v)| (k.to_string(), v.to_string())).collect()),
        ),
        Err(_) => None,
    }
}

/// A successful match: the number of the handler and the parameter bindings.
pub struct PathMatch {
    pub handler: usize,
    pub params: Params,
}

impl View for PathMatch {
    type V = (usize, Seq<(Seq<char>, Seq<char>)>);

    open spec fn view(&self) -> (usize, Seq<(Seq<char>, Seq<char>)>) {
        (self.handler, self.params@)
    }
}

/// The signal that no pattern matched.
#[derive(Clone, Copy, Debug, PartialEq, Eq, Structural)]
pub struct NoMatch;

/// What a matcher that holds `routes` answers for `path`. A matcher without
/// registrations matches nothing.
pub open spec fn lookup(routes: Seq<(Seq<char>, usize)>, path: Seq<char>) -> Option<
    (usize, Seq<(Seq<char>, Seq<char>)>),
> {
    if routes.len() == 0 {
        None
    } else {
        recognized(routes, path)
    }
}

/// The registered patterns of one HTTP method, each bound to a handler number.
pub struct PathMatcher {
    engine: Option<route_recognizer::Router<usize>>,
}

impl View for PathMatcher {
    type V = Seq<(Seq<char>, usize)>;

    closed spec fn view(&self) -> Seq<(Seq<char>, usize)> {
        match self.engine {
            Some(engine) => engine_routes(engine),
            None => Seq::empty(),
        }
    }
}

impl PathMatcher {
    /// A matcher without registrations.
    pub fn new() -> (matcher: PathMatcher)
        ensures
            matcher@ == Seq::<(Seq<char>, usize)>::empty(),
    {
        PathMatcher { engine: None }
    }

    /// Registers `pattern` and binds it to `handler`.
    pub fn add(&mut self, pattern: &str, handler: usize)
        requires
            is_pattern(pattern@),
        ensures
            final(self)@ == old(self)@.push((pattern@, handler)),
    {
        if self.engine.is_none() {
            self.engine = Some(engine_new());
        }
        match &mut self.engine {
            Some(engine) => engine_add(engine, pattern, handler),
            None => {},
        }
    }

    /// Looks `path` up: the handler number of the pattern that the engine
    /// prefers, with its bindings, or `NoMatch`.
    pub fn recognize(&self, path: &str) -> (found: Result<PathMatch, NoMatch>)
        requires
            plain(path@),
        ensures
            match found {
                Ok(hit) => lookup(self@, path@) == Some(hit@),
                Err(_) => lookup(self@, path@) is None,
            },
            found matches Ok(hit) ==> binds(self@, hit.handler) && distinct_keys(hit.params@),
    {
        match &self.engine {
            Some(engine) => match engine_recognize(engine, path) {
                Some(hit) => Ok(PathMatch { handler: hit.0, params: Params::from_pairs(hit.1) }),
                None => Err(NoMatch),
            },
            None => Err(NoMatch),
        }
    }
}

} // verus!

//! The method router: one path matcher per HTTP method, the handlers they
//! point at, and the set of registered paths.
//!
//! A router is filled with `add`, completed once with `add_default_handlers`,
//! and from then on only read with `route`.

use vstd::prelude::*;
use crate::defaults::{default_for, DefaultKind};
use crate::endpoint::{
    default_response, not_found_endpoint, not_found_response, Endpoint, EndpointView, Selection,
    SyntheticResponse, METHOD_NOT_ALLOWED, NO_CONTENT,
};
use crate::matcher::{NoMatch, PathMatch, PathMatcher};
use crate::method::{allow_header, allow_text, Method, MethodSet, METHOD_COUNT};
use crate::model::{
    keeps, lemma_finalized_upto_keeps, lemma_register_well_formed, lemma_with_defaults_upto_keeps,
    RouterView,
};
use crate::params::{distinct_keys, Params};
use crate::path::{is_pattern, is_plain, is_valid_pattern, plain};

verus! {

/// What a lookup does once the matcher of the requested method has answered.
pub enum Resolution {
    /// Serve the match.
    Found(PathMatch),
    /// Nothing matched a `HEAD` request: look the path up under `GET`.
    RetryAsGet,
    /// Nothing matched: answer with the built-in not-found response.
    NotFound,
}

/// Decides how a lookup for `method` goes on after its matcher answered
/// `found`.
pub fn resolve(method: Method, found: Result<PathMatch, NoMatch>) -> (next: Resolution)
    ensures
        match found {
            Ok(hit) => next == Resolution::Found(hit),
            Err(_) => if method == Method::Head {
                next is RetryAsGet
            } else {
                next is NotFound
            },
        },
{
    match found {
        Ok(hit) => Resolution::Found(hit),
        Err(_) => if method == Method::Head {
            Resolution::RetryAsGet
        } else {
            Resolution::NotFound
        },
    }
}

/// The routing table of a server: for each HTTP method a path matcher, and
/// the endpoints that the matchers point at.
pub struct MethodRouter<H> {
    table: Vec<PathMatcher>,
    endpoints: Vec<Endpoint<H>>,
    paths: Vec<String>,
    not_found: Endpoint<H>,
}

impl<H> View for MethodRouter<H> {
    type V = RouterView<H>;

    closed spec fn view(&self) -> RouterView<H> {
        RouterView {
            routes: Map::new(|m: Method| true, |m: Method| self.table@[m.ordinal()]@),
            endpoints: self.endpoints@.map_values(|e: Endpoint<H>| e@),
            paths: self.paths@.map_values(|p: String| p@),
        }
    }
}

impl<H> MethodRouter<H> {
    /// The invariant of a router: one matcher per method, and a well-formed
    /// view.
    pub closed spec fn wf(&self) -> bool {
        &&& self.table@.len() == METHOD_COUNT
        &&& self.not_found@ == EndpointView::<H>::Synthetic(not_found_response())
        &&& self@.well_formed()
    }

    /// The view of a router that meets its invariant is well formed.
    pub proof fn lemma_wf_view(&self)
        requires
            self.wf(),
        ensures
            self@.well_formed(),
    {
    }

    /// A router without registrations.
    pub fn new() -> (router: MethodRouter<H>)
        ensures
            router.wf(),
            router@ == RouterView::<H>::empty(),
    {
        let mut table: Vec<PathMatcher> = Vec::new();
        let mut i: usize = 0;
        while i < METHOD_COUNT
            invariant
                i <= METHOD_COUNT,
                table@.len() == i,
                forall|k: int| 0 <= k < i ==> (#[trigger] table@[k])@ == Seq::<(Seq<char>, usize)>::empty(),
            decreases METHOD_COUNT - i,
        {
            table.push(PathMatcher::new());
            i += 1;
        }
        let router = MethodRouter {
            table,
            endpoints: Vec::new(),
            paths: Vec::new(),
            not_found: Endpoint::Synthetic(not_found_endpoint()),
        };
        assert(router@.routes =~= RouterView::<H>::empty().routes);
        assert(router@.endpoints =~= RouterView::<H>::empty().endpoints);
        assert(router@.paths =~= RouterView::<H>::empty().paths);
        router
    }

    /// Stores `endpoint` and binds it to `path` in the matcher of `method`.
    fn register(&mut self, path: &str, method: Method, endpoint: Endpoint<H>)
        requires
            old(self).wf(),
            is_pattern(path@),
        ensures
            final(self).wf(),
            final(self)@ == old(self)@.register(path@, method, endpoint@),
    {
        let id = self.endpoints.len();
        self.endpoints.push(endpoint);
        let slot = method.index();
        self.table[slot].add(path, id);
        proof {
            let before = old(self)@;
            let after = before.register(path@, method, endpoint@);
            assert(self@.endpoints =~= after.endpoints);
            assert(self@.paths =~= after.paths);
            assert forall|m: Method| #[trigger] self@.routes[m] == after.routes[m] by {
                if m != method {
                    assert(m.ordinal() != method.ordinal());
                }
            }
            assert(self@.routes =~= after.routes);
            assert(self.endpoints@.len() == before.endpoints.len() + 1);
            assert(self.endpoints.len() <= usize::MAX);
            lemma_register_well_formed(before, path@, method, endpoint@);
        }
    }

    /// Whether `path` is in the set of paths.
    fn has_path(&self, path: &str) -> (known: bool)
        ensures
            known == self@.paths.contains(path@),
    {
        let wanted = path.to_owned();
        let mut i: usize = 0;
        while i < self.paths.len()
            invariant
                i <= self.paths.len(),
                wanted@ == path@,
                forall|k: int| 0 <= k < i ==> self.paths@[k]@ != path@,
            decreases self.paths.len() - i,
        {
            if self.paths[i] == wanted {
                assert(self@.paths[i as int] == path@);
                return true;
            }
            i += 1;
        }
        false
    }

    /// Registers `ep` as the handler of `path` under `method`, and puts `path`
    /// into the set of paths.
    ///
    /// Where `path` is registered under `method` a second time, the router
    /// keeps both registrations and both handlers. Which of the two a lookup
    /// then finds is left to the matching engine, and this contract promises
    /// neither.
    pub fn add(&mut self, path: &str, method: Method, ep: H)
        requires
            old(self).wf(),
            is_pattern(path@),
        ensures
            final(self).wf(),
            final(self)@ == old(self)@.add(path@, method, ep),
    {
        self.register(path, method, Endpoint::Handler(ep));
        let ghost registered = self@;
        if !self.has_path(path) {
            self.paths.push(path.to_owned());
            proof {
                assert(self@.paths =~= registered.paths.push(path@));
                assert(self@.routes =~= registered.routes);
                assert(self@.endpoints =~= registered.endpoints);
                assert(self@.paths.no_duplicates());
            }
        }
    }

    /// `add` for any text: registers `ep` where `path` can be a pattern, and
    /// hands `ep` back, with the router as it was, where it cannot.
    pub fn try_add(&mut self, path: &str, method: Method, ep: H) -> (outcome: Result<(), H>)
        requires
            old(self).wf(),
        ensures
            final(self).wf(),
            match outcome {
                Ok(_) => is_pattern(path@) && final(self)@ == old(self)@.add(path@, method, ep),
                Err(back) => !is_pattern(path@) && back == ep && final(self)@ == old(self)@,
            },
    {
        if is_valid_pattern(path) {
            self.add(path, method, ep);
            Ok(())
        } else {
            Err(ep)
        }
    }

    /// What the matcher of `method` answers for `path`.
    fn probe(&self, path: &str, method: Method) -> (found: Result<PathMatch, NoMatch>)
        requires
            self.wf(),
            plain(path@),
        ensures
            match found {
                Ok(hit) => self@.probe(method, path@) == Some(hit@),
                Err(_) => self@.probe(method, path@) is None,
            },
            found matches Ok(hit) ==> hit.handler < self@.endpoints.len() && distinct_keys(
                hit.params@,
            ),
    {
        self.table[method.index()].recognize(path)
    }

    /// The methods for which a handler is registered for `path`: those whose
    /// matcher recognises it.
    pub fn get_http_methods_with_handlers(&self, path: &str) -> (supported: MethodSet)
        requires
            self.wf(),
            plain(path@),
        ensures
            supported@ == self@.supported(path@),
    {
        let mut supported = MethodSet::new();
        let mut i: usize = 0;
        while i < METHOD_COUNT
            invariant
                i <= METHOD_COUNT,
                self.wf(),
                plain(path@),
                forall|m: Method|
                    supported@.contains(m) <==> m.ordinal() < i && self@.probe(m, path@) is Some,
            decreases METHOD_COUNT - i,
        {
            let method = Method::from_index(i);
            if self.probe(path, method).is_ok() {
                supported.insert(method);
            }
            i += 1;
        }
        assert(supported@ =~= self@.supported(path@));
        supported
    }

    /// Registers the default `OPTIONS` handler of `path`: a 204 whose `Allow`
    /// header lists `supported`.
    fn add_default_options_handler(&mut self, path: &str, supported: &MethodSet)
        requires
            old(self).wf(),
            is_pattern(path@),
        ensures
            final(self).wf(),
            final(self)@ == old(self)@.register(
                path@,
                Method::Options,
                EndpointView::Synthetic(default_response(NO_CONTENT, allow_text(supported@))),
            ),
    {
        let allow = allow_header(supported);
        let response = SyntheticResponse { status: NO_CONTENT, allow: Some(allow) };
        self.register(path, Method::Options, Endpoint::Synthetic(response));
    }

    /// Registers the default handler of `path` for a `method` that it does not
    /// handle: a 405 whose `Allow` header lists `supported`.
    fn add_method_not_allowed_handler(&mut self, path: &str, method: Method, supported: &MethodSet)
        requires
            old(self).wf(),
            is_pattern(path@),
        ensures
            final(self).wf(),
            final(self)@ == old(self)@.register(
                path@,
                method,
                EndpointView::Synthetic(
                    default_response(METHOD_NOT_ALLOWED, allow_text(supported@)),
                ),
            ),
    {
        let allow = allow_header(supported);
        let response = SyntheticResponse { status: METHOD_NOT_ALLOWED, allow: Some(allow) };
        self.register(path, method, Endpoint::Synthetic(response));
    }

    /// Gives `path` its defaults: for every method but `HEAD` whose matcher
    /// does not recognise `path`, a synthetic handler whose `Allow` header
    /// lists the methods that do.
    fn add_defaults_for(&mut self, path: &str)
        requires
            old(self).wf(),
            is_pattern(path@),
        ensures
            final(self).wf(),
            final(self)@ == old(self)@.with_defaults(path@),
    {
        let supported = self.get_http_methods_with_handlers(path);
        let mut i: usize = 0;
        while i < METHOD_COUNT
            invariant
                i <= METHOD_COUNT,
                self.wf(),
                is_pattern(path@),
                self@ == old(self)@.with_defaults_upto(path@, supported@, i as nat),
            decreases METHOD_COUNT - i,
        {
            let method = Method::from_index(i);
            match default_for(method, &supported) {
                Some(DefaultKind::Options) => {
                    self.add_default_options_handler(path, &supported);
                },
                Some(DefaultKind::MethodNotAllowed) => {
                    self.add_method_not_allowed_handler(path, method, &supported);
                },
                None => {},
            }
            i += 1;
        }
    }

    /// Completes the router, once, after the last `add`. For each registered
    /// path:
    /// - if missing, adds an `OPTIONS` handler that answers 204 and lists the
    ///   path's methods in the `Allow` header;
    /// - for each other method without a handler, adds a handler that answers
    ///   405 with the same `Allow` header. `HEAD` gets none, because a `HEAD`
    ///   request falls back on `GET`.
    ///
    /// Nothing that was registered before is changed or removed.
    pub fn add_default_handlers(&mut self)
        requires
            old(self).wf(),
        ensures
            final(self).wf(),
            final(self)@ == old(self)@.finalized(),
            keeps(final(self)@, old(self)@),
    {
        let mut i: usize = 0;
        while i < self.paths.len()
            invariant
                i <= self.paths.len(),
                self.wf(),
                old(self).wf(),
                self@.paths == old(self)@.paths,
                self.paths@.len() == old(self)@.paths.len(),
                self@ == old(self)@.finalized_upto(i as nat),
            decreases self.paths.len() - i,
        {
            let path = self.paths[i].clone();
            assert(path@ == self@.paths[i as int]);
            let ghost before = self@;
            self.add_defaults_for(path.as_str());
            proof {
                lemma_with_defaults_upto_keeps(
                    before,
                    path@,
                    before.supported(path@),
                    METHOD_COUNT as nat,
                );
            }
            i += 1;
        }
        proof {
            lemma_finalized_upto_keeps(old(self)@, old(self)@.paths.len());
        }
    }

    /// Selects the endpoint for a request of `method` for `path`.
    ///
    /// The handler that the matcher of `method` finds is served with the
    /// parameters that the path bound. A `HEAD` request that nothing matches
    /// is looked up again as `GET`. Any other request that nothing matches
    /// gets the built-in not-found answer, without parameters.
    pub fn route(&self, path: &str, method: Method) -> (selection: Selection<'_, H>)
        requires
            self.wf(),
            plain(path@),
        ensures
            selection@ == self@.route(path@, method),
            distinct_keys(selection@.params),
        decreases
                (if method == Method::Head {
                    1nat
                } else {
                    0nat
                }),
    {
        match resolve(method, self.probe(path, method)) {
            Resolution::Found(hit) => Selection {
                endpoint: &self.endpoints[hit.handler],
                params: hit.params,
            },
            Resolution::RetryAsGet => self.route(path, Method::Get),
            Resolution::NotFound => Selection { endpoint: &self.not_found, params: Params::new() },
        }
    }

    /// `route` for any text: the selection where `path` is a plain path, and
    /// `None` where it is not.
    pub fn try_route(&self, path: &str, method: Method) -> (selection: Option<Selection<'_, H>>)
        requires
            self.wf(),
        ensures
            match selection {
                Some(found) => plain(path@) && found@ == self@.route(path@, method)
                    && distinct_keys(found@.params),
                None => !plain(path@),
            },
    {
        if is_plain(path) {
            Some(self.route(path, method))
        } else {
            None
        }
    }
}

} // verus!

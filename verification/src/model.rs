//! The router as plain values: what it holds, and what registration, lookup
//! and completion mean.

use vstd::prelude::*;
use crate::defaults::{default_kind, DefaultKind};
use crate::endpoint::{default_response, not_found_response, EndpointView, SelectionView};
use crate::matcher::lookup;
use crate::method::{allow_text, Method, METHOD_COUNT};
use crate::path::is_pattern;

verus! {

/// A router as plain values.
pub struct RouterView<H> {
    /// The registrations of each method, oldest first: a pattern and the
    /// position of its endpoint in `endpoints`.
    pub routes: Map<Method, Seq<(Seq<char>, usize)>>,
    /// Every endpoint the router owns, in the order of registration.
    pub endpoints: Seq<EndpointView<H>>,
    /// The distinct patterns that the application registered, oldest first.
    pub paths: Seq<Seq<char>>,
}

impl<H> RouterView<H> {
    /// The router without registrations.
    pub open spec fn empty() -> Self {
        RouterView {
            routes: Map::new(
                |m: Method| true,
                |m: Method| Seq::<(Seq<char>, usize)>::empty(),
            ),
            endpoints: Seq::empty(),
            paths: Seq::empty(),
        }
    }

    /// Every method has a list of registrations, every registration points
    /// into the endpoints, and the paths are distinct patterns.
    pub open spec fn well_formed(self) -> bool {
        &&& forall|m: Method| self.routes.dom().contains(m)
        &&& forall|m: Method, i: int|
            0 <= i < self.routes[m].len() ==> (#[trigger] self.routes[m][i]).1
                < self.endpoints.len()
        &&& self.endpoints.len() <= usize::MAX
        &&& self.paths.no_duplicates()
        &&& forall|i: int| 0 <= i < self.paths.len() ==> is_pattern(#[trigger] self.paths[i])
    }

    /// What the matcher of `method` answers for `path`.
    pub open spec fn probe(self, method: Method, path: Seq<char>) -> Option<
        (usize, Seq<(Seq<char>, Seq<char>)>),
    > {
        lookup(self.routes[method], path)
    }

    /// The methods whose matcher recognises `path`.
    pub open spec fn supported(self, path: Seq<char>) -> Set<Method> {
        Set::new(|m: Method| self.probe(m, path) is Some)
    }

    /// The router after `endpoint` was stored and bound to `path` under
    /// `method`.
    pub open spec fn register(self, path: Seq<char>, method: Method, endpoint: EndpointView<H>) -> Self {
        RouterView {
            routes: self.routes.insert(
                method,
                self.routes[method].push((path, self.endpoints.len() as usize)),
            ),
            endpoints: self.endpoints.push(endpoint),
            paths: self.paths,
        }
    }

    /// The router after `path` was put into the set of paths.
    pub open spec fn remember(self, path: Seq<char>) -> Self {
        RouterView {
            routes: self.routes,
            endpoints: self.endpoints,
            paths: if self.paths.contains(path) {
                self.paths
            } else {
                self.paths.push(path)
            },
        }
    }

    /// The router after the application registered `handler` for `path`
    /// under `method`.
    pub open spec fn add(self, path: Seq<char>, method: Method, handler: H) -> Self {
        self.register(path, method, EndpointView::Handler(handler)).remember(path)
    }

    /// The selection of a match: the endpoint it points at and its bindings.
    pub open spec fn selected(self, hit: (usize, Seq<(Seq<char>, Seq<char>)>)) -> SelectionView<H> {
        SelectionView { endpoint: self.endpoints[hit.0 as int], params: hit.1 }
    }

    /// The selection for a request that nothing handles.
    pub open spec fn not_found() -> SelectionView<H> {
        SelectionView {
            endpoint: EndpointView::Synthetic(not_found_response()),
            params: Seq::empty(),
        }
    }

    /// The selection for `path` under `method`: what the matcher of `method`
    /// finds; else, for `HEAD`, what the matcher of `GET` finds; else the
    /// built-in not-found answer.
    pub open spec fn route(self, path: Seq<char>, method: Method) -> SelectionView<H> {
        match self.probe(method, path) {
            Some(hit) => self.selected(hit),
            None => if method == Method::Head {
                match self.probe(Method::Get, path) {
                    Some(hit) => self.selected(hit),
                    None => Self::not_found(),
                }
            } else {
                Self::not_found()
            },
        }
    }

    /// The router after `method` got its default for `path`, if it is owed
    /// one: a synthetic endpoint whose `Allow` header lists `supported`.
    pub open spec fn with_default(self, path: Seq<char>, method: Method, supported: Set<Method>) -> Self {
        match default_kind(method, supported) {
            Some(kind) => self.register(
                path,
                method,
                EndpointView::Synthetic(default_response(kind.status_code(), allow_text(supported))),
            ),
            None => self,
        }
    }

    /// The router after the first `n` methods got their defaults for `path`.
    pub open spec fn with_defaults_upto(self, path: Seq<char>, supported: Set<Method>, n: nat) -> Self
        decreases n,
    {
        if n == 0 {
            self
        } else {
            self.with_defaults_upto(path, supported, (n - 1) as nat).with_default(
                path,
                Method::at(n - 1),
                supported,
            )
        }
    }

    /// The router after every method got its default for `path`. The methods
    /// that count as handled are those whose matcher recognises `path` before
    /// the first default is added.
    pub open spec fn with_defaults(self, path: Seq<char>) -> Self {
        self.with_defaults_upto(path, self.supported(path), METHOD_COUNT as nat)
    }

    /// The router after its first `n` paths got their defaults, one path
    /// after the other.
    pub open spec fn finalized_upto(self, n: nat) -> Self
        decreases n,
    {
        if n == 0 {
            self
        } else {
            self.finalized_upto((n - 1) as nat).with_defaults(self.paths[n - 1])
        }
    }

    /// The router after every path got its defaults.
    pub open spec fn finalized(self) -> Self {
        self.finalized_upto(self.paths.len())
    }
}

/// `register` keeps a router well formed.
pub proof fn lemma_register_well_formed<H>(
    view: RouterView<H>,
    path: Seq<char>,
    method: Method,
    endpoint: EndpointView<H>,
)
    requires
        view.well_formed(),
        view.endpoints.len() < usize::MAX,
    ensures
        view.register(path, method, endpoint).well_formed(),
{
    let after = view.register(path, method, endpoint);
    assert forall|m: Method, i: int| 0 <= i < after.routes[m].len() implies (
    #[trigger] after.routes[m][i]).1 < after.endpoints.len() by {
        if m == method && i == view.routes[m].len() {
        } else {
            assert(after.routes[m][i] == view.routes[m][i]);
        }
    }
}

/// `after` holds every endpoint and every registration of `before`, in the
/// same places: the endpoints of `before` at the front of its endpoints, and
/// for every method the registrations of `before` ahead of any others.
pub open spec fn extends<H>(after: RouterView<H>, before: RouterView<H>) -> bool {
    &&& before.endpoints.is_prefix_of(after.endpoints)
    &&& forall|m: Method| (#[trigger] before.routes[m]).is_prefix_of(after.routes[m])
}

/// `after` extends `before` and has the same paths.
pub open spec fn keeps<H>(after: RouterView<H>, before: RouterView<H>) -> bool {
    &&& after.paths == before.paths
    &&& extends(after, before)
}

/// In `after`, `method` has one registration more than in `before`: `path`,
/// bound to a synthetic endpoint that `before` did not have, of the status of
/// `kind` and with `allow` as its `Allow` header.
pub open spec fn default_added<H>(
    after: RouterView<H>,
    before: RouterView<H>,
    path: Seq<char>,
    method: Method,
    kind: DefaultKind,
    allow: Seq<char>,
) -> bool {
    let id = after.routes[method].last().1;
    &&& after.routes[method] == before.routes[method].push((path, id))
    &&& before.endpoints.len() <= id < after.endpoints.len()
    &&& after.endpoints[id as int] == EndpointView::<H>::Synthetic(
        default_response(kind.status_code(), allow),
    )
}

/// `view` holds a default for `path` under `method`: a registration of `path`
/// that points at a synthetic endpoint of the status of `kind`, with `allow` as
/// its `Allow` header.
pub open spec fn holds_default<H>(
    view: RouterView<H>,
    path: Seq<char>,
    method: Method,
    kind: DefaultKind,
    allow: Seq<char>,
) -> bool {
    exists|j: int|
        0 <= j < view.routes[method].len() && (#[trigger] view.routes[method][j]).0 == path
            && view.routes[method][j].1 < view.endpoints.len()
            && view.endpoints[view.routes[method][j].1 as int] == EndpointView::<H>::Synthetic(
            default_response(kind.status_code(), allow),
        )
}

/// Storing one more endpoint keeps what was there.
pub proof fn lemma_register_keeps<H>(
    view: RouterView<H>,
    path: Seq<char>,
    method: Method,
    endpoint: EndpointView<H>,
)
    requires
        forall|m: Method| view.routes.dom().contains(m),
    ensures
        keeps(view.register(path, method, endpoint), view),
{
    let after = view.register(path, method, endpoint);
    assert(view.endpoints =~= after.endpoints.subrange(0, view.endpoints.len() as int));
    assert forall|m: Method| (#[trigger] view.routes[m]).is_prefix_of(after.routes[m]) by {
        assert(view.routes[m] =~= after.routes[m].subrange(0, view.routes[m].len() as int));
    }
}

/// A router keeps itself.
pub proof fn lemma_keeps_itself<H>(view: RouterView<H>)
    ensures
        keeps(view, view),
{
    assert(view.endpoints =~= view.endpoints.subrange(0, view.endpoints.len() as int));
    assert forall|m: Method| (#[trigger] view.routes[m]).is_prefix_of(view.routes[m]) by {
        assert(view.routes[m] =~= view.routes[m].subrange(0, view.routes[m].len() as int));
    }
}

/// Extending is transitive.
pub proof fn lemma_extends_transitive<H>(
    last: RouterView<H>,
    middle: RouterView<H>,
    first: RouterView<H>,
)
    requires
        extends(last, middle),
        extends(middle, first),
    ensures
        extends(last, first),
{
    assert(first.endpoints =~= last.endpoints.subrange(0, first.endpoints.len() as int));
    assert forall|m: Method| (#[trigger] first.routes[m]).is_prefix_of(last.routes[m]) by {
        assert(first.routes[m].is_prefix_of(middle.routes[m]));
        assert(middle.routes[m].is_prefix_of(last.routes[m]));
        assert(first.routes[m] =~= last.routes[m].subrange(0, first.routes[m].len() as int));
    }
}

/// Keeping is transitive.
pub proof fn lemma_keeps_transitive<H>(
    last: RouterView<H>,
    middle: RouterView<H>,
    first: RouterView<H>,
)
    requires
        keeps(last, middle),
        keeps(middle, first),
    ensures
        keeps(last, first),
{
    lemma_extends_transitive(last, middle, first);
}

/// The defaults of the first `n` methods keep what was there, and leave every
/// method its list of registrations.
pub proof fn lemma_with_defaults_upto_keeps<H>(
    view: RouterView<H>,
    path: Seq<char>,
    supported: Set<Method>,
    n: nat,
)
    requires
        forall|m: Method| view.routes.dom().contains(m),
    ensures
        keeps(view.with_defaults_upto(path, supported, n), view),
        forall|m: Method| view.with_defaults_upto(path, supported, n).routes.dom().contains(m),
    decreases n,
{
    if n == 0 {
        lemma_keeps_itself(view);
    } else {
        let earlier = view.with_defaults_upto(path, supported, (n - 1) as nat);
        let method = Method::at(n - 1);
        lemma_with_defaults_upto_keeps(view, path, supported, (n - 1) as nat);
        match default_kind(method, supported) {
            Some(kind) => {
                let endpoint = EndpointView::<H>::Synthetic(
                    default_response(kind.status_code(), allow_text(supported)),
                );
                lemma_register_keeps(earlier, path, method, endpoint);
                lemma_keeps_transitive(earlier.register(path, method, endpoint), earlier, view);
            },
            None => {},
        }
    }
}

/// Giving the first `n` paths their defaults keeps what was there.
pub proof fn lemma_finalized_upto_keeps<H>(view: RouterView<H>, n: nat)
    requires
        forall|m: Method| view.routes.dom().contains(m),
    ensures
        keeps(view.finalized_upto(n), view),
        forall|m: Method| view.finalized_upto(n).routes.dom().contains(m),
    decreases n,
{
    if n == 0 {
        lemma_keeps_itself(view);
    } else {
        let earlier = view.finalized_upto((n - 1) as nat);
        lemma_finalized_upto_keeps(view, (n - 1) as nat);
        let path = view.paths[n - 1];
        lemma_with_defaults_upto_keeps(earlier, path, earlier.supported(path), METHOD_COUNT as nat);
        lemma_keeps_transitive(view.finalized_upto(n), earlier, view);
    }
}

/// The state after the first `n` methods got their defaults for `path`, method
/// by method.
pub proof fn lemma_defaults_by_method<H>(
    view: RouterView<H>,
    path: Seq<char>,
    supported: Set<Method>,
    n: nat,
)
    requires
        forall|m: Method| view.routes.dom().contains(m),
        n <= METHOD_COUNT,
        view.with_defaults_upto(path, supported, n).endpoints.len() <= usize::MAX,
    ensures
        forall|m: Method|
            match #[trigger] default_kind(m, supported) {
                Some(kind) if m.ordinal() < n => default_added(
                    view.with_defaults_upto(path, supported, n),
                    view,
                    path,
                    m,
                    kind,
                    allow_text(supported),
                ),
                _ => view.with_defaults_upto(path, supported, n).routes[m] == view.routes[m],
            },
    decreases n,
{
    if n > 0 {
        let earlier = view.with_defaults_upto(path, supported, (n - 1) as nat);
        let after = view.with_defaults_upto(path, supported, n);
        let method = Method::at(n - 1);
        let allow = allow_text(supported);
        lemma_with_defaults_upto_keeps(view, path, supported, (n - 1) as nat);
        assert(earlier.endpoints.len() <= after.endpoints.len());
        lemma_defaults_by_method(view, path, supported, (n - 1) as nat);
        assert forall|m: Method|
            match #[trigger] default_kind(m, supported) {
                Some(kind) if m.ordinal() < n => default_added(after, view, path, m, kind, allow),
                _ => after.routes[m] == view.routes[m],
            } by {
            match default_kind(method, supported) {
                Some(added) => {
                    if m == method {
                        assert(earlier.routes[m] == view.routes[m]);
                        assert(after.routes[m].last() == (path, earlier.endpoints.len() as usize));
                    } else {
                        assert(after.routes[m] == earlier.routes[m]);
                        match default_kind(m, supported) {
                            Some(kind) if m.ordinal() < n => {
                                assert(m.ordinal() < n - 1);
                                assert(default_added(earlier, view, path, m, kind, allow));
                                let id = earlier.routes[m].last().1;
                                assert(after.endpoints[id as int] == earlier.endpoints[id as int]);
                            },
                            _ => {},
                        }
                    }
                },
                None => {
                    assert(after == earlier);
                },
            }
        }
    }
}

/// Each step of completion keeps what the steps before it left.
pub proof fn lemma_finalized_upto_grows<H>(view: RouterView<H>, k: nat, n: nat)
    requires
        forall|m: Method| view.routes.dom().contains(m),
        k <= n,
    ensures
        keeps(view.finalized_upto(n), view.finalized_upto(k)),
    decreases n,
{
    lemma_finalized_upto_keeps(view, k);
    if n == k {
        lemma_keeps_itself(view.finalized_upto(k));
    } else {
        let earlier = view.finalized_upto((n - 1) as nat);
        let path = view.paths[n - 1];
        lemma_finalized_upto_grows(view, k, (n - 1) as nat);
        lemma_finalized_upto_keeps(view, (n - 1) as nat);
        lemma_with_defaults_upto_keeps(earlier, path, earlier.supported(path), METHOD_COUNT as nat);
        lemma_keeps_transitive(view.finalized_upto(n), earlier, view.finalized_upto(k));
    }
}

} // verus!

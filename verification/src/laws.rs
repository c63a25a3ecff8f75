//! What holds of every router, stated over its view and proved from the
//! definitions in `model`.
//!
//! Which pattern the matching engine prefers for a path is the engine's
//! business. Where a law depends on it, the engine's answer stands in the law
//! as a condition.

use vstd::prelude::*;
use crate::defaults::default_kind;
use crate::endpoint::{EndpointView, SelectionView};
use crate::method::{allow_text, Method, METHOD_COUNT};
use crate::model::{
    default_added, extends, holds_default, keeps, lemma_defaults_by_method,
    lemma_finalized_upto_grows, lemma_finalized_upto_keeps, lemma_register_keeps, RouterView,
};

verus! {

/// A registration is served where the engine selects it: if `method` holds a
/// registration of `path` and its matcher answers a lookup of `path` with that
/// registration and the bindings `params`, then routing `path` under `method`
/// yields the registered endpoint and those bindings.
pub proof fn law_selected_registration_is_served<H>(
    view: RouterView<H>,
    path: Seq<char>,
    method: Method,
    k: int,
    params: Seq<(Seq<char>, Seq<char>)>,
)
    requires
        0 <= k < view.routes[method].len(),
        view.routes[method][k].0 == path,
    ensures
        view.probe(method, path) == Some((view.routes[method][k].1, params)) ==> view.route(
            path,
            method,
        ) == (SelectionView {
            endpoint: view.endpoints[view.routes[method][k].1 as int],
            params,
        }),
{
}

/// `add` binds the handler: afterwards the newest registration of `method` is
/// `path`, it points at the newest endpoint, and that endpoint is the
/// handler. The registrations of every other method are untouched, `path` is
/// among the paths, and everything that was there before is still in its
/// place.
pub proof fn law_add_binds_handler<H>(
    view: RouterView<H>,
    path: Seq<char>,
    method: Method,
    handler: H,
)
    requires
        view.well_formed(),
    ensures
        ({
            let after = view.add(path, method, handler);
            let id = view.endpoints.len();
            &&& after.routes[method] == view.routes[method].push((path, id as usize))
            &&& after.endpoints == view.endpoints.push(EndpointView::Handler(handler))
            &&& after.endpoints[id as int] == EndpointView::Handler(handler)
            &&& forall|m: Method| m != method ==> #[trigger] after.routes[m] == view.routes[m]
            &&& after.paths.contains(path)
            &&& view.paths.is_prefix_of(after.paths)
            &&& extends(after, view)
        }),
{
    let after = view.add(path, method, handler);
    if !view.paths.contains(path) {
        assert(after.paths.last() == path);
    }
    assert(view.paths =~= after.paths.subrange(0, view.paths.len() as int));
    lemma_register_keeps(view, path, method, EndpointView::Handler(handler));
}

/// A registered handler is served wherever the engine selects its
/// registration, whatever was registered or completed since. Let `later` be
/// any router that extends the one in which `handler` was registered for
/// `path` under `method`. If the matcher of `method` answers a lookup of
/// `path` in `later` with that registration and the bindings `params`, then
/// routing `path` under `method` in `later` yields `handler` and `params`.
pub proof fn law_registered_handler_is_served<H>(
    view: RouterView<H>,
    later: RouterView<H>,
    path: Seq<char>,
    method: Method,
    handler: H,
    params: Seq<(Seq<char>, Seq<char>)>,
)
    requires
        view.well_formed(),
        extends(later, view.add(path, method, handler)),
    ensures
        later.routes[method][view.routes[method].len() as int] == (
            path,
            view.endpoints.len() as usize,
        ),
        later.probe(method, path) == Some((view.endpoints.len() as usize, params))
            ==> later.route(path, method) == (SelectionView {
            endpoint: EndpointView::Handler(handler),
            params,
        }),
{
    let after = view.add(path, method, handler);
    let id = view.endpoints.len() as int;
    assert(after.endpoints[id] == EndpointView::Handler(handler));
    assert(later.endpoints[id] == after.endpoints[id]);
    let k = view.routes[method].len() as int;
    assert(after.routes[method][k] == (path, view.endpoints.len() as usize));
    assert(after.routes[method].is_prefix_of(later.routes[method]));
    assert(later.routes[method][k] == after.routes[method][k]);
}

/// A `HEAD` request that its own matcher does not recognise is routed as the
/// `GET` request for the same path.
pub proof fn law_head_falls_back_on_get<H>(view: RouterView<H>, path: Seq<char>)
    ensures
        view.probe(Method::Head, path) is None ==> view.route(path, Method::Head) == view.route(
            path,
            Method::Get,
        ),
        view.probe(Method::Head, path) matches Some(hit) ==> view.route(path, Method::Head)
            == view.selected(hit),
{
}

/// A request that neither the matcher of its method recognises nor, for
/// `HEAD`, the matcher of `GET`, gets the built-in not-found answer and no
/// parameters. In a router without registrations that is every request.
pub proof fn law_unmatched_is_not_found<H>(view: RouterView<H>, path: Seq<char>, method: Method)
    ensures
        view.probe(method, path) is None && (method == Method::Head ==> view.probe(
            Method::Get,
            path,
        ) is None) ==> view.route(path, method) == RouterView::<H>::not_found(),
        RouterView::<H>::empty().route(path, method) == RouterView::<H>::not_found(),
{
}

/// Routing reads the router and nothing else: two lookups of the same path
/// under the same method in the same router give the same selection.
pub proof fn law_route_is_repeatable<H>(
    view: RouterView<H>,
    path: Seq<char>,
    method: Method,
    first: SelectionView<H>,
    second: SelectionView<H>,
)
    ensures
        first == view.route(path, method) && second == view.route(path, method) ==> first
            == second,
{
}

/// Completing a router is pure enrichment: the paths stay as they are, every
/// endpoint keeps its place, and every method keeps its registrations, in
/// their order, ahead of the defaults that it gained.
pub proof fn law_completion_keeps_registrations<H>(view: RouterView<H>)
    requires
        view.well_formed(),
    ensures
        keeps(view.finalized(), view),
{
    lemma_finalized_upto_keeps(view, view.paths.len());
}

/// Defaults fill the gaps of a path and nothing else. After `path` got its
/// defaults, every method that its matcher did not recognise `path` for,
/// `HEAD` excepted, has gained exactly one registration: `path`, bound to a
/// new synthetic endpoint that answers 204 for `OPTIONS` and 405 for any other
/// method. All these endpoints carry the same `Allow` header, which lists the
/// methods that did recognise `path`. Every other method, `HEAD` among them,
/// has the registrations it had.
pub proof fn law_defaults_fill_gaps<H>(view: RouterView<H>, path: Seq<char>)
    requires
        view.well_formed(),
        view.with_defaults(path).well_formed(),
    ensures
        forall|m: Method|
            match #[trigger] default_kind(m, view.supported(path)) {
                Some(kind) => default_added(
                    view.with_defaults(path),
                    view,
                    path,
                    m,
                    kind,
                    allow_text(view.supported(path)),
                ),
                None => view.with_defaults(path).routes[m] == view.routes[m],
            },
        forall|m: Method|
            (#[trigger] default_kind(m, view.supported(path))) is Some <==> m != Method::Head
                && view.probe(m, path) is None,
        view.with_defaults(path).routes[Method::Head] == view.routes[Method::Head],
{
    lemma_defaults_by_method(view, path, view.supported(path), METHOD_COUNT as nat);
    assert(default_kind(Method::Head, view.supported(path)) is None);
}

/// Completion covers every path. Take any registered path and any method but
/// `HEAD`, and look at the router when the path's turn comes, after the paths
/// registered before it got their defaults. Either the matcher of the method
/// recognises the path at that moment, or the completed router holds a default
/// for the path under that method: the 204 for `OPTIONS`, the 405 for any other
/// method, with an `Allow` header that lists the methods that did recognise the
/// path at that moment.
pub proof fn law_completion_covers_every_path<H>(view: RouterView<H>, k: int, method: Method)
    requires
        view.well_formed(),
        view.finalized().well_formed(),
        0 <= k < view.paths.len(),
    ensures
        ({
            let turn = view.finalized_upto(k as nat);
            let path = view.paths[k];
            match default_kind(method, turn.supported(path)) {
                Some(kind) => holds_default(
                    view.finalized(),
                    path,
                    method,
                    kind,
                    allow_text(turn.supported(path)),
                ),
                None => method == Method::Head || turn.probe(method, path) is Some,
            }
        }),
{
    let turn = view.finalized_upto(k as nat);
    let path = view.paths[k];
    let supported = turn.supported(path);
    let after = view.finalized_upto((k + 1) as nat);
    let done = view.finalized();
    assert(after == turn.with_defaults(path));
    lemma_finalized_upto_keeps(view, k as nat);
    lemma_finalized_upto_grows(view, (k + 1) as nat, view.paths.len());
    assert(after.endpoints.len() <= done.endpoints.len());
    lemma_defaults_by_method(turn, path, supported, METHOD_COUNT as nat);
    match default_kind(method, supported) {
        Some(kind) => {
            assert(default_added(after, turn, path, method, kind, allow_text(supported)));
            let j = after.routes[method].len() - 1;
            assert(after.routes[method].is_prefix_of(done.routes[method]));
            assert(done.routes[method][j] == after.routes[method][j]);
            let id = after.routes[method][j].1;
            assert(done.endpoints[id as int] == after.endpoints[id as int]);
        },
        None => {},
    }
}

} // verus!

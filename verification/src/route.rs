//! Routes, groups of routes, and the router that picks the route of a
//! request and runs it.

use crate::handler::BoxCloneService;
use crate::handler::HandlerTrait;
use crate::handler::HandlerTraitWithState;
use crate::handler::Service;
use crate::http::Method;
use crate::http::ResponseStatus;
use crate::middleware::requests_pass;
use crate::middleware::requests_stop;
use crate::middleware::responses_pass;
use crate::middleware::responses_stop;
use crate::middleware::run_request_hooks;
use crate::middleware::run_response_hooks;
use crate::middleware::HeldHook;
use crate::middleware::Middleware;
use crate::middleware::MiddlewareError;
use crate::middleware::SharedMiddleware;
use crate::pattern::path_matches;
use crate::pattern::offsets_in_order;
use crate::pattern::param_segments_of;
use crate::pattern::RegistrationError;
use crate::pattern::RouteMetadata;
use crate::request::cursor_view;
use crate::request::path_and_segments;
use crate::request::path_of;
use crate::request::CursorModel;
use crate::request::ExtractionCursor;
use crate::request::Request;
use crate::response::text_response;
use crate::response::Response;
use crate::text::chars_of;
use crate::text::split_chars;
use crate::text::split_on;
use crate::text::views_of;
use std::sync::Arc;
use vstd::prelude::*;
use vstd::string::StringExecFns;

verus! {

/// `Arc::clone`: another pointer to the same value.
#[verifier::external_body]
pub(crate) fn share<T>(pointer: &Arc<T>) -> (other: Arc<T>)
    ensures
        other == *pointer,
{
    Arc::clone(pointer)
}

/// A copy of a list of middleware that shares each of them.
pub fn share_all(hooks: &Vec<SharedMiddleware>) -> (copy: Vec<SharedMiddleware>)
    ensures
        copy@ == hooks@,
{
    let mut copy: Vec<SharedMiddleware> = Vec::new();
    let mut i: usize = 0;
    while i < hooks.len()
        invariant
            i <= hooks.len(),
            copy@ == hooks@.take(i as int),
        decreases hooks.len() - i,
    {
        copy.push(share(&hooks[i]));
        assert(copy@ =~= hooks@.take(i + 1));
        i += 1;
    }
    assert(hooks@.take(hooks.len() as int) =~= hooks@);
    copy
}

/// The smallest unit of routing: a pattern, the service that answers the
/// requests whose path matches it, and the middleware round that service.
pub struct Route {
    /// The service.
    pub service: Arc<BoxCloneService<Request>>,
    /// What the route keeps of its pattern.
    pub metadata: RouteMetadata,
    /// The middleware of this route, in the order in which it runs.
    pub middlewares: Vec<SharedMiddleware>,
}

/// What running a route on a request can end in. The request hooks run in
/// order; where they all succeed the service answers, and the response hooks
/// run in order on its answer. The first hook that fails ends the run with
/// its error: the hooks after it do not run, nor, where it is a request
/// hook, the service.
pub open spec fn route_run(
    hooks: Seq<SharedMiddleware>,
    service: Arc<BoxCloneService<Request>>,
    request: Request,
    r: Result<Response, MiddlewareError>,
) -> bool {
    match r {
        Ok(response) => exists|mid: Request, answer: Response|
            {
                &&& requests_pass(hooks, request, mid)
                &&& #[trigger] service.0.responds(mid, answer)
                &&& responses_pass(hooks, answer, response)
            },
        Err(e) => stopped_before(hooks, request, e) || stopped_after(hooks, service, request, e),
    }
}

/// Whether a request hook can fail with `e`, the hooks before it having
/// succeeded.
pub open spec fn stopped_before(
    hooks: Seq<SharedMiddleware>,
    request: Request,
    e: MiddlewareError,
) -> bool {
    exists|after: Request| #[trigger] requests_stop(hooks, request, after, e)
}

/// Whether a response hook can fail with `e`, the request hooks, the service
/// and the response hooks before it having succeeded.
pub open spec fn stopped_after(
    hooks: Seq<SharedMiddleware>,
    service: Arc<BoxCloneService<Request>>,
    request: Request,
    e: MiddlewareError,
) -> bool {
    exists|mid: Request, answer: Response, after: Response|
        {
            &&& requests_pass(hooks, request, mid)
            &&& #[trigger] service.0.responds(mid, answer)
            &&& #[trigger] responses_stop(hooks, answer, after, e)
        }
}

/// Runs the request hooks, the service, and the response hooks.
pub fn run_route(
    hooks: &Vec<SharedMiddleware>,
    service: &Arc<BoxCloneService<Request>>,
    request: Request,
) -> (r: Result<Response, MiddlewareError>)
    ensures
        route_run(hooks@, *service, request, r),
{
    let mut request = request;
    let ghost start = request;
    match run_request_hooks(hooks, &mut request) {
        Ok(_) => {},
        Err(e) => {
            assert(requests_stop(hooks@, start, request, e));
            assert(stopped_before(hooks@, start, e));
            return Err(e);
        },
    }
    let ghost mid = request;
    let mut response = service.0.call(request);
    let ghost answer = response;
    match run_response_hooks(hooks, &mut response) {
        Ok(_) => {},
        Err(e) => {
            assert(service.0.responds(mid, answer));
            assert(responses_stop(hooks@, answer, response, e));
            assert(stopped_after(hooks@, *service, start, e));
            return Err(e);
        },
    }
    assert(service.0.responds(mid, answer));
    Ok(response)
}

impl Route {
    /// A route for `path`, with no middleware; refuses a pattern that
    /// `parse_param_segments` refuses.
    pub fn new(path: &str, handler: BoxCloneService<Request>) -> (r: Result<
        Route,
        RegistrationError,
    >)
        ensures
            match r {
                Ok(route) => {
                    &&& route.metadata.pattern() == path@
                    &&& param_segments_of(path@) is Ok
                    &&& route.middlewares@.len() == 0
                    &&& *route.service == handler
                },
                Err(e) => param_segments_of(path@) == Err::<Map<usize, usize>, RegistrationError>(
                    e,
                ),
            },
    {
        match RouteMetadata::try_from(path.to_owned()) {
            Ok(metadata) => Ok(
                Route { service: Arc::new(handler), metadata, middlewares: Vec::new() },
            ),
            Err(e) => Err(e),
        }
    }

    /// The route with `middlewares` in place of its middleware.
    pub fn middlewares(self, middlewares: Vec<SharedMiddleware>) -> (route: Route)
        ensures
            route.middlewares == middlewares,
            route.service == self.service,
            route.metadata == self.metadata,
    {
        Route { service: self.service, metadata: self.metadata, middlewares }
    }

    /// Whether the path of a request matches the pattern of the route.
    pub fn should_fire_on_path(&self, path: &str) -> (r: bool)
        ensures
            r == path_matches(self.metadata.pattern(), path@),
    {
        self.metadata.matches_path(path)
    }

    /// Runs the route on a request: the request hooks of its middleware, its
    /// service, and the response hooks of its middleware.
    pub fn fire(&self, request: Request) -> (r: Result<Response, MiddlewareError>)
        ensures
            route_run(self.middlewares@, self.service, request, r),
    {
        run_route(&self.middlewares, &self.service, request)
    }

    /// A route with the same service, the same pattern and the same
    /// middleware.
    pub fn duplicate(&self) -> (copy: Route)
        ensures
            copy.service == self.service,
            copy.metadata.pattern() == self.metadata.pattern(),
            copy.metadata.offsets() == self.metadata.offsets(),
            copy.middlewares@ == self.middlewares@,
    {
        Route {
            service: share(&self.service),
            metadata: self.metadata.duplicate(),
            middlewares: share_all(&self.middlewares),
        }
    }
}

/// Why a request found no route.
#[derive(PartialEq, Eq, Clone, Copy, Debug, Structural)]
pub enum RoutingError {
    /// No route is registered for the method of the request.
    NoRouteForMethod,
    /// Routes are registered for the method, and the path matches none.
    NoMatchingRoute,
}

/// What a routing error says, in words.
pub open spec fn routing_message(e: RoutingError) -> Seq<char> {
    match e {
        RoutingError::NoRouteForMethod => "not registered routes for the method"@,
        RoutingError::NoMatchingRoute => "no matching route"@,
    }
}

/// The status that a routing error is answered with: 405 where no route is
/// registered for the method, 404 where the path matches none.
pub open spec fn routing_status(e: RoutingError) -> ResponseStatus {
    match e {
        RoutingError::NoRouteForMethod => ResponseStatus::MethodNotAllowed,
        RoutingError::NoMatchingRoute => ResponseStatus::NotFound,
    }
}

impl RoutingError {
    /// What the error says, in words.
    pub fn to_string(&self) -> (s: String)
        ensures
            s@ == routing_message(*self),
    {
        match self {
            RoutingError::NoRouteForMethod => "not registered routes for the method".to_owned(),
            RoutingError::NoMatchingRoute => "no matching route".to_owned(),
        }
    }

    /// The response that the error is answered with.
    pub fn into_response(self) -> (response: Response)
        ensures
            response@ == text_response(routing_status(self), routing_message(self)),
    {
        match self {
            RoutingError::NoRouteForMethod => Response::text(
                ResponseStatus::MethodNotAllowed,
                self.to_string().as_str(),
            ),
            RoutingError::NoMatchingRoute => Response::text(
                ResponseStatus::NotFound,
                self.to_string().as_str(),
            ),
        }
    }
}

/// Whether a route of the table takes a request: it is registered for the
/// method, and its pattern matches the path.
pub open spec fn entry_takes(entry: (Method, Route), method: Method, path: Seq<char>) -> bool {
    entry.0 == method && path_matches(entry.1.metadata.pattern(), path)
}

/// The place of the first route of the table that takes the request, or the
/// length of the table where none does.
pub open spec fn first_taking(table: Seq<(Method, Route)>, method: Method, path: Seq<char>) -> int
    decreases table.len(),
{
    if table.len() == 0 || entry_takes(table.first(), method, path) {
        0
    } else {
        1 + first_taking(table.drop_first(), method, path)
    }
}

/// Whether some route of the table is registered for the method.
pub open spec fn has_method(table: Seq<(Method, Route)>, method: Method) -> bool {
    exists|i: int| 0 <= i < table.len() && (#[trigger] table[i]).0 == method
}

/// The route that a request is given to: the first, in the order of
/// registration, that is registered for the method and whose pattern
/// matches the path.
pub open spec fn selection(table: Seq<(Method, Route)>, method: Method, path: Seq<char>) -> Result<
    int,
    RoutingError,
> {
    if first_taking(table, method, path) < table.len() {
        Ok(first_taking(table, method, path))
    } else if has_method(table, method) {
        Err(RoutingError::NoMatchingRoute)
    } else {
        Err(RoutingError::NoRouteForMethod)
    }
}

/// `first_taking` is the first place whose route takes the request, and the
/// length of the table where there is none.
pub proof fn lemma_first_taking(
    table: Seq<(Method, Route)>,
    method: Method,
    path: Seq<char>,
    n: int,
)
    requires
        0 <= n <= table.len(),
        forall|k: int| 0 <= k < n ==> !entry_takes(#[trigger] table[k], method, path),
        n < table.len() ==> entry_takes(table[n], method, path),
    ensures
        first_taking(table, method, path) == n,
    decreases n,
{
    if n > 0 {
        assert(!entry_takes(table[0], method, path));
        assert forall|k: int| 0 <= k < n - 1 implies !entry_takes(
            #[trigger] table.drop_first()[k],
            method,
            path,
        ) by {
            assert(table.drop_first()[k] == table[k + 1]);
        }
        lemma_first_taking(table.drop_first(), method, path, n - 1);
    }
}

/// The place that `first_taking` gives lies in the table or at its end, no
/// route before it takes the request, and the route at it does.
pub proof fn lemma_first_taking_is_first(
    table: Seq<(Method, Route)>,
    method: Method,
    path: Seq<char>,
)
    ensures
        0 <= first_taking(table, method, path) <= table.len(),
        forall|k: int|
            0 <= k < first_taking(table, method, path) ==> !entry_takes(
                #[trigger] table[k],
                method,
                path,
            ),
        first_taking(table, method, path) < table.len() ==> entry_takes(
            table[first_taking(table, method, path)],
            method,
            path,
        ),
    decreases table.len(),
{
    if table.len() == 0 || entry_takes(table.first(), method, path) {
    } else {
        let rest = table.drop_first();
        lemma_first_taking_is_first(rest, method, path);
        assert forall|k: int| 0 <= k < first_taking(table, method, path) implies !entry_takes(
            #[trigger] table[k],
            method,
            path,
        ) by {
            if k > 0 {
                assert(rest[k - 1] == table[k]);
            }
        }
        if first_taking(table, method, path) < table.len() {
            assert(rest[first_taking(rest, method, path)] == table[first_taking(
                table,
                method,
                path,
            )]);
        }
    }
}

/// Routes added at the end of a table take no request from the routes that
/// were there: a request that was given to a route is still given to it.
pub proof fn lemma_selection_is_stable(
    table: Seq<(Method, Route)>,
    more: Seq<(Method, Route)>,
    method: Method,
    path: Seq<char>,
)
    requires
        selection(table, method, path) is Ok,
    ensures
        selection(table + more, method, path) == selection(table, method, path),
{
    let n = first_taking(table, method, path);
    lemma_first_taking_is_first(table, method, path);
    let all = table + more;
    assert forall|k: int| 0 <= k < n implies !entry_takes(#[trigger] all[k], method, path) by {
        assert(all[k] == table[k]);
    }
    assert(all[n] == table[n]);
    lemma_first_taking(all, method, path, n);
}

/// Picks the route of a request for `method` and `path`.
pub fn select(table: &Vec<(Method, Route)>, method: Method, path: &str) -> (r: Result<
    usize,
    RoutingError,
>)
    ensures
        match selection(table@, method, path@) {
            Ok(i) => 0 <= i < table.len() && r == Ok::<usize, RoutingError>(i as usize),
            Err(e) => r == Err::<usize, RoutingError>(e),
        },
{
    let segments = split_chars(&chars_of(path), '/');
    let mut seen = false;
    let mut i: usize = 0;
    while i < table.len()
        invariant
            i <= table.len(),
            views_of(segments@) == split_on(path@, '/'),
            forall|k: int| 0 <= k < i ==> !entry_takes(#[trigger] table@[k], method, path@),
            seen == exists|k: int| 0 <= k < i && (#[trigger] table@[k]).0 == method,
        decreases table.len() - i,
    {
        if table[i].0 == method {
            seen = true;
            if table[i].1.metadata.fits(&segments) {
                proof {
                    lemma_first_taking(table@, method, path@, i as int);
                }
                return Ok(i);
            }
        }
        i += 1;
    }
    proof {
        lemma_first_taking(table@, method, path@, table.len() as int);
    }
    if seen {
        Err(RoutingError::NoMatchingRoute)
    } else {
        Err(RoutingError::NoRouteForMethod)
    }
}

/// Whether `start` is `request` made ready for dispatch by a route with
/// this pattern: the same request, with a cursor that holds the segments of
/// its path after the first `/` and the offsets of the pattern's
/// placeholders, and that has bound no placeholder yet.
pub open spec fn seeded(request: Request, pattern: Seq<char>, start: Request) -> bool {
    &&& start == (Request { cursor: start.cursor, ..request })
    &&& cursor_view(start.cursor) == Some(
        CursorModel {
            segments: split_on(path_of(request.url@), '/').skip(1),
            offsets: offsets_in_order(pattern),
            next_ordinal: 0,
        },
    )
}

/// Whether `response` is what dispatching `start` to `route` can end in,
/// under the middleware `hooks` of the router: the router's middleware and
/// then the route's run round the route's service, and a hook that fails
/// ends the dispatch with status 500 and its error's words as body.
pub open spec fn dispatched(
    hooks: Seq<SharedMiddleware>,
    route: Route,
    start: Request,
    response: Response,
) -> bool {
    exists|run: Result<Response, MiddlewareError>|
        {
            &&& #[trigger] route_run(hooks + route.middlewares@, route.service, start, run)
            &&& match run {
                Ok(answer) => response == answer,
                Err(e) => response@ == text_response(
                    ResponseStatus::InternalServerError,
                    e.message@,
                ),
            }
        }
}

/// What routing a request through a table can end in.
pub open spec fn routed(
    table: Seq<(Method, Route)>,
    hooks: Seq<SharedMiddleware>,
    request: Request,
    r: Result<Response, RoutingError>,
) -> bool {
    match selection(table, request.method, path_of(request.url@)) {
        Err(e) => r == Err::<Response, RoutingError>(e),
        Ok(i) => r is Ok && exists|start: Request|
            {
                &&& #[trigger] seeded(request, table[i].1.metadata.pattern(), start)
                &&& dispatched(hooks, table[i].1, start, r->Ok_0)
            },
    }
}

/// Routes a request through a table: picks its route, makes the cursor, and
/// runs the router's middleware and the route's round the route's service.
pub fn route_request(
    table: &Vec<(Method, Route)>,
    hooks: &Vec<SharedMiddleware>,
    request: Request,
) -> (r: Result<Response, RoutingError>)
    ensures
        routed(table@, hooks@, request, r),
{
    let (path, segments) = path_and_segments(request.url.as_str());
    let at = match select(table, request.method, path.as_str()) {
        Ok(at) => at,
        Err(e) => {
            return Err(e);
        },
    };
    let route = &table[at].1;
    let cursor = ExtractionCursor::new(segments, route.metadata.offsets_list());
    let start = Request {
        method: request.method,
        url: request.url,
        version: request.version,
        headers: request.headers,
        body: request.body,
        metadata: request.metadata,
        cursor: Some(cursor),
    };
    assert(seeded(request, route.metadata.pattern(), start));
    let mut all = share_all(hooks);
    let mut more = share_all(&route.middlewares);
    all.append(&mut more);
    assert(all@ =~= hooks@ + route.middlewares@);
    let run = run_route(&all, &route.service, start);
    let response = match run {
        Ok(answer) => answer,
        Err(e) => Response::text(ResponseStatus::InternalServerError, e.message.as_str()),
    };
    assert(route_run(hooks@ + route.middlewares@, route.service, start, run));
    assert(dispatched(hooks@, *route, start, response));
    Ok(response)
}

/// Whether `after` is `before` with one route added at its end: a route for
/// `method` with the pattern `pattern` and no middleware.
pub open spec fn added(
    before: Seq<(Method, Route)>,
    after: Seq<(Method, Route)>,
    method: Method,
    pattern: Seq<char>,
) -> bool {
    &&& after.len() == before.len() + 1
    &&& after.drop_last() == before
    &&& after.last().0 == method
    &&& after.last().1.metadata.pattern() == pattern
    &&& after.last().1.middlewares@.len() == 0
}

/// Whether the route that stands last in the table answers as `service`
/// does.
pub open spec fn serves<V: Service<Request>>(table: Seq<(Method, Route)>, service: V) -> bool {
    forall|req: Request, response: Response| #[trigger]
        table.last().1.service.0.responds(req, response) == service.responds(req, response)
}

/// Whether the route that stands last in the table answers as `handler`
/// does when it is called with `state`.
pub open spec fn answers_as<H: HandlerTrait<Q, S>, Q, S>(
    table: Seq<(Method, Route)>,
    handler: H,
    state: S,
) -> bool {
    forall|req: Request, response: Response| #[trigger]
        table.last().1.service.0.responds(req, response) == handler.handles(req, state, response)
}

/// Whether the middleware that stands last in the list does what `m` does.
pub open spec fn hooks_as<M: Middleware>(hooks: Seq<SharedMiddleware>, m: M) -> bool {
    &&& forall|a: Request, b: Request, r: Result<(), MiddlewareError>| #[trigger]
        hooks.last().request_hook(a, b, r) == m.request_hook(a, b, r)
    &&& forall|a: Response, b: Response, r: Result<(), MiddlewareError>| #[trigger]
        hooks.last().response_hook(a, b, r) == m.response_hook(a, b, r)
}

/// Whether `copy` is `route` with `hooks` for its middleware.
pub open spec fn merged(copy: Route, route: Route, hooks: Seq<SharedMiddleware>) -> bool {
    &&& copy.service == route.service
    &&& copy.metadata.pattern() == route.metadata.pattern()
    &&& copy.metadata.offsets() == route.metadata.offsets()
    &&& copy.middlewares@ == hooks
}

/// Whether `after` is `before` with the routes of a group added at its end,
/// in their order, each with the middleware of the group.
pub open spec fn group_added(
    before: Seq<(Method, Route)>,
    after: Seq<(Method, Route)>,
    entries: Seq<(Method, Route)>,
    hooks: Seq<SharedMiddleware>,
) -> bool {
    &&& after.len() == before.len() + entries.len()
    &&& after.take(before.len() as int) == before
    &&& forall|i: int|
        0 <= i < entries.len() ==> (#[trigger] after[before.len() + i]).0 == entries[i].0
            && merged(after[before.len() + i].1, entries[i].1, hooks)
}

/// Routes under a common prefix, with middleware of their own.
pub struct RouteGroup {
    prefix: String,
    routes: Vec<(Method, Route)>,
    middlewares: Vec<SharedMiddleware>,
}

impl RouteGroup {
    /// The prefix of the group.
    pub closed spec fn prefix_text(self) -> Seq<char> {
        self.prefix@
    }

    /// The routes of the group, in the order of their registration.
    pub closed spec fn entries(self) -> Seq<(Method, Route)> {
        self.routes@
    }

    /// The middleware of the group, in the order of its registration.
    pub closed spec fn hooks(self) -> Seq<SharedMiddleware> {
        self.middlewares@
    }

    /// A group with no route and no middleware.
    pub fn new(prefix: &str) -> (group: RouteGroup)
        ensures
            group.prefix_text() == prefix@,
            group.entries().len() == 0,
            group.hooks().len() == 0,
    {
        RouteGroup { prefix: prefix.to_owned(), routes: Vec::new(), middlewares: Vec::new() }
    }

    /// The pattern of a route of the group: the prefix, then the path.
    fn construct_path(&self, path: &str) -> (full: String)
        ensures
            full@ == self.prefix_text() + path@,
    {
        self.prefix.clone().concat(path)
    }

    /// Registers a route for `method` under the prefix followed by `path`;
    /// refuses a pattern that `parse_param_segments` refuses.
    pub fn add_route<V>(self, method: Method, path: &str, service: V) -> (r: Result<
        RouteGroup,
        RegistrationError,
    >) where V: Service<Request> + 'static
        ensures
            match r {
                Ok(group) => {
                    &&& param_segments_of(self.prefix_text() + path@) is Ok
                    &&& group.prefix_text() == self.prefix_text()
                    &&& group.hooks() == self.hooks()
                    &&& added(self.entries(), group.entries(), method, self.prefix_text() + path@)
                    &&& serves(group.entries(), service)
                },
                Err(e) => param_segments_of(self.prefix_text() + path@) == Err::<
                    Map<usize, usize>,
                    RegistrationError,
                >(e),
            },
    {
        let full = self.construct_path(path);
        let mut group = self;
        match Route::new(full.as_str(), BoxCloneService::new(service)) {
            Ok(route) => {
                group.routes.push((method, route));
                assert(group.routes@.drop_last() =~= self.routes@);
                Ok(group)
            },
            Err(e) => Err(e),
        }
    }

    fn register<V>(self, method: Method, path: &str, service: V) -> (group: RouteGroup) where
        V: Service<Request> + 'static,

        requires
            param_segments_of(self.prefix_text() + path@) is Ok,
        ensures
            group.prefix_text() == self.prefix_text(),
            group.hooks() == self.hooks(),
            added(self.entries(), group.entries(), method, self.prefix_text() + path@),
            serves(group.entries(), service),
    {
        match self.add_route(method, path, service) {
            Ok(group) => group,
            Err(_) => vstd::pervasive::unreached(),
        }
    }

    /// Registers a GET route.
    pub fn get<V>(self, path: &str, service: V) -> (group: RouteGroup) where
        V: Service<Request> + 'static,

        requires
            param_segments_of(self.prefix_text() + path@) is Ok,
        ensures
            group.prefix_text() == self.prefix_text(),
            group.hooks() == self.hooks(),
            added(self.entries(), group.entries(), Method::Get, self.prefix_text() + path@),
            serves(group.entries(), service),
    {
        self.register(Method::Get, path, service)
    }

    /// Registers a POST route.
    pub fn post<V>(self, path: &str, service: V) -> (group: RouteGroup) where
        V: Service<Request> + 'static,

        requires
            param_segments_of(self.prefix_text() + path@) is Ok,
        ensures
            group.prefix_text() == self.prefix_text(),
            group.hooks() == self.hooks(),
            added(self.entries(), group.entries(), Method::Post, self.prefix_text() + path@),
            serves(group.entries(), service),
    {
        self.register(Method::Post, path, service)
    }

    /// Registers a PUT route.
    pub fn put<V>(self, path: &str, service: V) -> (group: RouteGroup) where
        V: Service<Request> + 'static,

        requires
            param_segments_of(self.prefix_text() + path@) is Ok,
        ensures
            group.prefix_text() == self.prefix_text(),
            group.hooks() == self.hooks(),
            added(self.entries(), group.entries(), Method::Put, self.prefix_text() + path@),
            serves(group.entries(), service),
    {
        self.register(Method::Put, path, service)
    }

    /// Registers a DELETE route.
    pub fn delete<V>(self, path: &str, service: V) -> (group: RouteGroup) where
        V: Service<Request> + 'static,

        requires
            param_segments_of(self.prefix_text() + path@) is Ok,
        ensures
            group.prefix_text() == self.prefix_text(),
            group.hooks() == self.hooks(),
            added(self.entries(), group.entries(), Method::Delete, self.prefix_text() + path@),
            serves(group.entries(), service),
    {
        self.register(Method::Delete, path, service)
    }

    /// Registers a middleware, which every route of the group gets when the
    /// routes are handed out.
    pub fn middleware<M>(self, m: M) -> (group: RouteGroup) where M: Middleware + 'static
        ensures
            group.prefix_text() == self.prefix_text(),
            group.entries() == self.entries(),
            group.hooks().len() == self.hooks().len() + 1,
            group.hooks().drop_last() == self.hooks(),
            hooks_as(group.hooks(), m),
    {
        let mut group = self;
        let boxed: Box<dyn Middleware> = Box::new(HeldHook(m));
        let ghost held = boxed;
        let hook = Arc::new(boxed);
        assert(hook == held);
        group.middlewares.push(hook);
        assert(group.middlewares@.drop_last() =~= self.middlewares@);
        group
    }

    /// The routes of the group, in their order, each with the middleware of
    /// the group for its middleware.
    pub fn routes(&self) -> (routes: Vec<(Method, Route)>)
        ensures
            group_added(Seq::<(Method, Route)>::empty(), routes@, self.entries(), self.hooks()),
    {
        let mut routes: Vec<(Method, Route)> = Vec::new();
        let mut i: usize = 0;
        while i < self.routes.len()
            invariant
                i <= self.routes.len(),
                routes.len() == i,
                forall|k: int|
                    0 <= k < i ==> (#[trigger] routes@[k]).0 == self.routes@[k].0 && merged(
                        routes@[k].1,
                        self.routes@[k].1,
                        self.middlewares@,
                    ),
            decreases self.routes.len() - i,
        {
            let copy = self.routes[i].1.duplicate().middlewares(share_all(&self.middlewares));
            routes.push((self.routes[i].0, copy));
            i += 1;
        }
        assert(routes@.take(0) =~= Seq::<(Method, Route)>::empty());
        routes
    }
}

/// Whether `after` is `before` with the routes of each group of `groups`
/// added at its end, group by group.
pub open spec fn groups_added(
    before: Seq<(Method, Route)>,
    after: Seq<(Method, Route)>,
    groups: Seq<RouteGroup>,
) -> bool
    decreases groups.len(),
{
    if groups.len() == 0 {
        after == before
    } else {
        exists|mid: Seq<(Method, Route)>|
            groups_added(before, mid, groups.drop_last()) && #[trigger] group_added(
                mid,
                after,
                groups.last().entries(),
                groups.last().hooks(),
            )
    }
}

proof fn lemma_groups_added_step(
    before: Seq<(Method, Route)>,
    mid: Seq<(Method, Route)>,
    after: Seq<(Method, Route)>,
    groups: Seq<RouteGroup>,
)
    requires
        groups.len() > 0,
        groups_added(before, mid, groups.drop_last()),
        group_added(mid, after, groups.last().entries(), groups.last().hooks()),
    ensures
        groups_added(before, after, groups),
{
}

/// The router: the table of routes, the state that handlers may ask for,
/// and the middleware that runs round every route.
pub struct Router<S> {
    state: Arc<S>,
    routes: Vec<(Method, Route)>,
    middlewares: Vec<SharedMiddleware>,
}

impl Router<()> {
    /// A router with no state, no route and no middleware.
    pub fn default() -> (router: Router<()>)
        ensures
            router.table().len() == 0,
            router.hooks().len() == 0,
    {
        Router { state: Arc::new(()), routes: Vec::new(), middlewares: Vec::new() }
    }
}

impl<S> Router<S> {
    /// The routes, in the order of their registration.
    pub closed spec fn table(self) -> Seq<(Method, Route)> {
        self.routes@
    }

    /// The middleware of the router, in the order of its registration.
    pub closed spec fn hooks(self) -> Seq<SharedMiddleware> {
        self.middlewares@
    }

    /// The state.
    pub closed spec fn shared_state(self) -> S {
        *self.state
    }

    /// Routes a request: picks the first route registered for its method
    /// whose pattern matches its path, and runs it.
    pub fn fire(&self, request: Request) -> (r: Result<Response, RoutingError>)
        ensures
            routed(self.table(), self.hooks(), request, r),
    {
        route_request(&self.routes, &self.middlewares, request)
    }

    /// Registers a middleware that runs round every route, before the
    /// route's own.
    pub fn middleware<M>(self, m: M) -> (router: Router<S>) where M: Middleware + 'static
        ensures
            router.table() == self.table(),
            router.shared_state() == self.shared_state(),
            router.hooks().len() == self.hooks().len() + 1,
            router.hooks().drop_last() == self.hooks(),
            hooks_as(router.hooks(), m),
    {
        let mut router = self;
        let boxed: Box<dyn Middleware> = Box::new(HeldHook(m));
        let ghost held = boxed;
        let hook = Arc::new(boxed);
        assert(hook == held);
        router.middlewares.push(hook);
        assert(router.middlewares@.drop_last() =~= self.middlewares@);
        router
    }

    /// Adds the routes of the groups at the end of the table, group by
    /// group, each route with the middleware of its group.
    pub fn groups(self, groups: Vec<RouteGroup>) -> (router: Router<S>)
        ensures
            router.hooks() == self.hooks(),
            router.shared_state() == self.shared_state(),
            groups_added(self.table(), router.table(), groups@),
    {
        let mut router = self;
        let mut i: usize = 0;
        assert(groups@.take(0) =~= Seq::<RouteGroup>::empty());
        while i < groups.len()
            invariant
                i <= groups.len(),
                router.middlewares == self.middlewares,
                router.state == self.state,
                groups_added(self.routes@, router.routes@, groups@.take(i as int)),
            decreases groups.len() - i,
        {
            let ghost mid = router.routes@;
            let mut more = groups[i].routes();
            let ghost added = more@;
            router.routes.append(&mut more);
            proof {
                assert(router.routes@ =~= mid + added);
                assert(router.routes@.take(mid.len() as int) =~= mid);
                let entries = groups@[i as int].entries();
                let hooks = groups@[i as int].hooks();
                assert(added.len() == entries.len());
                assert forall|k: int| 0 <= k < entries.len() implies (#[trigger] router.routes@[mid.len()
                    + k]).0 == entries[k].0 && merged(
                    router.routes@[mid.len() + k].1,
                    entries[k].1,
                    hooks,
                ) by {
                    assert(router.routes@[mid.len() + k] == added[0 + k]);
                }
                assert(groups@.take(i + 1).drop_last() =~= groups@.take(i as int));
                assert(groups@.take(i + 1).last() == groups@[i as int]);
                assert(group_added(
                    mid,
                    router.routes@,
                    groups@[i as int].entries(),
                    groups@[i as int].hooks(),
                ));
                lemma_groups_added_step(self.routes@, mid, router.routes@, groups@.take(i + 1));
            }
            i += 1;
        }
        assert(groups@.take(groups.len() as int) =~= groups@);
        router
    }

    /// A router with the same state, the same routes and the same
    /// middleware.
    pub fn duplicate(&self) -> (copy: Router<S>)
        ensures
            copy.shared_state() == self.shared_state(),
            copy.hooks() == self.hooks(),
            copy.table().len() == self.table().len(),
            forall|k: int|
                0 <= k < self.table().len() ==> (#[trigger] copy.table()[k]).0 == self.table()[k].0
                    && merged(copy.table()[k].1, self.table()[k].1, self.table()[k].1.middlewares@),
    {
        let mut routes: Vec<(Method, Route)> = Vec::new();
        let mut i: usize = 0;
        while i < self.routes.len()
            invariant
                i <= self.routes.len(),
                routes.len() == i,
                forall|k: int|
                    0 <= k < i ==> (#[trigger] routes@[k]).0 == self.routes@[k].0 && merged(
                        routes@[k].1,
                        self.routes@[k].1,
                        self.routes@[k].1.middlewares@,
                    ),
            decreases self.routes.len() - i,
        {
            routes.push((self.routes[i].0, self.routes[i].1.duplicate()));
            i += 1;
        }
        Router {
            state: share(&self.state),
            routes,
            middlewares: share_all(&self.middlewares),
        }
    }
}

impl<S> Router<S> where S: Send + Sync + 'static {
    /// A router with this state, no route and no middleware.
    pub fn with_state(state: S) -> (router: Router<S>)
        ensures
            router.table().len() == 0,
            router.hooks().len() == 0,
            router.shared_state() == state,
    {
        Router { state: Arc::new(state), routes: Vec::new(), middlewares: Vec::new() }
    }

    /// Registers a route for `method`; refuses a pattern that
    /// `parse_param_segments` refuses.
    pub fn add_route<H, Q>(self, method: Method, path: &str, handler: H) -> (r: Result<
        Router<S>,
        RegistrationError,
    >) where H: HandlerTrait<Q, S>, Q: Send + Sync + 'static
        requires
            handler.callable(),
        ensures
            match r {
                Ok(router) => {
                    &&& param_segments_of(path@) is Ok
                    &&& router.hooks() == self.hooks()
                    &&& router.shared_state() == self.shared_state()
                    &&& added(self.table(), router.table(), method, path@)
                    &&& answers_as(router.table(), handler, self.shared_state())
                },
                Err(e) => param_segments_of(path@) == Err::<Map<usize, usize>, RegistrationError>(
                    e,
                ),
            },
    {
        let mut router = self;
        let service = handler.into_service_with_state_arc(share(&router.state));
        match Route::new(path, BoxCloneService::new(service)) {
            Ok(route) => {
                router.routes.push((method, route));
                assert(router.routes@.drop_last() =~= self.routes@);
                Ok(router)
            },
            Err(e) => Err(e),
        }
    }

    fn register_path<H, Q>(self, method: Method, path: &str, handler: H) -> (router: Router<S>) where
        H: HandlerTrait<Q, S>,
        Q: Send + Sync + 'static,

        requires
            handler.callable(),
            param_segments_of(path@) is Ok,
        ensures
            router.hooks() == self.hooks(),
            router.shared_state() == self.shared_state(),
            added(self.table(), router.table(), method, path@),
            answers_as(router.table(), handler, self.shared_state()),
    {
        match self.add_route(method, path, handler) {
            Ok(router) => router,
            Err(_) => vstd::pervasive::unreached(),
        }
    }

    /// Registers a GET route.
    pub fn get<H, Q>(self, path: &str, handler: H) -> (router: Router<S>) where
        H: HandlerTrait<Q, S>,
        Q: Send + Sync + 'static,

        requires
            handler.callable(),
            param_segments_of(path@) is Ok,
        ensures
            router.hooks() == self.hooks(),
            router.shared_state() == self.shared_state(),
            added(self.table(), router.table(), Method::Get, path@),
            answers_as(router.table(), handler, self.shared_state()),
    {
        self.register_path(Method::Get, path, handler)
    }

    /// Registers a POST route.
    pub fn post<H, Q>(self, path: &str, handler: H) -> (router: Router<S>) where
        H: HandlerTrait<Q, S>,
        Q: Send + Sync + 'static,

        requires
            handler.callable(),
            param_segments_of(path@) is Ok,
        ensures
            router.hooks() == self.hooks(),
            router.shared_state() == self.shared_state(),
            added(self.table(), router.table(), Method::Post, path@),
            answers_as(router.table(), handler, self.shared_state()),
    {
        self.register_path(Method::Post, path, handler)
    }

    /// Registers a PUT route.
    pub fn put<H, Q>(self, path: &str, handler: H) -> (router: Router<S>) where
        H: HandlerTrait<Q, S>,
        Q: Send + Sync + 'static,

        requires
            handler.callable(),
            param_segments_of(path@) is Ok,
        ensures
            router.hooks() == self.hooks(),
            router.shared_state() == self.shared_state(),
            added(self.table(), router.table(), Method::Put, path@),
            answers_as(router.table(), handler, self.shared_state()),
    {
        self.register_path(Method::Put, path, handler)
    }

    /// Registers a DELETE route.
    pub fn delete<H, Q>(self, path: &str, handler: H) -> (router: Router<S>) where
        H: HandlerTrait<Q, S>,
        Q: Send + Sync + 'static,

        requires
            handler.callable(),
            param_segments_of(path@) is Ok,
        ensures
            router.hooks() == self.hooks(),
            router.shared_state() == self.shared_state(),
            added(self.table(), router.table(), Method::Delete, path@),
            answers_as(router.table(), handler, self.shared_state()),
    {
        self.register_path(Method::Delete, path, handler)
    }
}

impl<S: Send + Sync> Service<Request> for Router<S> {
    open spec fn responds(&self, req: Request, response: Response) -> bool {
        exists|r: Result<Response, RoutingError>|
            {
                &&& #[trigger] routed(self.table(), self.hooks(), req, r)
                &&& match r {
                    Ok(answer) => response == answer,
                    Err(e) => response@ == text_response(routing_status(e), routing_message(e)),
                }
            }
    }

    /// Routes the request; a request that finds no route is answered with
    /// status 405 where its method has none, and with status 404 otherwise.
    fn call(&self, req: Request) -> (response: Response) {
        let r = self.fire(req);
        let response = match r {
            Ok(answer) => answer,
            Err(e) => e.into_response(),
        };
        assert(routed(self.table(), self.hooks(), req, r));
        response
    }
}

} // verus!

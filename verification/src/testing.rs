//! A client that hands requests to the routes of a table without a server
//! and without middleware.

use crate::http::Method;
use crate::request::path_and_segments;
use crate::request::path_of;
use crate::request::ExtractionCursor;
use crate::request::Request;
use crate::response::Response;
use crate::route::seeded;
use crate::route::select;
use crate::route::selection;
use crate::route::Route;
use crate::route::RoutingError;
use vstd::prelude::*;

verus! {

/// A client over a table of routes.
pub struct Client {
    /// The routes, in the order of their registration.
    pub routes: Vec<(Method, Route)>,
}

impl Client {
    /// A client over these routes.
    pub fn new(routes: Vec<(Method, Route)>) -> (client: Client)
        ensures
            client.routes == routes,
    {
        Client { routes }
    }

    /// Hands a request to the service of its route: no middleware runs.
    pub fn send(&self, request: Request) -> (r: Result<Response, RoutingError>)
        ensures
            match selection(self.routes@, request.method, path_of(request.url@)) {
                Err(e) => r == Err::<Response, RoutingError>(e),
                Ok(i) => r is Ok && exists|start: Request|
                    {
                        &&& #[trigger] seeded(
                            request,
                            self.routes@[i].1.metadata.pattern(),
                            start,
                        )
                        &&& self.routes@[i].1.service.0.responds(start, r->Ok_0)
                    },
            },
    {
        let (path, segments) = path_and_segments(request.url.as_str());
        let at = match select(&self.routes, request.method, path.as_str()) {
            Ok(at) => at,
            Err(e) => {
                return Err(e);
            },
        };
        let route = &self.routes[at].1;
        let cursor = ExtractionCursor::new(segments, route.metadata.offsets_list());
        let start = Request {
            method: request.method,
            url: request.url,
            version: request.version,
            headers: request.headers,
            body: request.body,
            metadata: request.metadata,
            cursor: Some(cursor),
        };
        assert(seeded(request, route.metadata.pattern(), start));
        Ok(route.service.0.call(start))
    }
}

} // verus!

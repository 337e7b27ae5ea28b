//! Middleware: hooks that see each request before its handler and each
//! response after it.

use crate::request::Request;
use crate::response::Response;
use std::sync::Arc;
use vstd::prelude::*;

verus! {

/// Why a hook failed.
#[derive(Debug)]
pub struct MiddlewareError {
    /// What went wrong, in words.
    pub message: String,
}

/// A pair of hooks round the handlers: one sees each request before its
/// handler, the other each response after it. A hook that has nothing to do
/// returns `Ok(())` and leaves its argument as it is.
pub trait Middleware: Send + Sync {
    /// What `on_request` may do: the request before and after it, and its
    /// result. An implementation that says nothing here promises nothing.
    open spec fn request_hook(
        &self,
        before: Request,
        after: Request,
        r: Result<(), MiddlewareError>,
    ) -> bool {
        true
    }

    /// What `on_response` may do: the response before and after it, and its
    /// result. An implementation that says nothing here promises nothing.
    open spec fn response_hook(
        &self,
        before: Response,
        after: Response,
        r: Result<(), MiddlewareError>,
    ) -> bool {
        true
    }

    /// Runs on every request that goes to a handler.
    fn on_request(&self, req: &mut Request) -> (r: Result<(), MiddlewareError>)
        ensures
            self.request_hook(*old(req), *final(req), r),
    ;

    /// Runs on every response that comes from a handler.
    fn on_response(&self, res: &mut Response) -> (r: Result<(), MiddlewareError>)
        ensures
            self.response_hook(*old(res), *final(res), r),
    ;
}

/// A middleware as routes and routers hold it: shared, and fit to be used
/// from several threads.
pub type SharedMiddleware = Arc<Box<dyn Middleware>>;

/// A middleware as it stands behind the pointer of a `SharedMiddleware`: it
/// does what the middleware that it holds does.
pub struct HeldHook<M>(pub M);

impl<M: Middleware> Middleware for HeldHook<M> {
    open spec fn request_hook(
        &self,
        before: Request,
        after: Request,
        r: Result<(), MiddlewareError>,
    ) -> bool {
        self.0.request_hook(before, after, r)
    }

    open spec fn response_hook(
        &self,
        before: Response,
        after: Response,
        r: Result<(), MiddlewareError>,
    ) -> bool {
        self.0.response_hook(before, after, r)
    }

    /// Hands the request to the middleware held.
    fn on_request(&self, req: &mut Request) -> (r: Result<(), MiddlewareError>) {
        self.0.on_request(req)
    }

    /// Hands the response to the middleware held.
    fn on_response(&self, res: &mut Response) -> (r: Result<(), MiddlewareError>) {
        self.0.on_response(res)
    }
}

/// A middleware that lets every request and every response pass as it is.
#[derive(Debug, Clone, Copy)]
pub struct LogMiddleware {}

impl Middleware for LogMiddleware {
    open spec fn request_hook(
        &self,
        before: Request,
        after: Request,
        r: Result<(), MiddlewareError>,
    ) -> bool {
        after == before && r is Ok
    }

    open spec fn response_hook(
        &self,
        before: Response,
        after: Response,
        r: Result<(), MiddlewareError>,
    ) -> bool {
        after == before && r is Ok
    }

    fn on_request(&self, req: &mut Request) -> (r: Result<(), MiddlewareError>) {
        Ok(())
    }

    fn on_response(&self, res: &mut Response) -> (r: Result<(), MiddlewareError>) {
        Ok(())
    }
}

/// Whether `after` is what the request hooks of `hooks`, run in order and
/// each succeeding, can make of `before`.
pub open spec fn requests_pass(hooks: Seq<SharedMiddleware>, before: Request, after: Request) -> bool
    decreases hooks.len(),
{
    if hooks.len() == 0 {
        after == before
    } else {
        exists|mid: Request|
            requests_pass(hooks.drop_last(), before, mid) && #[trigger] hooks.last().request_hook(
                mid,
                after,
                Ok(()),
            )
    }
}

/// Whether the request hooks of `hooks`, run in order on `before`, can come
/// to a hook that fails with `e` and leaves `after`, the hooks before it
/// having succeeded and the hooks after it not having run.
pub open spec fn requests_stop(
    hooks: Seq<SharedMiddleware>,
    before: Request,
    after: Request,
    e: MiddlewareError,
) -> bool
    decreases hooks.len(),
{
    hooks.len() > 0 && (requests_stop(hooks.drop_last(), before, after, e) || exists|mid: Request|
        (#[trigger] requests_pass(hooks.drop_last(), before, mid)) && hooks.last().request_hook(
            mid,
            after,
            Err(e),
        ))
}

/// Whether `after` is what the response hooks of `hooks`, run in order and
/// each succeeding, can make of `before`.
pub open spec fn responses_pass(
    hooks: Seq<SharedMiddleware>,
    before: Response,
    after: Response,
) -> bool
    decreases hooks.len(),
{
    if hooks.len() == 0 {
        after == before
    } else {
        exists|mid: Response|
            responses_pass(hooks.drop_last(), before, mid)
                && #[trigger] hooks.last().response_hook(mid, after, Ok(()))
    }
}

/// Whether the response hooks of `hooks`, run in order on `before`, can come
/// to a hook that fails with `e` and leaves `after`, the hooks before it
/// having succeeded and the hooks after it not having run.
pub open spec fn responses_stop(
    hooks: Seq<SharedMiddleware>,
    before: Response,
    after: Response,
    e: MiddlewareError,
) -> bool
    decreases hooks.len(),
{
    hooks.len() > 0 && (responses_stop(hooks.drop_last(), before, after, e) || exists|
        mid: Response,
    |
        (#[trigger] responses_pass(hooks.drop_last(), before, mid)) && hooks.last().response_hook(
            mid,
            after,
            Err(e),
        ))
}

proof fn lemma_requests_pass_step(
    hooks: Seq<SharedMiddleware>,
    before: Request,
    mid: Request,
    after: Request,
)
    requires
        hooks.len() > 0,
        requests_pass(hooks.drop_last(), before, mid),
        hooks.last().request_hook(mid, after, Ok(())),
    ensures
        requests_pass(hooks, before, after),
{
}

proof fn lemma_responses_pass_step(
    hooks: Seq<SharedMiddleware>,
    before: Response,
    mid: Response,
    after: Response,
)
    requires
        hooks.len() > 0,
        responses_pass(hooks.drop_last(), before, mid),
        hooks.last().response_hook(mid, after, Ok(())),
    ensures
        responses_pass(hooks, before, after),
{
}

proof fn lemma_requests_stop_extends(
    hooks: Seq<SharedMiddleware>,
    n: int,
    before: Request,
    after: Request,
    e: MiddlewareError,
)
    requires
        0 <= n <= hooks.len(),
        requests_stop(hooks.take(n), before, after, e),
    ensures
        requests_stop(hooks, before, after, e),
    decreases hooks.len() - n,
{
    if n < hooks.len() {
        assert(hooks.take(n + 1).drop_last() =~= hooks.take(n));
        lemma_requests_stop_extends(hooks, n + 1, before, after, e);
    } else {
        assert(hooks.take(n) =~= hooks);
    }
}

proof fn lemma_responses_stop_extends(
    hooks: Seq<SharedMiddleware>,
    n: int,
    before: Response,
    after: Response,
    e: MiddlewareError,
)
    requires
        0 <= n <= hooks.len(),
        responses_stop(hooks.take(n), before, after, e),
    ensures
        responses_stop(hooks, before, after, e),
    decreases hooks.len() - n,
{
    if n < hooks.len() {
        assert(hooks.take(n + 1).drop_last() =~= hooks.take(n));
        lemma_responses_stop_extends(hooks, n + 1, before, after, e);
    } else {
        assert(hooks.take(n) =~= hooks);
    }
}

/// Runs the request hooks in order, and stops at the first that fails.
pub fn run_request_hooks(hooks: &Vec<SharedMiddleware>, req: &mut Request) -> (r: Result<
    (),
    MiddlewareError,
>)
    ensures
        match r {
            Ok(_) => requests_pass(hooks@, *old(req), *final(req)),
            Err(e) => requests_stop(hooks@, *old(req), *final(req), e),
        },
{
    let mut i: usize = 0;
    while i < hooks.len()
        invariant
            i <= hooks.len(),
            requests_pass(hooks@.take(i as int), *old(req), *req),
        decreases hooks.len() - i,
    {
        let ghost mid = *req;
        let outcome = hooks[i].on_request(req);
        proof {
            assert(hooks@.take(i + 1).drop_last() =~= hooks@.take(i as int));
            assert(hooks@.take(i + 1).last() == hooks@[i as int]);
        }
        match outcome {
            Ok(_) => {
                proof {
                    assert(outcome->Ok_0 == ());
                    lemma_requests_pass_step(hooks@.take(i + 1), *old(req), mid, *req);
                }
            },
            Err(e) => {
                proof {
                    assert(requests_pass(hooks@.take(i + 1).drop_last(), *old(req), mid));
                    assert(requests_stop(hooks@.take(i + 1), *old(req), *req, e));
                    lemma_requests_stop_extends(hooks@, i + 1, *old(req), *req, e);
                }
                return Err(e);
            },
        }
        i += 1;
    }
    assert(hooks@.take(hooks.len() as int) =~= hooks@);
    Ok(())
}

/// Runs the response hooks in order, and stops at the first that fails.
pub fn run_response_hooks(hooks: &Vec<SharedMiddleware>, res: &mut Response) -> (r: Result<
    (),
    MiddlewareError,
>)
    ensures
        match r {
            Ok(_) => responses_pass(hooks@, *old(res), *final(res)),
            Err(e) => responses_stop(hooks@, *old(res), *final(res), e),
        },
{
    let mut i: usize = 0;
    while i < hooks.len()
        invariant
            i <= hooks.len(),
            responses_pass(hooks@.take(i as int), *old(res), *res),
        decreases hooks.len() - i,
    {
        let ghost mid = *res;
        let outcome = hooks[i].on_response(res);
        proof {
            assert(hooks@.take(i + 1).drop_last() =~= hooks@.take(i as int));
            assert(hooks@.take(i + 1).last() == hooks@[i as int]);
        }
        match outcome {
            Ok(_) => {
                proof {
                    assert(outcome->Ok_0 == ());
                    lemma_responses_pass_step(hooks@.take(i + 1), *old(res), mid, *res);
                }
            },
            Err(e) => {
                proof {
                    assert(responses_pass(hooks@.take(i + 1).drop_last(), *old(res), mid));
                    assert(responses_stop(hooks@.take(i + 1), *old(res), *res, e));
                    lemma_responses_stop_extends(hooks@, i + 1, *old(res), *res, e);
                }
                return Err(e);
            },
        }
        i += 1;
    }
    assert(hooks@.take(hooks.len() as int) =~= hooks@);
    Ok(())
}

} // verus!

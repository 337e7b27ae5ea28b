//! Handlers: functions of up to five arguments, each argument had from the
//! request by its type, wrapped so that a router can hold handlers of every
//! shape in one table.

use crate::extract::extraction_message;
use crate::extract::ExtractionError;
use crate::extract::FromRequest;
use crate::extract::FromRequestParts;
use crate::http::ResponseStatus;
use crate::request::joined;
use crate::request::parts_of;
use crate::request::Parts;
use crate::request::Request;
use crate::response::empty_response;
use crate::response::settle;
use crate::response::settled;
use crate::response::text_response;
use crate::response::RenderError;
use crate::response::Responder;
use crate::response::Response;
use crate::response::ResponseModel;
use std::marker::PhantomData;
use std::sync::Arc;
use vstd::prelude::*;

verus! {

/// Something that answers requests.
pub trait Service<R>: Send + Sync {
    /// What `call` may answer to a request. An implementation that says
    /// nothing here promises nothing.
    open spec fn responds(&self, req: R, response: Response) -> bool {
        true
    }

    /// Answers a request.
    fn call(&self, req: R) -> (response: Response)
        ensures
            self.responds(req, response),
    ;
}

/// The response that an argument that cannot be had ends the dispatch with:
/// status 400, with the error's words as body.
pub open spec fn rejection(e: ExtractionError) -> ResponseModel {
    text_response(ResponseStatus::BadRequest, extraction_message(e))
}

/// The response that an argument that cannot be had ends the dispatch with.
pub fn reject(e: ExtractionError) -> (response: Response)
    ensures
        response@ == rejection(e),
{
    Response::text(ResponseStatus::BadRequest, e.to_string().as_str())
}

/// A handler: something that answers a request, given the state of the
/// router. Functions and closures of up to five arguments are handlers where
/// each argument can be had from a request and the result can be rendered;
/// `Q` stands for the types of the arguments.
pub trait HandlerTrait<Q, S = ()>: Sized + Send + Sync + 'static {
    /// Whether `handle` can be called. For a function or a closure this
    /// says that it takes every value of its arguments' types; the lemmas
    /// `lemma_handler0` to `lemma_handler5` show it of one.
    open spec fn callable(&self) -> bool {
        true
    }

    /// What `handle` may answer to a request. An implementation that says
    /// nothing here promises nothing.
    open spec fn handles(&self, request: Request, state: S, response: Response) -> bool {
        true
    }

    /// Answers a request.
    fn handle(&self, request: Request, state: &S) -> (response: Response)
        requires
            self.callable(),
        ensures
            self.handles(request, *state, response),
    ;
}

/// A handler that can be wrapped, together with the state, as a service.
/// Every handler can.
pub trait HandlerTraitWithState<Q, S>: HandlerTrait<Q, S> {
    /// Wraps the handler, together with the state, as a service.
    fn into_service_with_state(self, state: S) -> (service: IntoService<Self, S, Q>)
        requires
            self.callable(),
        ensures
            service.handler() == self,
            service.state() == state,
    ;

    /// Wraps the handler, together with the shared state, as a service.
    fn into_service_with_state_arc(self, state: Arc<S>) -> (service: IntoService<Self, S, Q>)
        requires
            self.callable(),
        ensures
            service.handler() == self,
            service.state() == *state,
    ;
}

impl<Q, S, H> HandlerTraitWithState<Q, S> for H where H: HandlerTrait<Q, S> {
    fn into_service_with_state(self, state: S) -> (service: IntoService<Self, S, Q>) {
        IntoService { handler: self, state: Arc::new(state), _marker: PhantomData }
    }

    fn into_service_with_state_arc(self, state: Arc<S>) -> (service: IntoService<Self, S, Q>) {
        IntoService { handler: self, state, _marker: PhantomData }
    }
}

/// A handler that takes no state.
pub trait HandlerTraitWithoutState<Q>: HandlerTrait<Q, ()> {
    /// Wraps the handler as a service.
    fn into_service(self) -> (service: IntoService<Self, (), Q>)
        requires
            self.callable(),
        ensures
            service.handler() == self,
    ;
}

impl<Q, H> HandlerTraitWithoutState<Q> for H where H: HandlerTrait<Q> {
    fn into_service(self) -> (service: IntoService<Self, (), Q>) {
        IntoService { handler: self, state: Arc::new(()), _marker: PhantomData }
    }
}

/// A handler together with the state it is called with. It hides which
/// arguments the handler takes: all that shows is a service.
pub struct IntoService<H, S, Q> where H: HandlerTrait<Q, S> {
    handler: H,
    state: Arc<S>,
    _marker: PhantomData<Q>,
}

impl<H, S, Q> IntoService<H, S, Q> where H: HandlerTrait<Q, S> {
    #[verifier::type_invariant]
    spec fn well_formed(self) -> bool {
        self.handler.callable()
    }

    /// The handler.
    pub closed spec fn handler(self) -> H {
        self.handler
    }

    /// The state.
    pub closed spec fn state(self) -> S {
        *self.state
    }
}

impl<H, S, Q> Service<Request> for IntoService<H, S, Q> where
    H: HandlerTrait<Q, S>,
    S: Send + Sync,
    Q: Send + Sync,
{
    open spec fn responds(&self, req: Request, response: Response) -> bool {
        self.handler().handles(req, self.state(), response)
    }

    /// Hands the request and the state to the handler.
    fn call(&self, req: Request) -> (response: Response) {
        proof {
            use_type_invariant(self);
        }
        self.handler.handle(req, &self.state)
    }
}

impl Service<Request> for () {
    open spec fn responds(&self, req: Request, response: Response) -> bool {
        response@ == empty_response()
    }

    /// Status 200 and an empty body, whatever the request.
    fn call(&self, req: Request) -> (response: Response) {
        Response::default()
    }
}

impl<S> HandlerTrait<(), S> for () {
    open spec fn handles(&self, request: Request, state: S, response: Response) -> bool {
        response@ == empty_response()
    }

    /// Status 200 and an empty body, whatever the request.
    fn handle(&self, request: Request, state: &S) -> (response: Response) {
        Response::default()
    }
}

/// What a handler of no argument gives: some value that the closure may
/// return, rendered, and the rendering settled.
pub open spec fn answers0<F, R>(f: F, response: Response) -> bool where
    F: Fn() -> R,
    R: Responder,
{
    exists|out: R, rendered: Result<Response, RenderError>|
        {
            &&& call_ensures(f, (), out)
            &&& #[trigger] out.renders(rendered)
            &&& response@ == settled(rendered)
        }
}

impl<F, S, R> HandlerTrait<((),), S> for F where
    R: Responder + 'static,
    F: Fn() -> R + Send + Sync + 'static,
{
    open spec fn callable(&self) -> bool {
        call_requires(*self, ())
    }

    open spec fn handles(&self, request: Request, state: S, response: Response) -> bool {
        answers0(*self, response)
    }

    /// Calls the handler, with nothing had from the request, and renders
    /// what it returns.
    fn handle(&self, request: Request, state: &S) -> (response: Response) {
        let out = self();
        let rendered = out.into_response();
        let response = settle(rendered);
        proof {
            assert(out.renders(rendered));
        }
        response
    }
}

/// A function of no argument that can be called is callable as a handler,
/// and answers as `answers0` says.
pub proof fn lemma_handler0<F, S, R>(f: F) where
    R: Responder + 'static,
    F: Fn() -> R + Send + Sync + 'static,

    requires
        call_requires(f, ()),
    ensures
        HandlerTrait::<((),), S>::callable(&f),
        forall|request: Request, state: S, response: Response|
            #[trigger] HandlerTrait::<((),), S>::handles(&f, request, state, response)
                == answers0(f, response),
{
}

/// What a handler of one argument gives on these: some value that the
/// closure may return, rendered, and the rendering settled.
pub open spec fn answers1<F, R, T1>(f: F, a1: T1, response: Response) -> bool where
    F: Fn(T1) -> R,
    R: Responder,
{
    exists|out: R, rendered: Result<Response, RenderError>|
        {
            &&& call_ensures(f, (a1,), out)
            &&& #[trigger] out.renders(rendered)
            &&& response@ == settled(rendered)
        }
}

/// What a handler of one argument may answer to a request: the argument is
/// had from the request; where it cannot be had the dispatch ends with status
/// 400, and else the handler is called on it.
pub open spec fn dispatches1<F, S, R, T1, M>(
    f: F,
    request: Request,
    state: S,
    response: Response,
) -> bool where
    R: Responder + 'static,
    T1: FromRequest<S, M>,
    F: Fn(T1) -> R + Send + Sync + 'static,
{
    exists|r1: Result<T1, ExtractionError>|
        {
            &&& #[trigger] T1::accepts(request, state, r1)
            &&& match r1 {
                Err(e) => response@ == rejection(e),
                Ok(a1) => answers1(f, a1, response),
            }
        }
}

impl<F, S, R, T1, M> HandlerTrait<(T1, M), S> for F where
    R: Responder + 'static,
    T1: FromRequest<S, M>,
    F: Fn(T1) -> R + Send + Sync + 'static,
{
    open spec fn callable(&self) -> bool {
        forall|a1: T1| call_requires(*self, (a1,))
    }

    open spec fn handles(&self, request: Request, state: S, response: Response) -> bool {
        dispatches1::<F, S, R, T1, M>(*self, request, state, response)
    }

    /// Has each argument from the request, in the order in which the handler
    /// declares them, calls the handler and renders what it returns. The first
    /// argument that cannot be had ends the dispatch with status 400.
    fn handle(&self, request: Request, state: &S) -> (response: Response) {
        let r1 = T1::from_request(request, state);
        let a1 = match r1 {
            Ok(a) => a,
            Err(e) => {
                return reject(e);
            },
        };
        let out = self(a1);
        let rendered = out.into_response();
        let response = settle(rendered);
        proof {
            assert(out.renders(rendered));
            assert(answers1(*self, a1, response));
        }
        response
    }
}

/// A function of one argument that takes every value of its argument is callable as
/// a handler, and answers as `dispatches1` says.
pub proof fn lemma_handler1<F, S, R, T1, M>(f: F) where
    R: Responder + 'static,
    T1: FromRequest<S, M>,
    F: Fn(T1) -> R + Send + Sync + 'static,

    requires
        forall|a1: T1| call_requires(f, (a1,)),
    ensures
        HandlerTrait::<(T1, M), S>::callable(&f),
        forall|request: Request, state: S, response: Response|
            #[trigger] HandlerTrait::<(T1, M), S>::handles(&f, request, state, response)
                == dispatches1::<F, S, R, T1, M>(f, request, state, response),
{
}

/// What a handler of two arguments gives on these: some value that the
/// closure may return, rendered, and the rendering settled.
pub open spec fn answers2<F, R, T1, T2>(f: F, a1: T1, a2: T2, response: Response) -> bool where
    F: Fn(T1, T2) -> R,
    R: Responder,
{
    exists|out: R, rendered: Result<Response, RenderError>|
        {
            &&& call_ensures(f, (a1, a2), out)
            &&& #[trigger] out.renders(rendered)
            &&& response@ == settled(rendered)
        }
}

/// What a handler of two arguments may answer to a request: each argument
/// is had from the request in turn, the arguments before the last from its
/// parts and the last from the request that the parts then make with the
/// body; the first that cannot be had ends the dispatch with status 400; and
/// where all are had the handler is called on them.
pub open spec fn dispatches2<F, S, R, T1, T2, M>(
    f: F,
    request: Request,
    state: S,
    response: Response,
) -> bool where
    R: Responder + 'static,
    T1: FromRequestParts<S>,
    T2: FromRequest<S, M>,
    F: Fn(T1, T2) -> R + Send + Sync + 'static,
{
    exists|p1: Parts, r1: Result<T1, ExtractionError>|
        {
            &&& #[trigger] T1::extracts(parts_of(request), state, p1, r1)
            &&& match r1 {
                Err(e) => response@ == rejection(e),
                Ok(a1) => exists|r2: Result<T2, ExtractionError>|
                    {
                        &&& #[trigger] T2::accepts(joined(p1, request.body), state, r2)
                        &&& match r2 {
                            Err(e) => response@ == rejection(e),
                            Ok(a2) => answers2(f, a1, a2, response),
                        }
                    },
            }
        }
}

impl<F, S, R, T1, T2, M> HandlerTrait<(T1, T2, M), S> for F where
    R: Responder + 'static,
    T1: FromRequestParts<S>,
    T2: FromRequest<S, M>,
    F: Fn(T1, T2) -> R + Send + Sync + 'static,
{
    open spec fn callable(&self) -> bool {
        forall|a1: T1, a2: T2| call_requires(*self, (a1, a2))
    }

    open spec fn handles(&self, request: Request, state: S, response: Response) -> bool {
        dispatches2::<F, S, R, T1, T2, M>(*self, request, state, response)
    }

    /// Has each argument from the request, in the order in which the handler
    /// declares them, calls the handler and renders what it returns. The first
    /// argument that cannot be had ends the dispatch with status 400.
    fn handle(&self, request: Request, state: &S) -> (response: Response) {
        let (mut parts, body) = request.into_parts();
        let r1 = T1::from_request_parts(&mut parts, state);
        let ghost p1 = parts;
        let a1 = match r1 {
            Ok(a) => a,
            Err(e) => {
                return reject(e);
            },
        };
        let r2 = T2::from_request(Request::from_parts(parts, body), state);
        let a2 = match r2 {
            Ok(a) => a,
            Err(e) => {
                return reject(e);
            },
        };
        let out = self(a1, a2);
        let rendered = out.into_response();
        let response = settle(rendered);
        proof {
            assert(out.renders(rendered));
            assert(answers2(*self, a1, a2, response));
        }
        response
    }
}

/// A function of two arguments that takes every value of its arguments is callable as
/// a handler, and answers as `dispatches2` says.
pub proof fn lemma_handler2<F, S, R, T1, T2, M>(f: F) where
    R: Responder + 'static,
    T1: FromRequestParts<S>,
    T2: FromRequest<S, M>,
    F: Fn(T1, T2) -> R + Send + Sync + 'static,

    requires
        forall|a1: T1, a2: T2| call_requires(f, (a1, a2)),
    ensures
        HandlerTrait::<(T1, T2, M), S>::callable(&f),
        forall|request: Request, state: S, response: Response|
            #[trigger] HandlerTrait::<(T1, T2, M), S>::handles(&f, request, state, response)
                == dispatches2::<F, S, R, T1, T2, M>(f, request, state, response),
{
}

/// What a handler of three arguments gives on these: some value that the
/// closure may return, rendered, and the rendering settled.
pub open spec fn answers3<F, R, T1, T2, T3>(f: F, a1: T1, a2: T2, a3: T3, response: Response) -> bool where
    F: Fn(T1, T2, T3) -> R,
    R: Responder,
{
    exists|out: R, rendered: Result<Response, RenderError>|
        {
            &&& call_ensures(f, (a1, a2, a3), out)
            &&& #[trigger] out.renders(rendered)
            &&& response@ == settled(rendered)
        }
}

/// What a handler of three arguments may answer to a request: each argument
/// is had from the request in turn, the arguments before the last from its
/// parts and the last from the request that the parts then make with the
/// body; the first that cannot be had ends the dispatch with status 400; and
/// where all are had the handler is called on them.
pub open spec fn dispatches3<F, S, R, T1, T2, T3, M>(
    f: F,
    request: Request,
    state: S,
    response: Response,
) -> bool where
    R: Responder + 'static,
    T1: FromRequestParts<S>,
    T2: FromRequestParts<S>,
    T3: FromRequest<S, M>,
    F: Fn(T1, T2, T3) -> R + Send + Sync + 'static,
{
    exists|p1: Parts, r1: Result<T1, ExtractionError>|
        {
            &&& #[trigger] T1::extracts(parts_of(request), state, p1, r1)
            &&& match r1 {
                Err(e) => response@ == rejection(e),
                Ok(a1) => exists|p2: Parts, r2: Result<T2, ExtractionError>|
                    {
                        &&& #[trigger] T2::extracts(p1, state, p2, r2)
                        &&& match r2 {
                            Err(e) => response@ == rejection(e),
                            Ok(a2) => exists|r3: Result<T3, ExtractionError>|
                                {
                                    &&& #[trigger] T3::accepts(joined(p2, request.body), state, r3)
                                    &&& match r3 {
                                        Err(e) => response@ == rejection(e),
                                        Ok(a3) => answers3(f, a1, a2, a3, response),
                                    }
                                },
                        }
                    },
            }
        }
}

impl<F, S, R, T1, T2, T3, M> HandlerTrait<(T1, T2, T3, M), S> for F where
    R: Responder + 'static,
    T1: FromRequestParts<S>,
    T2: FromRequestParts<S>,
    T3: FromRequest<S, M>,
    F: Fn(T1, T2, T3) -> R + Send + Sync + 'static,
{
    open spec fn callable(&self) -> bool {
        forall|a1: T1, a2: T2, a3: T3| call_requires(*self, (a1, a2, a3))
    }

    open spec fn handles(&self, request: Request, state: S, response: Response) -> bool {
        dispatches3::<F, S, R, T1, T2, T3, M>(*self, request, state, response)
    }

    /// Has each argument from the request, in the order in which the handler
    /// declares them, calls the handler and renders what it returns. The first
    /// argument that cannot be had ends the dispatch with status 400.
    fn handle(&self, request: Request, state: &S) -> (response: Response) {
        let (mut parts, body) = request.into_parts();
        let r1 = T1::from_request_parts(&mut parts, state);
        let ghost p1 = parts;
        let a1 = match r1 {
            Ok(a) => a,
            Err(e) => {
                return reject(e);
            },
        };
        let r2 = T2::from_request_parts(&mut parts, state);
        let ghost p2 = parts;
        let a2 = match r2 {
            Ok(a) => a,
            Err(e) => {
                return reject(e);
            },
        };
        let r3 = T3::from_request(Request::from_parts(parts, body), state);
        let a3 = match r3 {
            Ok(a) => a,
            Err(e) => {
                return reject(e);
            },
        };
        let out = self(a1, a2, a3);
        let rendered = out.into_response();
        let response = settle(rendered);
        proof {
            assert(out.renders(rendered));
            assert(answers3(*self, a1, a2, a3, response));
        }
        response
    }
}

/// A function of three arguments that takes every value of its arguments is callable as
/// a handler, and answers as `dispatches3` says.
pub proof fn lemma_handler3<F, S, R, T1, T2, T3, M>(f: F) where
    R: Responder + 'static,
    T1: FromRequestParts<S>,
    T2: FromRequestParts<S>,
    T3: FromRequest<S, M>,
    F: Fn(T1, T2, T3) -> R + Send + Sync + 'static,

    requires
        forall|a1: T1, a2: T2, a3: T3| call_requires(f, (a1, a2, a3)),
    ensures
        HandlerTrait::<(T1, T2, T3, M), S>::callable(&f),
        forall|request: Request, state: S, response: Response|
            #[trigger] HandlerTrait::<(T1, T2, T3, M), S>::handles(&f, request, state, response)
                == dispatches3::<F, S, R, T1, T2, T3, M>(f, request, state, response),
{
}

/// What a handler of four arguments gives on these: some value that the
/// closure may return, rendered, and the rendering settled.
pub open spec fn answers4<F, R, T1, T2, T3, T4>(f: F, a1: T1, a2: T2, a3: T3, a4: T4, response: Response) -> bool where
    F: Fn(T1, T2, T3, T4) -> R,
    R: Responder,
{
    exists|out: R, rendered: Result<Response, RenderError>|
        {
            &&& call_ensures(f, (a1, a2, a3, a4), out)
            &&& #[trigger] out.renders(rendered)
            &&& response@ == settled(rendered)
        }
}

/// What a handler of four arguments may answer to a request: each argument
/// is had from the request in turn, the arguments before the last from its
/// parts and the last from the request that the parts then make with the
/// body; the first that cannot be had ends the dispatch with status 400; and
/// where all are had the handler is called on them.
pub open spec fn dispatches4<F, S, R, T1, T2, T3, T4, M>(
    f: F,
    request: Request,
    state: S,
    response: Response,
) -> bool where
    R: Responder + 'static,
    T1: FromRequestParts<S>,
    T2: FromRequestParts<S>,
    T3: FromRequestParts<S>,
    T4: FromRequest<S, M>,
    F: Fn(T1, T2, T3, T4) -> R + Send + Sync + 'static,
{
    exists|p1: Parts, r1: Result<T1, ExtractionError>|
        {
            &&& #[trigger] T1::extracts(parts_of(request), state, p1, r1)
            &&& match r1 {
                Err(e) => response@ == rejection(e),
                Ok(a1) => exists|p2: Parts, r2: Result<T2, ExtractionError>|
                    {
                        &&& #[trigger] T2::extracts(p1, state, p2, r2)
                        &&& match r2 {
                            Err(e) => response@ == rejection(e),
                            Ok(a2) => exists|p3: Parts, r3: Result<T3, ExtractionError>|
                                {
                                    &&& #[trigger] T3::extracts(p2, state, p3, r3)
                                    &&& match r3 {
                                        Err(e) => response@ == rejection(e),
                                        Ok(a3) => exists|r4: Result<T4, ExtractionError>|
                                            {
                                                &&& #[trigger] T4::accepts(joined(p3, request.body), state, r4)
                                                &&& match r4 {
                                                    Err(e) => response@ == rejection(e),
                                                    Ok(a4) => answers4(f, a1, a2, a3, a4, response),
                                                }
                                            },
                                    }
                                },
                        }
                    },
            }
        }
}

impl<F, S, R, T1, T2, T3, T4, M> HandlerTrait<(T1, T2, T3, T4, M), S> for F where
    R: Responder + 'static,
    T1: FromRequestParts<S>,
    T2: FromRequestParts<S>,
    T3: FromRequestParts<S>,
    T4: FromRequest<S, M>,
    F: Fn(T1, T2, T3, T4) -> R + Send + Sync + 'static,
{
    open spec fn callable(&self) -> bool {
        forall|a1: T1, a2: T2, a3: T3, a4: T4| call_requires(*self, (a1, a2, a3, a4))
    }

    open spec fn handles(&self, request: Request, state: S, response: Response) -> bool {
        dispatches4::<F, S, R, T1, T2, T3, T4, M>(*self, request, state, response)
    }

    /// Has each argument from the request, in the order in which the handler
    /// declares them, calls the handler and renders what it returns. The first
    /// argument that cannot be had ends the dispatch with status 400.
    fn handle(&self, request: Request, state: &S) -> (response: Response) {
        let (mut parts, body) = request.into_parts();
        let r1 = T1::from_request_parts(&mut parts, state);
        let ghost p1 = parts;
        let a1 = match r1 {
            Ok(a) => a,
            Err(e) => {
                return reject(e);
            },
        };
        let r2 = T2::from_request_parts(&mut parts, state);
        let ghost p2 = parts;
        let a2 = match r2 {
            Ok(a) => a,
            Err(e) => {
                return reject(e);
            },
        };
        let r3 = T3::from_request_parts(&mut parts, state);
        let ghost p3 = parts;
        let a3 = match r3 {
            Ok(a) => a,
            Err(e) => {
                return reject(e);
            },
        };
        let r4 = T4::from_request(Request::from_parts(parts, body), state);
        let a4 = match r4 {
            Ok(a) => a,
            Err(e) => {
                return reject(e);
            },
        };
        let out = self(a1, a2, a3, a4);
        let rendered = out.into_response();
        let response = settle(rendered);
        proof {
            assert(out.renders(rendered));
            assert(answers4(*self, a1, a2, a3, a4, response));
        }
        response
    }
}

/// A function of four arguments that takes every value of its arguments is callable as
/// a handler, and answers as `dispatches4` says.
pub proof fn lemma_handler4<F, S, R, T1, T2, T3, T4, M>(f: F) where
    R: Responder + 'static,
    T1: FromRequestParts<S>,
    T2: FromRequestParts<S>,
    T3: FromRequestParts<S>,
    T4: FromRequest<S, M>,
    F: Fn(T1, T2, T3, T4) -> R + Send + Sync + 'static,

    requires
        forall|a1: T1, a2: T2, a3: T3, a4: T4| call_requires(f, (a1, a2, a3, a4)),
    ensures
        HandlerTrait::<(T1, T2, T3, T4, M), S>::callable(&f),
        forall|request: Request, state: S, response: Response|
            #[trigger] HandlerTrait::<(T1, T2, T3, T4, M), S>::handles(&f, request, state, response)
                == dispatches4::<F, S, R, T1, T2, T3, T4, M>(f, request, state, response),
{
}

/// What a handler of five arguments gives on these: some value that the
/// closure may return, rendered, and the rendering settled.
pub open spec fn answers5<F, R, T1, T2, T3, T4, T5>(f: F, a1: T1, a2: T2, a3: T3, a4: T4, a5: T5, response: Response) -> bool where
    F: Fn(T1, T2, T3, T4, T5) -> R,
    R: Responder,
{
    exists|out: R, rendered: Result<Response, RenderError>|
        {
            &&& call_ensures(f, (a1, a2, a3, a4, a5), out)
            &&& #[trigger] out.renders(rendered)
            &&& response@ == settled(rendered)
        }
}

/// What a handler of five arguments may answer to a request: each argument
/// is had from the request in turn, the arguments before the last from its
/// parts and the last from the request that the parts then make with the
/// body; the first that cannot be had ends the dispatch with status 400; and
/// where all are had the handler is called on them.
pub open spec fn dispatches5<F, S, R, T1, T2, T3, T4, T5, M>(
    f: F,
    request: Request,
    state: S,
    response: Response,
) -> bool where
    R: Responder + 'static,
    T1: FromRequestParts<S>,
    T2: FromRequestParts<S>,
    T3: FromRequestParts<S>,
    T4: FromRequestParts<S>,
    T5: FromRequest<S, M>,
    F: Fn(T1, T2, T3, T4, T5) -> R + Send + Sync + 'static,
{
    exists|p1: Parts, r1: Result<T1, ExtractionError>|
        {
            &&& #[trigger] T1::extracts(parts_of(request), state, p1, r1)
            &&& match r1 {
                Err(e) => response@ == rejection(e),
                Ok(a1) => exists|p2: Parts, r2: Result<T2, ExtractionError>|
                    {
                        &&& #[trigger] T2::extracts(p1, state, p2, r2)
                        &&& match r2 {
                            Err(e) => response@ == rejection(e),
                            Ok(a2) => exists|p3: Parts, r3: Result<T3, ExtractionError>|
                                {
                                    &&& #[trigger] T3::extracts(p2, state, p3, r3)
                                    &&& match r3 {
                                        Err(e) => response@ == rejection(e),
                                        Ok(a3) => exists|p4: Parts, r4: Result<T4, ExtractionError>|
                                            {
                                                &&& #[trigger] T4::extracts(p3, state, p4, r4)
                                                &&& match r4 {
                                                    Err(e) => response@ == rejection(e),
                                                    Ok(a4) => exists|r5: Result<T5, ExtractionError>|
                                                        {
                                                            &&& #[trigger] T5::accepts(joined(p4, request.body), state, r5)
                                                            &&& match r5 {
                                                                Err(e) => response@ == rejection(e),
                                                                Ok(a5) => answers5(f, a1, a2, a3, a4, a5, response),
                                                            }
                                                        },
                                                }
                                            },
                                    }
                                },
                        }
                    },
            }
        }
}

impl<F, S, R, T1, T2, T3, T4, T5, M> HandlerTrait<(T1, T2, T3, T4, T5, M), S> for F where
    R: Responder + 'static,
    T1: FromRequestParts<S>,
    T2: FromRequestParts<S>,
    T3: FromRequestParts<S>,
    T4: FromRequestParts<S>,
    T5: FromRequest<S, M>,
    F: Fn(T1, T2, T3, T4, T5) -> R + Send + Sync + 'static,
{
    open spec fn callable(&self) -> bool {
        forall|a1: T1, a2: T2, a3: T3, a4: T4, a5: T5| call_requires(*self, (a1, a2, a3, a4, a5))
    }

    open spec fn handles(&self, request: Request, state: S, response: Response) -> bool {
        dispatches5::<F, S, R, T1, T2, T3, T4, T5, M>(*self, request, state, response)
    }

    /// Has each argument from the request, in the order in which the handler
    /// declares them, calls the handler and renders what it returns. The first
    /// argument that cannot be had ends the dispatch with status 400.
    fn handle(&self, request: Request, state: &S) -> (response: Response) {
        let (mut parts, body) = request.into_parts();
        let r1 = T1::from_request_parts(&mut parts, state);
        let ghost p1 = parts;
        let a1 = match r1 {
            Ok(a) => a,
            Err(e) => {
                return reject(e);
            },
        };
        let r2 = T2::from_request_parts(&mut parts, state);
        let ghost p2 = parts;
        let a2 = match r2 {
            Ok(a) => a,
            Err(e) => {
                return reject(e);
            },
        };
        let r3 = T3::from_request_parts(&mut parts, state);
        let ghost p3 = parts;
        let a3 = match r3 {
            Ok(a) => a,
            Err(e) => {
                return reject(e);
            },
        };
        let r4 = T4::from_request_parts(&mut parts, state);
        let ghost p4 = parts;
        let a4 = match r4 {
            Ok(a) => a,
            Err(e) => {
                return reject(e);
            },
        };
        let r5 = T5::from_request(Request::from_parts(parts, body), state);
        let a5 = match r5 {
            Ok(a) => a,
            Err(e) => {
                return reject(e);
            },
        };
        let out = self(a1, a2, a3, a4, a5);
        let rendered = out.into_response();
        let response = settle(rendered);
        proof {
            assert(out.renders(rendered));
            assert(answers5(*self, a1, a2, a3, a4, a5, response));
        }
        response
    }
}

/// A function of five arguments that takes every value of its arguments is callable as
/// a handler, and answers as `dispatches5` says.
pub proof fn lemma_handler5<F, S, R, T1, T2, T3, T4, T5, M>(f: F) where
    R: Responder + 'static,
    T1: FromRequestParts<S>,
    T2: FromRequestParts<S>,
    T3: FromRequestParts<S>,
    T4: FromRequestParts<S>,
    T5: FromRequest<S, M>,
    F: Fn(T1, T2, T3, T4, T5) -> R + Send + Sync + 'static,

    requires
        forall|a1: T1, a2: T2, a3: T3, a4: T4, a5: T5| call_requires(f, (a1, a2, a3, a4, a5)),
    ensures
        HandlerTrait::<(T1, T2, T3, T4, T5, M), S>::callable(&f),
        forall|request: Request, state: S, response: Response|
            #[trigger] HandlerTrait::<(T1, T2, T3, T4, T5, M), S>::handles(&f, request, state, response)
                == dispatches5::<F, S, R, T1, T2, T3, T4, T5, M>(f, request, state, response),
{
}
/// A service behind a pointer, so that services of different types can stand
/// in one table.
#[verifier::reject_recursive_types(T)]
pub struct BoxCloneService<T>(pub Box<dyn Service<T>>);

impl<T> BoxCloneService<T> {
    /// Puts a service behind a pointer. The service behind the pointer
    /// answers as the service given does.
    pub fn new<V>(service: V) -> (boxed: BoxCloneService<T>) where V: Service<T> + 'static
        ensures
            forall|req: T, response: Response|
                #[trigger] boxed.0.responds(req, response) == service.responds(req, response),
    {
        BoxCloneService(Box::new(Held(service)))
    }
}

/// A service as it stands behind the pointer of a `BoxCloneService`: it
/// answers as the service that it holds.
pub struct Held<V>(pub V);

impl<T, V: Service<T>> Service<T> for Held<V> {
    open spec fn responds(&self, req: T, response: Response) -> bool {
        self.0.responds(req, response)
    }

    /// Hands the request to the service held.
    fn call(&self, req: T) -> (response: Response) {
        self.0.call(req)
    }
}

} // verus!

//! Laws that hold of the library as a whole.

use crate::extract::advanced;
use crate::extract::from_headers;
use crate::extract::TypedHeader;
use crate::extract::ViaParts;
use crate::request::parts_of;
use crate::extract::next_segment;
use crate::extract::ExtractionError;
use crate::extract::FromJson;
use crate::extract::FromRequest;
use crate::extract::FromRequestParts;
use crate::extract::Json;
use crate::extract::PathParam;
use crate::http::Method;
use crate::param::FromParam;
use crate::request::joined;
use crate::request::Parts;
use crate::request::Request;
use crate::response::RenderError;
use crate::response::Responder;
use crate::response::Response;
use crate::route::lemma_first_taking_is_first;
use crate::route::entry_takes;
use crate::route::selection;
use crate::route::Route;
use crate::route::RoutingError;
use vstd::prelude::*;

verus! {

/// What one extractor does to the parts of a request, as far as the binding
/// of path parameters goes: it binds the next placeholder and moves the
/// cursor on, or it leaves the parts as they are.
pub open spec fn extraction_step(before: Parts, after: Parts, binds: bool) -> bool {
    if binds {
        &&& before.cursor is Some
        &&& before.cursor->Some_0.next_ordinal < before.cursor->Some_0.offsets@.len()
        &&& after@ == advanced(before)
    } else {
        after@ == before@
    }
}

/// The number of steps among the first `k` that bind a placeholder.
pub open spec fn bound_before(steps: Seq<bool>, k: int) -> nat
    decreases k,
{
    if k <= 0 {
        0
    } else {
        bound_before(steps, k - 1) + if steps[k - 1] {
            1nat
        } else {
            0nat
        }
    }
}

/// Whether `trace` holds the parts of a request before and after each of a
/// run of extractors, of which `steps` says which bind a placeholder, from a
/// cursor that has bound none.
pub open spec fn extraction_trace(trace: Seq<Parts>, steps: Seq<bool>) -> bool {
    &&& trace.len() == steps.len() + 1
    &&& trace[0].cursor is Some
    &&& trace[0].cursor->Some_0.next_ordinal == 0
    &&& forall|j: int| 0 <= j < steps.len() ==> #[trigger] step_holds(trace, steps, j)
}

/// Whether the step at place `j` leads from the parts before it to the parts
/// after it.
pub open spec fn step_holds(trace: Seq<Parts>, steps: Seq<bool>, j: int) -> bool {
    extraction_step(trace[j], trace[j + 1], steps[j])
}

/// Whatever extractors run, and in whatever order, the cursor keeps the
/// segments and the offsets that it started with, and its next ordinal is
/// the number of path parameters bound so far.
pub proof fn lemma_cursor_counts_bindings(trace: Seq<Parts>, steps: Seq<bool>, k: int)
    requires
        extraction_trace(trace, steps),
        0 <= k <= steps.len(),
    ensures
        trace[k].cursor is Some,
        trace[k].cursor->Some_0@.segments == trace[0].cursor->Some_0@.segments,
        trace[k].cursor->Some_0@.offsets == trace[0].cursor->Some_0@.offsets,
        trace[k].cursor->Some_0.next_ordinal == bound_before(steps, k),
    decreases k,
{
    if k > 0 {
        lemma_cursor_counts_bindings(trace, steps, k - 1);
        assert(step_holds(trace, steps, k - 1));
        let before = trace[k - 1].cursor->Some_0;
        assert(before.offsets.len() == before.offsets@.len());
    }
}

/// What a path parameter does to the parts is a step: it binds the next
/// placeholder where it succeeds, and leaves the parts as they are where it
/// fails.
pub proof fn lemma_path_param_is_step<S, T: FromParam<Inner = T>>(
    before: Parts,
    state: S,
    after: Parts,
    r: Result<PathParam<T>, ExtractionError>,
)
    requires
        <PathParam<T> as FromRequestParts<S>>::extracts(before, state, after, r),
    ensures
        extraction_step(before, after, r is Ok),
{
}

/// The path parameters of a handler bind to the placeholders of the pattern
/// in order: a path parameter that runs after `i` others have been bound,
/// whatever else ran between them, reads the segment at the offset of the
/// placeholder with ordinal `i`.
pub proof fn lemma_params_bind_in_order<S, T: FromParam<Inner = T>>(
    trace: Seq<Parts>,
    steps: Seq<bool>,
    k: int,
    state: S,
    after: Parts,
    value: T,
)
    requires
        extraction_trace(trace, steps),
        0 <= k <= steps.len(),
        <PathParam<T> as FromRequestParts<S>>::extracts(
            trace[k],
            state,
            after,
            Ok(PathParam(value)),
        ),
    ensures
        ({
            let start = trace[0].cursor->Some_0@;
            let i = bound_before(steps, k) as int;
            &&& i < start.offsets.len()
            &&& start.offsets[i] < start.segments.len()
            &&& T::reads(start.segments[start.offsets[i] as int], Ok(value))
        }),
{
    lemma_cursor_counts_bindings(trace, steps, k);
    let cursor = trace[k].cursor->Some_0@;
    assert(next_segment(cursor) is Ok);
}

/// A typed header, taken as an argument of a handler, leaves the parts as
/// they are and gives what the headers hold under its name.
pub proof fn lemma_typed_header_extracts<S, T: TypedHeader>(
    before: Parts,
    state: S,
    after: Parts,
    r: Result<T, ExtractionError>,
)
    ensures
        <T as FromRequestParts<S>>::extracts(before, state, after, r) == (after == before
            && from_headers::<T>(before.headers.deep_view(), r)),
        extraction_step(before, after, false) || !<T as FromRequestParts<S>>::extracts(
            before,
            state,
            after,
            r,
        ),
{
}

/// What can be had from the parts of a request can stand as the last
/// argument of a handler: it is then had from the parts of the request that
/// the arguments before it left.
pub proof fn lemma_parts_extractor_accepts<S, T: FromRequestParts<S>>(
    request: Request,
    state: S,
    r: Result<T, ExtractionError>,
)
    ensures
        <T as FromRequest<S, ViaParts>>::accepts(request, state, r) == (exists|after: Parts| #[trigger]
            T::extracts(parts_of(request), state, after, r)),
{
}

/// The extractor of the body as text depends on the body alone: whatever
/// the extractors before it made of the parts, it gives what it would have
/// given at first.
pub proof fn lemma_text_body_survives<S>(
    first: Parts,
    later: Parts,
    body: Vec<u8>,
    state: S,
    r: Result<String, ExtractionError>,
)
    ensures
        <String as FromRequest<S>>::accepts(joined(first, body), state, r) == <String as FromRequest<
            S,
        >>::accepts(joined(later, body), state, r),
{
}

/// The extractor of the body as JSON depends on the body alone: whatever
/// the extractors before it made of the parts, it gives what it would have
/// given at first.
pub proof fn lemma_json_body_survives<S, T: FromJson>(
    first: Parts,
    later: Parts,
    body: Vec<u8>,
    state: S,
    r: Result<Json<T>, ExtractionError>,
)
    ensures
        <Json<T> as FromRequest<S>>::accepts(joined(first, body), state, r) == <Json<
            T,
        > as FromRequest<S>>::accepts(joined(later, body), state, r),
{
    let a = joined(first, body);
    let b = joined(later, body);
    assert(a.body == b.body);
    if <Json<T> as FromRequest<S>>::accepts(a, state, r) {
        let decoded = choose|decoded: Result<T, ExtractionError>|
            {
                &&& #[trigger] T::decodes(a.body@, decoded)
                &&& r == match decoded {
                    Ok(value) => Ok::<Json<T>, ExtractionError>(Json(value)),
                    Err(e) => Err(e),
                }
            };
        assert(T::decodes(b.body@, decoded));
    }
    if <Json<T> as FromRequest<S>>::accepts(b, state, r) {
        let decoded = choose|decoded: Result<T, ExtractionError>|
            {
                &&& #[trigger] T::decodes(b.body@, decoded)
                &&& r == match decoded {
                    Ok(value) => Ok::<Json<T>, ExtractionError>(Json(value)),
                    Err(e) => Err(e),
                }
            };
        assert(T::decodes(a.body@, decoded));
    }
}

/// A text that is rendered into a response, and then had back from a
/// request with the body of that response, is the text that was rendered.
pub proof fn lemma_text_round_trip<S>(
    text: String,
    rendered: Result<Response, RenderError>,
    request: Request,
    state: S,
    back: Result<String, ExtractionError>,
)
    requires
        text.renders(rendered),
        rendered is Ok ==> request.body@ == rendered->Ok_0@.body,
        <String as FromRequest<S>>::accepts(request, state, back),
    ensures
        rendered is Ok,
        back is Ok,
        back->Ok_0@ == text@,
{
    vstd::utf8::encode_utf8_valid_utf8(text@);
    vstd::utf8::encode_utf8_decode_utf8(text@);
}

/// The route of a request is a function of the table, the method and the
/// path: it is the first route, in the order of registration, that is
/// registered for the method and whose pattern matches the path, so that
/// the same table gives the same route for the same request every time.
pub proof fn lemma_selection_is_first_match(
    table: Seq<(Method, Route)>,
    method: Method,
    path: Seq<char>,
    i: int,
)
    requires
        selection(table, method, path) == Ok::<int, RoutingError>(i),
    ensures
        0 <= i < table.len(),
        entry_takes(table[i], method, path),
        forall|k: int| 0 <= k < i ==> !entry_takes(#[trigger] table[k], method, path),
{
    lemma_first_taking_is_first(table, method, path);
}

} // verus!

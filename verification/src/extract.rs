//! Extraction: how the arguments of a handler are had from a request, one
//! type at a time.

use crate::param::FromParam;
use crate::param::ParamError;
use crate::request::query_of;
use crate::request::CursorModel;
use crate::request::Parts;
use crate::request::Request;
use crate::text::chars_of;
use crate::text::find_char;
use crate::text::slice_chars;
use crate::text::string_of;
use vstd::prelude::*;
use vstd::utf8::decode_utf8;
use vstd::utf8::valid_utf8;

verus! {

/// Why an argument of a handler could not be had from a request.
#[derive(PartialEq, Eq, Clone, Copy, Debug, Structural)]
pub enum ExtractionError {
    /// The request has no header of the name asked for.
    MissingHeader,
    /// The header's value holds a character that is no visible ASCII.
    InvalidHeaderValue,
    /// No route was matched, so that there is no cursor to go by.
    NoCursor,
    /// The pattern has fewer placeholders than the handler has path
    /// parameters.
    NoPlaceholder,
    /// The path has no segment at the placeholder's offset.
    NoSegment,
    /// The segment does not read as a value of the parameter's type.
    UnreadableParam,
    /// The request target has no query string.
    NoQuery,
    /// The query string does not decode into the type asked for.
    MalformedQuery,
    /// The body does not decode into the type asked for.
    MalformedBody,
    /// The body is no UTF-8 text.
    BodyNotUtf8,
}

/// What an error says, in words.
pub open spec fn extraction_message(e: ExtractionError) -> Seq<char> {
    match e {
        ExtractionError::MissingHeader => "header not found"@,
        ExtractionError::InvalidHeaderValue => "header value is not visible ASCII"@,
        ExtractionError::NoCursor => "no segments provided"@,
        ExtractionError::NoPlaceholder => "no value for wanted ordering"@,
        ExtractionError::NoSegment => "invalid value from a string"@,
        ExtractionError::UnreadableParam => "path parameter could not be read"@,
        ExtractionError::NoQuery => "not queries provided"@,
        ExtractionError::MalformedQuery => "query string could not be decoded"@,
        ExtractionError::MalformedBody => "body could not be decoded"@,
        ExtractionError::BodyNotUtf8 => "body is not UTF-8"@,
    }
}

impl ExtractionError {
    /// What the error says, in words.
    pub fn to_string(&self) -> (s: String)
        ensures
            s@ == extraction_message(*self),
    {
        match self {
            ExtractionError::MissingHeader => "header not found".to_owned(),
            ExtractionError::InvalidHeaderValue => "header value is not visible ASCII".to_owned(),
            ExtractionError::NoCursor => "no segments provided".to_owned(),
            ExtractionError::NoPlaceholder => "no value for wanted ordering".to_owned(),
            ExtractionError::NoSegment => "invalid value from a string".to_owned(),
            ExtractionError::UnreadableParam => "path parameter could not be read".to_owned(),
            ExtractionError::NoQuery => "not queries provided".to_owned(),
            ExtractionError::MalformedQuery => "query string could not be decoded".to_owned(),
            ExtractionError::MalformedBody => "body could not be decoded".to_owned(),
            ExtractionError::BodyNotUtf8 => "body is not UTF-8".to_owned(),
        }
    }
}

/// Marks an extractor that takes the whole request, body included.
#[derive(Debug, Clone, Copy)]
pub enum ViaRequest {
    /// The only value.
    Whole,
}

/// Marks an extractor that takes the request without its body.
#[derive(Debug, Clone, Copy)]
pub enum ViaParts {
    /// The only value.
    Head,
}

/// A type whose values are had from a request without its body. Any number
/// of such arguments may stand before the last argument of a handler.
pub trait FromRequestParts<S>: Sized {
    /// What `from_request_parts` may do: the parts before and after it, and
    /// its result. An implementation that says nothing here promises
    /// nothing.
    open spec fn extracts(
        before: Parts,
        state: S,
        after: Parts,
        r: Result<Self, ExtractionError>,
    ) -> bool {
        true
    }

    /// Has a value from the parts of a request.
    fn from_request_parts(parts: &mut Parts, state: &S) -> (r: Result<Self, ExtractionError>)
        ensures
            Self::extracts(*old(parts), *state, *final(parts), r),
    ;
}

/// A type whose values are had from a whole request, which it uses up. Only
/// the last argument of a handler can be of such a type.
pub trait FromRequest<S, M = ViaRequest>: Sized {
    /// What `from_request` may give for a request. An implementation that
    /// says nothing here promises nothing.
    open spec fn accepts(request: Request, state: S, r: Result<Self, ExtractionError>) -> bool {
        true
    }

    /// Has a value from a request.
    fn from_request(request: Request, state: &S) -> (r: Result<Self, ExtractionError>)
        ensures
            Self::accepts(request, *state, r),
    ;
}

impl<S> FromRequest<S> for Request {
    open spec fn accepts(request: Request, state: S, r: Result<Request, ExtractionError>) -> bool {
        r is Ok && r->Ok_0 == request
    }

    /// The request itself.
    fn from_request(request: Request, state: &S) -> (r: Result<Request, ExtractionError>) {
        Ok(request)
    }
}

/// `std::string::FromUtf8Error`: why bytes are no UTF-8 text.
#[verifier::external_type_specification]
#[verifier::external_body]
pub struct ExFromUtf8Error(std::string::FromUtf8Error);

/// `String::from_utf8` gives the text that the bytes are the UTF-8 form of,
/// and fails exactly where they are the UTF-8 form of none.
pub assume_specification[ String::from_utf8 ](bytes: Vec<u8>) -> (r: Result<
    String,
    std::string::FromUtf8Error,
>)
    ensures
        r is Ok <==> valid_utf8(bytes@),
        r matches Ok(s) ==> s@ == decode_utf8(bytes@),
;

/// What the body extractor for text gives: the text that the body is the
/// UTF-8 form of.
pub open spec fn body_text(body: Seq<u8>) -> Result<Seq<char>, ExtractionError> {
    if valid_utf8(body) {
        Ok(decode_utf8(body))
    } else {
        Err(ExtractionError::BodyNotUtf8)
    }
}

impl<S> FromRequest<S> for String {
    open spec fn accepts(request: Request, state: S, r: Result<String, ExtractionError>) -> bool {
        match body_text(request.body@) {
            Ok(text) => r is Ok && r->Ok_0@ == text,
            Err(e) => r == Err::<String, ExtractionError>(e),
        }
    }

    /// The body as text.
    fn from_request(request: Request, state: &S) -> (r: Result<String, ExtractionError>) {
        match String::from_utf8(request.body) {
            Ok(text) => Ok(text),
            Err(_) => Err(ExtractionError::BodyNotUtf8),
        }
    }
}

/// The parts with the cursor moved on by one placeholder.
pub open spec fn advanced(parts: Parts) -> crate::request::PartsModel {
    crate::request::PartsModel {
        cursor: Some(
            CursorModel {
                next_ordinal: (parts.cursor->Some_0.next_ordinal + 1) as usize,
                ..parts.cursor->Some_0@
            },
        ),
        ..parts@
    }
}

/// The segment that the next path parameter binds to: the cursor's next
/// ordinal gives an offset, and the offset gives a segment of the path.
pub open spec fn next_segment(cursor: CursorModel) -> Result<Seq<char>, ExtractionError> {
    if cursor.next_ordinal >= cursor.offsets.len() {
        Err(ExtractionError::NoPlaceholder)
    } else if cursor.offsets[cursor.next_ordinal as int] >= cursor.segments.len() {
        Err(ExtractionError::NoSegment)
    } else {
        Ok(cursor.segments[cursor.offsets[cursor.next_ordinal as int] as int])
    }
}

/// A path parameter: the value of the segment of the path that stands where
/// the pattern has a placeholder. The parameters of a handler bind to the
/// placeholders of the pattern in order.
#[derive(Debug)]
pub struct PathParam<T>(pub T);

impl<S, T: FromParam<Inner = T>> FromRequestParts<S> for PathParam<T> {
    open spec fn extracts(
        before: Parts,
        state: S,
        after: Parts,
        r: Result<PathParam<T>, ExtractionError>,
    ) -> bool {
        match before.cursor {
            None => after@ == before@ && r == Err::<PathParam<T>, ExtractionError>(
                ExtractionError::NoCursor,
            ),
            Some(cursor) => match next_segment(cursor@) {
                Err(e) => after@ == before@ && r == Err::<PathParam<T>, ExtractionError>(e),
                Ok(segment) => exists|read: Result<T, ParamError>|
                    {
                        &&& #[trigger] T::reads(segment, read)
                        &&& match read {
                            Ok(value) => after@ == advanced(before) && r == Ok::<
                                PathParam<T>,
                                ExtractionError,
                            >(PathParam(value)),
                            Err(_) => after@ == before@ && r == Err::<
                                PathParam<T>,
                                ExtractionError,
                            >(ExtractionError::UnreadableParam),
                        }
                    },
            },
        }
    }

    /// Reads the segment of the next placeholder and moves the cursor on.
    fn from_request_parts(parts: &mut Parts, state: &S) -> (r: Result<
        PathParam<T>,
        ExtractionError,
    >) {
        let ghost before = *parts;
        let (ordinal, text) = match &parts.cursor {
            None => {
                return Err(ExtractionError::NoCursor);
            },
            Some(cursor) => {
                let ordinal = cursor.next_ordinal;
                if ordinal >= cursor.offsets.len() {
                    return Err(ExtractionError::NoPlaceholder);
                }
                let offset = cursor.offsets[ordinal];
                if offset >= cursor.segments.len() {
                    return Err(ExtractionError::NoSegment);
                }
                (ordinal, cursor.segments[offset].clone())
            },
        };
        let read = T::from_param(text);
        match read {
            Ok(value) => {
                match &mut parts.cursor {
                    Some(cursor) => {
                        cursor.next_ordinal = ordinal + 1;
                    },
                    None => {},
                }
                assert(parts@ == advanced(before));
                assert(T::reads(next_segment(before.cursor->Some_0@)->Ok_0, read));
                Ok(PathParam(value))
            },
            Err(_) => {
                assert(T::reads(next_segment(before.cursor->Some_0@)->Ok_0, read));
                Err(ExtractionError::UnreadableParam)
            },
        }
    }
}

/// The lower-case form of an ASCII letter, and any other character as it is.
pub open spec fn ascii_lower(c: char) -> char {
    if 'A' <= c <= 'Z' {
        ((c as u32) + 32) as char
    } else {
        c
    }
}

/// Whether two header names are the same, the case of ASCII letters set
/// aside.
pub open spec fn same_name(a: Seq<char>, b: Seq<char>) -> bool {
    &&& a.len() == b.len()
    &&& forall|i: int| 0 <= i < a.len() ==> ascii_lower(#[trigger] a[i]) == ascii_lower(b[i])
}

/// The value of the first header of that name, if there is one.
pub open spec fn header_value(headers: Seq<(Seq<char>, Seq<char>)>, name: Seq<char>) -> Option<
    Seq<char>,
>
    decreases headers.len(),
{
    if headers.len() == 0 {
        None
    } else if same_name(headers.first().0, name) {
        Some(headers.first().1)
    } else {
        header_value(headers.drop_first(), name)
    }
}

/// Whether every character of a header's value is visible ASCII: a tab, or a
/// character from the space to the tilde.
pub open spec fn visible_ascii(value: Seq<char>) -> bool {
    forall|i: int|
        0 <= i < value.len() ==> (#[trigger] value[i] == '\t' || ' ' <= value[i] <= '~')
}

fn lower(c: char) -> (l: u32)
    ensures
        l == ascii_lower(c) as u32,
{
    let u: u32 = c as u32;
    if 'A' <= c && c <= 'Z' {
        u + 32
    } else {
        u
    }
}

/// Whether two header names are the same, the case of ASCII letters set
/// aside.
pub fn names_agree(a: &Vec<char>, b: &Vec<char>) -> (same: bool)
    ensures
        same == same_name(a@, b@),
{
    if a.len() != b.len() {
        return false;
    }
    let mut i: usize = 0;
    while i < a.len()
        invariant
            i <= a.len(),
            a.len() == b.len(),
            forall|k: int| 0 <= k < i ==> ascii_lower(#[trigger] a@[k]) == ascii_lower(b@[k]),
        decreases a.len() - i,
    {
        if lower(a[i]) != lower(b[i]) {
            assert(ascii_lower(a@[i as int]) != ascii_lower(b@[i as int]));
            return false;
        }
        i += 1;
    }
    true
}

/// The place of the first header of that name, if there is one.
pub fn find_header(headers: &Vec<(String, String)>, name: &str) -> (at: Option<usize>)
    ensures
        match at {
            Some(i) => i < headers.len() && header_value(headers.deep_view(), name@) == Some(
                headers@[i as int].1@,
            ),
            None => header_value(headers.deep_view(), name@) is None,
        },
{
    let wanted = chars_of(name);
    let ghost all = headers.deep_view();
    let mut i: usize = 0;
    assert(all.skip(0) =~= all);
    while i < headers.len()
        invariant
            i <= headers.len(),
            all == headers.deep_view(),
            wanted@ == name@,
            header_value(all, name@) == header_value(all.skip(i as int), name@),
        decreases headers.len() - i,
    {
        let here = chars_of(headers[i].0.as_str());
        proof {
            assert(all.skip(i as int).first() == all[i as int]);
            assert(all.skip(i as int).drop_first() =~= all.skip(i + 1));
        }
        if names_agree(&here, &wanted) {
            return Some(i);
        }
        i += 1;
    }
    None
}

/// Whether every character of a header's value is visible ASCII.
pub fn is_visible_ascii(value: &Vec<char>) -> (visible: bool)
    ensures
        visible == visible_ascii(value@),
{
    let mut i: usize = 0;
    while i < value.len()
        invariant
            i <= value.len(),
            forall|k: int|
                0 <= k < i ==> (#[trigger] value@[k] == '\t' || ' ' <= value@[k] <= '~'),
        decreases value.len() - i,
    {
        let c = value[i];
        if !(c == '\t' || (' ' <= c && c <= '~')) {
            return false;
        }
        i += 1;
    }
    true
}

/// A type whose values are had from the header of one name.
pub trait TypedHeader: Sized {
    /// Which names `key` may give. An implementation that says nothing here
    /// promises nothing.
    open spec fn names(key: Seq<char>) -> bool {
        true
    }

    /// What `try_from_header_value` may give for a value. An implementation
    /// that says nothing here promises nothing.
    open spec fn converts(value: Seq<char>, r: Result<Self, ExtractionError>) -> bool {
        true
    }

    /// The name of the header.
    fn key() -> (k: String)
        ensures
            Self::names(k@),
    ;

    /// Has a value from the header's value.
    fn try_from_header_value(header_value: &str) -> (r: Result<Self, ExtractionError>)
        ensures
            Self::converts(header_value@, r),
    ;

    /// Looks the header up by its name and has a value from the first one
    /// found; fails where there is none.
    fn try_from_header_map(map: &Vec<(String, String)>) -> (r: Result<Self, ExtractionError>)
        ensures
            exists|key: Seq<char>|
                {
                    &&& #[trigger] Self::names(key)
                    &&& match header_value(map.deep_view(), key) {
                        Some(value) => Self::converts(value, r),
                        None => r == Err::<Self, ExtractionError>(ExtractionError::MissingHeader),
                    }
                },
    {
        let key = Self::key();
        match find_header(map, key.as_str()) {
            Some(at) => Self::try_from_header_value(map[at].1.as_str()),
            None => Err(ExtractionError::MissingHeader),
        }
    }
}

/// What a typed header gives for a list of headers.
pub open spec fn from_headers<T: TypedHeader>(
    headers: Seq<(Seq<char>, Seq<char>)>,
    r: Result<T, ExtractionError>,
) -> bool {
    exists|key: Seq<char>|
        {
            &&& #[trigger] T::names(key)
            &&& match header_value(headers, key) {
                Some(value) => T::converts(value, r),
                None => r == Err::<T, ExtractionError>(ExtractionError::MissingHeader),
            }
        }
}

/// What the library's typed headers give for a value: the value as it is,
/// where it is visible ASCII.
pub open spec fn header_text(value: Seq<char>) -> Result<Seq<char>, ExtractionError> {
    if visible_ascii(value) {
        Ok(value)
    } else {
        Err(ExtractionError::InvalidHeaderValue)
    }
}

fn header_string(value: &str) -> (r: Result<String, ExtractionError>)
    ensures
        match header_text(value@) {
            Ok(text) => r is Ok && r->Ok_0@ == text,
            Err(e) => r == Err::<String, ExtractionError>(e),
        },
{
    if is_visible_ascii(&chars_of(value)) {
        Ok(value.to_owned())
    } else {
        Err(ExtractionError::InvalidHeaderValue)
    }
}

/// The value of the header `content-type`.
#[derive(Debug)]
pub struct ContentType(pub String);

impl TypedHeader for ContentType {
    open spec fn names(key: Seq<char>) -> bool {
        key == "content-type"@
    }

    open spec fn converts(value: Seq<char>, r: Result<ContentType, ExtractionError>) -> bool {
        match header_text(value) {
            Ok(text) => r is Ok && r->Ok_0.0@ == text,
            Err(e) => r == Err::<ContentType, ExtractionError>(e),
        }
    }

    fn key() -> (k: String) {
        "content-type".to_owned()
    }

    fn try_from_header_value(header_value: &str) -> (r: Result<ContentType, ExtractionError>) {
        match header_string(header_value) {
            Ok(text) => Ok(ContentType(text)),
            Err(e) => Err(e),
        }
    }
}

/// The value of the header `host`.
#[derive(Debug)]
pub struct Host(pub String);

impl TypedHeader for Host {
    open spec fn names(key: Seq<char>) -> bool {
        key == "host"@
    }

    open spec fn converts(value: Seq<char>, r: Result<Host, ExtractionError>) -> bool {
        match header_text(value) {
            Ok(text) => r is Ok && r->Ok_0.0@ == text,
            Err(e) => r == Err::<Host, ExtractionError>(e),
        }
    }

    fn key() -> (k: String) {
        "host".to_owned()
    }

    fn try_from_header_value(header_value: &str) -> (r: Result<Host, ExtractionError>) {
        match header_string(header_value) {
            Ok(text) => Ok(Host(text)),
            Err(e) => Err(e),
        }
    }
}

impl<S, T: TypedHeader> FromRequestParts<S> for T {
    open spec fn extracts(
        before: Parts,
        state: S,
        after: Parts,
        r: Result<T, ExtractionError>,
    ) -> bool {
        after == before && from_headers::<T>(before.headers.deep_view(), r)
    }

    /// A typed header is had from the headers, and leaves the parts as they
    /// are.
    fn from_request_parts(parts: &mut Parts, state: &S) -> (r: Result<T, ExtractionError>) {
        T::try_from_header_map(&parts.headers)
    }
}

impl<S, T: FromRequestParts<S>> FromRequest<S, ViaParts> for T {
    open spec fn accepts(request: Request, state: S, r: Result<T, ExtractionError>) -> bool {
        exists|after: Parts| #[trigger] T::extracts(crate::request::parts_of(request), state, after, r)
    }

    /// What is had from the parts of a request is had from the request.
    fn from_request(request: Request, state: &S) -> (r: Result<T, ExtractionError>) {
        let (mut parts, _) = request.into_parts();
        let r = T::from_request_parts(&mut parts, state);
        assert(T::extracts(crate::request::parts_of(request), *state, parts, r));
        r
    }
}

/// A type whose values can be decoded from a query string.
pub trait FromQuery: Sized {
    /// What `from_query` may give for a query string. An implementation
    /// that says nothing here promises nothing.
    open spec fn decodes(query: Seq<char>, r: Result<Self, ExtractionError>) -> bool {
        true
    }

    /// Decodes a query string.
    fn from_query(query: &str) -> (r: Result<Self, ExtractionError>)
        ensures
            Self::decodes(query@, r),
    ;
}

/// A type whose values can be decoded from a body that holds JSON.
pub trait FromJson: Sized {
    /// What `from_json` may give for a body. An implementation that says
    /// nothing here promises nothing.
    open spec fn decodes(body: Seq<u8>, r: Result<Self, ExtractionError>) -> bool {
        true
    }

    /// Decodes a body.
    fn from_json(body: &[u8]) -> (r: Result<Self, ExtractionError>)
        ensures
            Self::decodes(body@, r),
    ;
}

/// The value that the query string of the request target decodes into.
#[derive(Debug)]
pub struct Query<T>(pub T);

impl<S, T: FromQuery> FromRequestParts<S> for Query<T> {
    open spec fn extracts(
        before: Parts,
        state: S,
        after: Parts,
        r: Result<Query<T>, ExtractionError>,
    ) -> bool {
        &&& after == before
        &&& match query_of(before.url@) {
            None => r == Err::<Query<T>, ExtractionError>(ExtractionError::NoQuery),
            Some(query) => exists|decoded: Result<T, ExtractionError>|
                {
                    &&& #[trigger] T::decodes(query, decoded)
                    &&& r == match decoded {
                        Ok(value) => Ok::<Query<T>, ExtractionError>(Query(value)),
                        Err(e) => Err(e),
                    }
                },
        }
    }

    /// Decodes what follows the first `?` of the request target; fails
    /// where the target has no `?`.
    fn from_request_parts(parts: &mut Parts, state: &S) -> (r: Result<Query<T>, ExtractionError>) {
        let url = chars_of(parts.url.as_str());
        match find_char(&url, '?') {
            None => Err(ExtractionError::NoQuery),
            Some(at) => {
                let query = string_of(&slice_chars(&url, at + 1, url.len()));
                assert(query@ =~= query_of(parts.url@)->Some_0);
                let decoded = T::from_query(query.as_str());
                assert(T::decodes(query@, decoded));
                match decoded {
                    Ok(value) => Ok(Query(value)),
                    Err(e) => Err(e),
                }
            },
        }
    }
}

/// The value that the body decodes into as JSON.
#[derive(Debug)]
pub struct Json<T>(pub T);

impl<S, T: FromJson> FromRequest<S> for Json<T> {
    open spec fn accepts(request: Request, state: S, r: Result<Json<T>, ExtractionError>) -> bool {
        exists|decoded: Result<T, ExtractionError>|
            {
                &&& #[trigger] T::decodes(request.body@, decoded)
                &&& r == match decoded {
                    Ok(value) => Ok::<Json<T>, ExtractionError>(Json(value)),
                    Err(e) => Err(e),
                }
            }
    }

    /// Decodes the body.
    fn from_request(request: Request, state: &S) -> (r: Result<Json<T>, ExtractionError>) {
        let decoded = T::from_json(request.body.as_slice());
        assert(T::decodes(request.body@, decoded));
        match decoded {
            Ok(value) => Ok(Json(value)),
            Err(e) => Err(e),
        }
    }
}

/// A handle to the state that the router was built with.
#[derive(Debug)]
pub struct State<T>(pub T);

impl<S: Clone> FromRequestParts<S> for State<S> {
    open spec fn extracts(
        before: Parts,
        state: S,
        after: Parts,
        r: Result<State<S>, ExtractionError>,
    ) -> bool {
        after == before && r is Ok && cloned(state, r->Ok_0.0)
    }

    /// A clone of the state; the parts stay as they are.
    fn from_request_parts(parts: &mut Parts, state: &S) -> (r: Result<State<S>, ExtractionError>) {
        Ok(State(state.clone()))
    }
}

/// The headers of a request, in the order in which they came.
#[derive(Debug)]
pub struct Headers(pub Vec<(String, String)>);

impl<S> FromRequestParts<S> for Headers {
    open spec fn extracts(
        before: Parts,
        state: S,
        after: Parts,
        r: Result<Headers, ExtractionError>,
    ) -> bool {
        after == before && r is Ok && r->Ok_0.0.deep_view() == before.headers.deep_view()
    }

    /// A copy of the headers; the parts stay as they are.
    fn from_request_parts(parts: &mut Parts, state: &S) -> (r: Result<Headers, ExtractionError>) {
        let mut copy: Vec<(String, String)> = Vec::new();
        let mut i: usize = 0;
        while i < parts.headers.len()
            invariant
                i <= parts.headers.len(),
                copy.deep_view() == parts.headers.deep_view().take(i as int),
            decreases parts.headers.len() - i,
        {
            let ghost before = copy.deep_view();
            copy.push((parts.headers[i].0.clone(), parts.headers[i].1.clone()));
            assert(copy.deep_view() =~= before.push(parts.headers.deep_view()[i as int]));
            assert(parts.headers.deep_view().take(i + 1) =~= before.push(
                parts.headers.deep_view()[i as int],
            ));
            i += 1;
        }
        assert(parts.headers.deep_view().take(parts.headers.len() as int)
            =~= parts.headers.deep_view());
        Ok(Headers(copy))
    }
}

} // verus!

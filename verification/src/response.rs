//! Responses, the rendering of a handler's result into one, and the bytes
//! that a response is sent as.

use crate::http::status_code;
use crate::http::status_message;
use crate::http::version_text;
use crate::http::ProtocolVersion;
use crate::http::ResponseStatus;
use vstd::prelude::*;
use vstd::string::StrSliceExecFns;
use vstd::utf8::encode_utf8;

verus! {

/// A response: protocol version, status, headers and body.
#[derive(Debug)]
pub struct Response {
    /// The protocol version.
    pub protocol: ProtocolVersion,
    /// The status.
    pub status: ResponseStatus,
    /// The headers, in the order in which they are sent.
    pub headers: Vec<(String, String)>,
    /// The body.
    pub body: Vec<u8>,
}

/// What a response holds, as plain values.
pub struct ResponseModel {
    pub protocol: ProtocolVersion,
    pub status: ResponseStatus,
    pub headers: Seq<(Seq<char>, Seq<char>)>,
    pub body: Seq<u8>,
}

impl View for Response {
    type V = ResponseModel;

    open spec fn view(&self) -> ResponseModel {
        ResponseModel {
            protocol: self.protocol,
            status: self.status,
            headers: self.headers.deep_view(),
            body: self.body@,
        }
    }
}

/// The response with no headers that carries `text` as its body, under
/// HTTP/1.1.
pub open spec fn text_response(status: ResponseStatus, text: Seq<char>) -> ResponseModel {
    ResponseModel {
        protocol: ProtocolVersion::HTTP11,
        status,
        headers: Seq::<(Seq<char>, Seq<char>)>::empty(),
        body: encode_utf8(text),
    }
}

/// The response with status 200, no headers and an empty body, under
/// HTTP/1.1.
pub open spec fn empty_response() -> ResponseModel {
    ResponseModel {
        protocol: ProtocolVersion::HTTP11,
        status: ResponseStatus::OK,
        headers: Seq::<(Seq<char>, Seq<char>)>::empty(),
        body: Seq::<u8>::empty(),
    }
}

impl Default for Response {
    fn default() -> (r: Response)
        ensures
            r@ == empty_response(),
    {
        let r = Response {
            protocol: ProtocolVersion::HTTP11,
            status: ResponseStatus::OK,
            headers: Vec::new(),
            body: Vec::new(),
        };
        assert(r.headers.deep_view() =~= Seq::<(Seq<char>, Seq<char>)>::empty());
        r
    }
}

impl Response {
    /// The response with no headers that carries `text` as its body.
    pub fn text(status: ResponseStatus, text: &str) -> (r: Response)
        ensures
            r@ == text_response(status, text@),
    {
        let r = Response {
            protocol: ProtocolVersion::HTTP11,
            status,
            headers: Vec::new(),
            body: text.as_bytes_vec(),
        };
        assert(r.headers.deep_view() =~= Seq::<(Seq<char>, Seq<char>)>::empty());
        r
    }

    /// Replaces the body by the bytes of `text`.
    pub fn with_body(&mut self, text: &str)
        ensures
            final(self)@ == (ResponseModel { body: encode_utf8(text@), ..old(self)@ }),
    {
        self.body = text.as_bytes_vec();
    }
}

/// The character that writes the digit `d`.
pub open spec fn digit_char(d: nat) -> char {
    if d == 0 {
        '0'
    } else if d == 1 {
        '1'
    } else if d == 2 {
        '2'
    } else if d == 3 {
        '3'
    } else if d == 4 {
        '4'
    } else if d == 5 {
        '5'
    } else if d == 6 {
        '6'
    } else if d == 7 {
        '7'
    } else if d == 8 {
        '8'
    } else {
        '9'
    }
}

/// The digits that write `n` in base ten, with no leading zero.
pub open spec fn digits_of(n: nat) -> Seq<char>
    decreases n,
{
    if n < 10 {
        seq![digit_char(n)]
    } else {
        digits_of(n / 10).push(digit_char(n % 10))
    }
}

/// The text that writes `v` in base ten, with a `-` before it where `v` is
/// negative.
pub open spec fn integer_text(v: int) -> Seq<char> {
    if v < 0 {
        seq!['-'] + digits_of((-v) as nat)
    } else {
        digits_of(v as nat)
    }
}

fn digit_of(d: u128) -> (c: char)
    requires
        d < 10,
    ensures
        c == digit_char(d as nat),
{
    if d == 0 {
        '0'
    } else if d == 1 {
        '1'
    } else if d == 2 {
        '2'
    } else if d == 3 {
        '3'
    } else if d == 4 {
        '4'
    } else if d == 5 {
        '5'
    } else if d == 6 {
        '6'
    } else if d == 7 {
        '7'
    } else if d == 8 {
        '8'
    } else {
        '9'
    }
}

fn push_digits(n: u128, out: &mut String)
    ensures
        final(out)@ == old(out)@ + digits_of(n as nat),
    decreases n,
{
    if n >= 10 {
        push_digits(n / 10, out);
    }
    out.push(digit_of(n % 10));
    assert(out@ =~= old(out)@ + digits_of(n as nat));
}

/// The text that writes `v` in base ten.
pub fn integer_string(v: i64) -> (s: String)
    ensures
        s@ == integer_text(v as int),
{
    let mut s = String::new();
    if v < 0 {
        s.push('-');
        let magnitude: u128 = (-(v as i128)) as u128;
        push_digits(magnitude, &mut s);
    } else {
        push_digits(v as u128, &mut s);
    }
    assert(s@ =~= integer_text(v as int));
    s
}

/// Why a value could not be rendered into a response.
#[derive(Debug)]
pub struct RenderError {
    /// What went wrong, in words.
    pub message: String,
}

/// A value that a handler may return: it can be rendered into a response.
pub trait Responder: Sized {
    /// What `into_response` may give for a value. An implementation that
    /// says nothing here promises nothing.
    open spec fn renders(self, r: Result<Response, RenderError>) -> bool {
        true
    }

    /// Renders the value into a response.
    fn into_response(self) -> (r: Result<Response, RenderError>)
        ensures
            self.renders(r),
    ;
}

/// The response that a rendering ends in: the rendered response, or, where
/// the rendering failed, status 500 with the failure's text as body.
pub open spec fn settled(rendered: Result<Response, RenderError>) -> ResponseModel {
    match rendered {
        Ok(response) => response@,
        Err(e) => text_response(ResponseStatus::InternalServerError, e.message@),
    }
}

/// Turns the outcome of a rendering into the response to send.
pub fn settle(rendered: Result<Response, RenderError>) -> (response: Response)
    ensures
        response@ == settled(rendered),
{
    match rendered {
        Ok(response) => response,
        Err(e) => Response::text(ResponseStatus::InternalServerError, e.message.as_str()),
    }
}

impl Responder for () {
    open spec fn renders(self, r: Result<Response, RenderError>) -> bool {
        r is Ok && r->Ok_0@ == empty_response()
    }

    /// Status 200 and an empty body.
    fn into_response(self) -> (r: Result<Response, RenderError>) {
        Ok(Response::default())
    }
}

impl Responder for Response {
    open spec fn renders(self, r: Result<Response, RenderError>) -> bool {
        r is Ok && r->Ok_0 == self
    }

    /// A response is rendered as itself.
    fn into_response(self) -> (r: Result<Response, RenderError>) {
        Ok(self)
    }
}

impl<'a> Responder for &'a str {
    open spec fn renders(self, r: Result<Response, RenderError>) -> bool {
        r is Ok && r->Ok_0@ == text_response(ResponseStatus::OK, self@)
    }

    /// Status 200 with the text as body.
    fn into_response(self) -> (r: Result<Response, RenderError>) {
        Ok(Response::text(ResponseStatus::OK, self))
    }
}

impl Responder for String {
    open spec fn renders(self, r: Result<Response, RenderError>) -> bool {
        r is Ok && r->Ok_0@ == text_response(ResponseStatus::OK, self@)
    }

    /// Status 200 with the text as body.
    fn into_response(self) -> (r: Result<Response, RenderError>) {
        Ok(Response::text(ResponseStatus::OK, self.as_str()))
    }
}

impl Responder for i32 {
    open spec fn renders(self, r: Result<Response, RenderError>) -> bool {
        r is Ok && r->Ok_0@ == text_response(ResponseStatus::OK, integer_text(self as int))
    }

    /// Status 200 with the number, written in base ten, as body.
    fn into_response(self) -> (r: Result<Response, RenderError>) {
        Ok(Response::text(ResponseStatus::OK, integer_string(self as i64).as_str()))
    }
}

impl Responder for i64 {
    open spec fn renders(self, r: Result<Response, RenderError>) -> bool {
        r is Ok && r->Ok_0@ == text_response(ResponseStatus::OK, integer_text(self as int))
    }

    /// Status 200 with the number, written in base ten, as body.
    fn into_response(self) -> (r: Result<Response, RenderError>) {
        Ok(Response::text(ResponseStatus::OK, integer_string(self).as_str()))
    }
}

impl Responder for u32 {
    open spec fn renders(self, r: Result<Response, RenderError>) -> bool {
        r is Ok && r->Ok_0@ == text_response(ResponseStatus::OK, integer_text(self as int))
    }

    /// Status 200 with the number, written in base ten, as body.
    fn into_response(self) -> (r: Result<Response, RenderError>) {
        Ok(Response::text(ResponseStatus::OK, integer_string(self as i64).as_str()))
    }
}

impl Responder for bool {
    open spec fn renders(self, r: Result<Response, RenderError>) -> bool {
        r is Ok && r->Ok_0@ == text_response(
            ResponseStatus::OK,
            if self {
                "true"@
            } else {
                "false"@
            },
        )
    }

    /// Status 200 with `true` or `false` as body.
    fn into_response(self) -> (r: Result<Response, RenderError>) {
        if self {
            Ok(Response::text(ResponseStatus::OK, "true"))
        } else {
            Ok(Response::text(ResponseStatus::OK, "false"))
        }
    }
}

impl<T: Responder, E: core::fmt::Display> Responder for Result<T, E> {
    open spec fn renders(self, r: Result<Response, RenderError>) -> bool {
        match self {
            Ok(value) => value.renders(r),
            Err(e) => exists|text: String|
                {
                    &&& #[trigger] vstd::string::to_string_from_display_ensures::<E>(&e, text)
                    &&& r is Ok
                    &&& r->Ok_0@ == text_response(ResponseStatus::InternalServerError, text@)
                },
        }
    }

    /// A success is rendered as the value it holds; a failure as status 500
    /// with the failure's text as body.
    fn into_response(self) -> (r: Result<Response, RenderError>) {
        match self {
            Ok(value) => value.into_response(),
            Err(e) => {
                let text = e.to_string();
                Ok(Response::text(ResponseStatus::InternalServerError, text.as_str()))
            },
        }
    }
}

/// `bytes::BytesMut`: a buffer of bytes that grows as bytes are added.
#[verifier::external_type_specification]
#[verifier::external_body]
pub struct ExBytesMut(bytes::BytesMut);

/// The bytes that a buffer holds, in order.
pub uninterp spec fn buffer_bytes(buffer: bytes::BytesMut) -> Seq<u8>;

/// `BytesMut::with_capacity` gives a buffer that holds no bytes, whatever
/// room it was asked to set aside.
pub assume_specification[ bytes::BytesMut::with_capacity ](capacity: usize) -> (buffer:
    bytes::BytesMut)
    requires
        capacity <= 0x7fff_ffff,
    ensures
        buffer_bytes(buffer) == Seq::<u8>::empty(),
;

/// `BytesMut::extend_from_slice` adds the bytes of the slice at the end of
/// the buffer, which grows as needed.
pub assume_specification[ bytes::BytesMut::extend_from_slice ](
    buffer: &mut bytes::BytesMut,
    extend: &[u8],
)
    ensures
        buffer_bytes(*final(buffer)) == buffer_bytes(*old(buffer)) + extend@,
;

/// `BytesMut` as a slice, copied into a vector: the bytes that the buffer
/// holds.
#[verifier::external_body]
fn buffer_to_vec(buffer: &bytes::BytesMut) -> (bytes: Vec<u8>)
    ensures
        bytes@ == buffer_bytes(*buffer),
{
    buffer.to_vec()
}

/// The bytes of the headers: for each, its name, `: `, its value and a line
/// feed.
pub open spec fn header_bytes(headers: Seq<(Seq<char>, Seq<char>)>) -> Seq<u8>
    decreases headers.len(),
{
    if headers.len() == 0 {
        Seq::<u8>::empty()
    } else {
        header_bytes(headers.drop_last()) + encode_utf8(headers.last().0) + encode_utf8(": "@)
            + encode_utf8(headers.last().1) + encode_utf8("\n"@)
    }
}

/// The bytes of the status line: protocol version, status number and status
/// message, with a space between them and a line feed at the end.
pub open spec fn status_line_bytes(protocol: ProtocolVersion, status: ResponseStatus) -> Seq<u8> {
    encode_utf8(version_text(protocol)) + encode_utf8(" "@) + encode_utf8(
        integer_text(status_code(status) as int),
    ) + encode_utf8(" "@) + encode_utf8(status_message(status)) + encode_utf8("\n"@)
}

/// The bytes that a response is sent as: the status line, the headers, and,
/// where the body is not empty, two line feeds and the body.
pub open spec fn wire_bytes(response: ResponseModel) -> Seq<u8> {
    let head = status_line_bytes(response.protocol, response.status) + header_bytes(
        response.headers,
    );
    if response.body.len() == 0 {
        head
    } else {
        head + encode_utf8("\n\n"@) + response.body
    }
}

/// The bytes that a response is sent as.
pub fn response_to_bytes(response: Response) -> (bytes: Vec<u8>)
    ensures
        bytes@ == wire_bytes(response@),
{
    let mut buffer = bytes::BytesMut::with_capacity(8192);
    let (code, message) = response.status.get_code_message();
    buffer.extend_from_slice(response.protocol.to_string().as_str().as_bytes());
    buffer.extend_from_slice(" ".as_bytes());
    buffer.extend_from_slice(integer_string(code as i64).as_str().as_bytes());
    buffer.extend_from_slice(" ".as_bytes());
    buffer.extend_from_slice(message.as_str().as_bytes());
    buffer.extend_from_slice("\n".as_bytes());
    assert(buffer_bytes(buffer) =~= status_line_bytes(response.protocol, response.status));
    let ghost line = buffer_bytes(buffer);
    let ghost all = response.headers.deep_view();
    let mut i: usize = 0;
    assert(buffer_bytes(buffer) =~= line + header_bytes(all.take(0)));
    while i < response.headers.len()
        invariant
            i <= response.headers.len(),
            all == response.headers.deep_view(),
            buffer_bytes(buffer) == line + header_bytes(all.take(i as int)),
        decreases response.headers.len() - i,
    {
        let ghost before = buffer_bytes(buffer);
        buffer.extend_from_slice(response.headers[i].0.as_str().as_bytes());
        buffer.extend_from_slice(": ".as_bytes());
        buffer.extend_from_slice(response.headers[i].1.as_str().as_bytes());
        buffer.extend_from_slice("\n".as_bytes());
        proof {
            assert(all.take(i + 1).drop_last() =~= all.take(i as int));
            assert(all.take(i + 1).last() == all[i as int]);
            assert(buffer_bytes(buffer) =~= line + header_bytes(all.take(i + 1)));
        }
        i += 1;
    }
    assert(all.take(response.headers.len() as int) =~= all);
    if response.body.len() > 0 {
        buffer.extend_from_slice("\n\n".as_bytes());
        buffer.extend_from_slice(response.body.as_slice());
    }
    buffer_to_vec(&buffer)
}

} // verus!

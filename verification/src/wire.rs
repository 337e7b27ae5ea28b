//! Requests as they come over the wire: the head is read by `httparse`, and
//! a request is put together from what it found.

use crate::http::method_named;
use crate::http::Method;
use crate::http::ProtocolVersion;
use crate::request::path_of;
use crate::request::path_segments;
use crate::request::Request;
use crate::text::chars_of;
use crate::text::string_of;
use vstd::prelude::*;

verus! {

/// `httparse::Error`: why bytes are not the head of a request.
#[verifier::external_type_specification]
#[verifier::external_body]
pub struct ExHeadError(httparse::Error);

/// What the head of a request holds: the method, the target, the minor
/// version of the protocol, the headers, and the place where the body
/// starts.
#[derive(Debug)]
pub struct Head {
    /// The method, as it was sent, where one was read.
    pub method: Option<String>,
    /// The request target, where one was read.
    pub path: Option<String>,
    /// 0 for HTTP/1.0 and 1 for HTTP/1.1, where a version was read.
    pub version: Option<u8>,
    /// The names and the values of the headers, in their order.
    pub headers: Vec<(String, Vec<u8>)>,
    /// The offset of the first byte after the head.
    pub body_start: usize,
}

/// What a head holds, as plain values.
pub open spec fn head_view(head: Head) -> (
    Option<Seq<char>>,
    Option<Seq<char>>,
    Option<u8>,
    Seq<(Seq<char>, Seq<u8>)>,
    usize,
) {
    (
        text_view(head.method),
        text_view(head.path),
        head.version,
        head.headers.deep_view(),
        head.body_start,
    )
}

/// The view of a text that may be absent.
pub open spec fn text_view(text: Option<String>) -> Option<Seq<char>> {
    match text {
        Some(t) => Some(t@),
        None => None,
    }
}

/// What `httparse` makes of bytes, with room for `limit` headers: nothing
/// where they are not the head of a request, `Some(None)` where they are the
/// start of one that is not complete, and else what the head holds.
pub uninterp spec fn httparse_head(bytes: Seq<u8>, limit: usize) -> Option<
    Option<(Option<Seq<char>>, Option<Seq<char>>, Option<u8>, Seq<(Seq<char>, Seq<u8>)>, usize)>,
>;

/// `httparse::Request::parse`, on a request with room for `limit` headers.
/// The result is the one that `httparse_head` names; the offset that a
/// complete head ends at lies within the bytes.
#[verifier::external_body]
fn read_head(bytes: &[u8], limit: usize) -> (r: Result<Option<Head>, httparse::Error>)
    requires
        limit <= 1024,
    ensures
        match r {
            Ok(Some(head)) => httparse_head(bytes@, limit) == Some(Some(head_view(head)))
                && head.body_start <= bytes@.len(),
            Ok(None) => httparse_head(bytes@, limit) == Some(
                None::<(Option<Seq<char>>, Option<Seq<char>>, Option<u8>, Seq<(Seq<char>, Seq<u8>)>, usize)>,
            ),
            Err(_) => httparse_head(bytes@, limit) is None,
        },
{
    let mut headers = vec![httparse::EMPTY_HEADER; limit];
    let mut req = httparse::Request::new(&mut headers);
    match req.parse(bytes)? {
        httparse::Status::Partial => Ok(None),
        httparse::Status::Complete(body_start) => Ok(Some(Head {
            method: req.method.map(|m| m.to_string()),
            path: req.path.map(|p| p.to_string()),
            version: req.version,
            headers: req.headers.iter().map(|h| (h.name.to_string(), h.value.to_vec())).collect(),
            body_start,
        })),
    }
}

/// Why bytes are not taken for a request.
#[derive(PartialEq, Eq, Clone, Copy, Debug, Structural)]
pub enum WireError {
    /// The bytes are not the head of a request, or the head lacks a method,
    /// a target or a version.
    Malformed,
    /// The bytes are the start of a head that is not complete.
    Incomplete,
    /// The head names a method that routes cannot be registered for.
    InvalidMethod,
}

/// The text whose characters have the bytes for their numbers.
pub open spec fn bytes_as_text(bytes: Seq<u8>) -> Seq<char> {
    Seq::new(bytes.len(), |i: int| bytes[i] as char)
}

/// The headers with each value turned into text, byte by byte.
pub open spec fn header_texts(headers: Seq<(Seq<char>, Seq<u8>)>) -> Seq<(Seq<char>, Seq<char>)> {
    Seq::new(headers.len(), |i: int| (headers[i].0, bytes_as_text(headers[i].1)))
}

/// The protocol version that a minor version stands for.
pub open spec fn version_of(minor: u8) -> ProtocolVersion {
    if minor == 0 {
        ProtocolVersion::HTTP10
    } else {
        ProtocolVersion::HTTP11
    }
}

/// Whether `r` is what a head and the bytes it was read from make: a request
/// with the method, target, version and headers of the head, and with the
/// bytes after the head for its body; or the error that says that the head
/// lacks a part, or that its method is not known.
pub open spec fn assembled(
    head: (Option<Seq<char>>, Option<Seq<char>>, Option<u8>, Seq<(Seq<char>, Seq<u8>)>, usize),
    bytes: Seq<u8>,
    r: Result<Request, WireError>,
) -> bool {
    if head.0 is None || head.1 is None || head.2 is None {
        r is Err && r->Err_0 == WireError::Malformed
    } else {
        match method_named(head.0->Some_0) {
            None => r is Err && r->Err_0 == WireError::InvalidMethod,
            Some(method) => {
                &&& r is Ok
                &&& r->Ok_0.method == method
                &&& r->Ok_0.url@ == head.1->Some_0
                &&& r->Ok_0.version == version_of(head.2->Some_0)
                &&& r->Ok_0.headers.deep_view() == header_texts(head.3)
                &&& r->Ok_0.body@ == if head.4 <= bytes.len() {
                    bytes.skip(head.4 as int)
                } else {
                    Seq::<u8>::empty()
                }
                &&& r->Ok_0.segments() == path_segments(path_of(head.1->Some_0))
                &&& r->Ok_0.param_names().len() == 0
                &&& r->Ok_0.cursor is None
            },
        }
    }
}

fn text_of_bytes(bytes: &Vec<u8>) -> (text: String)
    ensures
        text@ == bytes_as_text(bytes@),
{
    let mut chars: Vec<char> = Vec::new();
    let mut i: usize = 0;
    while i < bytes.len()
        invariant
            i <= bytes.len(),
            chars@ == bytes_as_text(bytes@).take(i as int),
        decreases bytes.len() - i,
    {
        chars.push(bytes[i] as char);
        assert(chars@ =~= bytes_as_text(bytes@).take(i + 1));
        i += 1;
    }
    assert(bytes_as_text(bytes@).take(bytes.len() as int) =~= bytes_as_text(bytes@));
    string_of(&chars)
}

/// Puts a request together from a head and the bytes it was read from.
pub fn request_from_head(head: Head, bytes: &[u8]) -> (r: Result<Request, WireError>)
    ensures
        assembled(head_view(head), bytes@, r),
{
    let (name, path, minor) = match (&head.method, &head.path, head.version) {
        (Some(name), Some(path), Some(minor)) => (name, path, minor),
        _ => {
            return Err(WireError::Malformed);
        },
    };
    let method = match Method::from_chars(&chars_of(name.as_str())) {
        Ok(method) => method,
        Err(_) => {
            return Err(WireError::InvalidMethod);
        },
    };
    let mut request = Request::new(method, path.as_str());
    if minor == 0 {
        request.version = ProtocolVersion::HTTP10;
    }
    let ghost all = header_texts(head.headers.deep_view());
    let mut headers: Vec<(String, String)> = Vec::new();
    let mut i: usize = 0;
    assert(headers.deep_view() =~= all.take(0));
    while i < head.headers.len()
        invariant
            i <= head.headers.len(),
            all == header_texts(head.headers.deep_view()),
            headers.deep_view() == all.take(i as int),
        decreases head.headers.len() - i,
    {
        let ghost before = headers.deep_view();
        headers.push((head.headers[i].0.clone(), text_of_bytes(&head.headers[i].1)));
        proof {
            let value = head.headers@[i as int].1;
            assert(value.deep_view() =~= value@);
            assert(head.headers.deep_view()[i as int] == (head.headers@[i as int].0@, value@));
        }
        assert(headers.deep_view() =~= before.push(all[i as int]));
        assert(all.take(i + 1) =~= before.push(all[i as int]));
        i += 1;
    }
    assert(all.take(head.headers.len() as int) =~= all);
    request.headers = headers;
    let mut body: Vec<u8> = Vec::new();
    if head.body_start <= bytes.len() {
        let mut j: usize = head.body_start;
        while j < bytes.len()
            invariant
                head.body_start <= j <= bytes.len(),
                body@ == bytes@.subrange(head.body_start as int, j as int),
            decreases bytes.len() - j,
        {
            body.push(bytes[j]);
            assert(body@ =~= bytes@.subrange(head.body_start as int, j + 1));
            j += 1;
        }
        assert(bytes@.subrange(head.body_start as int, bytes.len() as int) =~= bytes@.skip(
            head.body_start as int,
        ));
    }
    request.body = body;
    Ok(request)
}

/// Reads a request from the bytes that came over the wire, with room for 64
/// headers.
pub fn parse_request(bytes: &[u8]) -> (r: Result<Request, WireError>)
    ensures
        match httparse_head(bytes@, 64) {
            None => r is Err && r->Err_0 == WireError::Malformed,
            Some(None) => r is Err && r->Err_0 == WireError::Incomplete,
            Some(Some(head)) => assembled(head, bytes@, r),
        },
{
    match read_head(bytes, 64) {
        Err(_) => Err(WireError::Malformed),
        Ok(None) => Err(WireError::Incomplete),
        Ok(Some(head)) => request_from_head(head, bytes),
    }
}

} // verus!

//! Requests: their parts, the parser of their text form, and the lookup of
//! path parameters by name.

use crate::http::method_named;
use crate::http::version_named;
use crate::http::HttpError;
use crate::http::Method;
use crate::http::ProtocolVersion;
use crate::param::FromParam;
use crate::param::ParamError;
use crate::text::chars_of;
use crate::text::find_char;
use crate::text::position_of;
use crate::text::same_chars;
use crate::text::slice_chars;
use crate::text::split_chars;
use crate::text::split_lines;
use crate::text::split_lines_chars;
use crate::text::split_on;
use crate::text::string_of;
use crate::text::trim;
use crate::text::trim_chars;
use crate::text::views_of;
use vstd::prelude::*;
use vstd::string::StrSliceExecFns;
use vstd::utf8::encode_utf8;

verus! {

/// The place of the first pair of `list` whose first part is `key`, or the
/// length of `list` where there is none.
pub open spec fn key_position<K, V>(list: Seq<(K, V)>, key: K) -> int
    decreases list.len(),
{
    if list.len() == 0 || list.first().0 == key {
        0
    } else {
        1 + key_position(list.drop_first(), key)
    }
}

/// The second part of the first pair of `list` whose first part is `key`.
pub open spec fn lookup<K, V>(list: Seq<(K, V)>, key: K) -> Option<V> {
    let at = key_position(list, key);
    if at < list.len() {
        Some(list[at].1)
    } else {
        None
    }
}

/// `key_position` is the first place that holds `key`, and the length where
/// there is none.
pub proof fn lemma_key_position<K, V>(list: Seq<(K, V)>, key: K, n: int)
    requires
        0 <= n <= list.len(),
        forall|k: int| 0 <= k < n ==> list[k].0 != key,
        n < list.len() ==> list[n].0 == key,
    ensures
        key_position(list, key) == n,
    decreases n,
{
    if n > 0 {
        lemma_key_position(list.drop_first(), key, n - 1);
    }
}

/// The segments of a path: its pieces between `/`, what stands before the
/// first `/` set aside.
pub open spec fn path_segments(path: Seq<char>) -> Seq<Seq<char>> {
    split_on(path, '/').skip(1)
}

/// The path of a request target: the target up to its first `?`.
pub open spec fn path_of(url: Seq<char>) -> Seq<char> {
    url.take(position_of(url, '?'))
}

/// The query string of a request target: what follows its first `?`, if it
/// has one.
pub open spec fn query_of(url: Seq<char>) -> Option<Seq<char>> {
    if position_of(url, '?') < url.len() {
        Some(url.skip(position_of(url, '?') + 1))
    } else {
        None
    }
}

/// The place of `key` in a list of names bound to places.
fn find_segment(list: &Vec<(String, u8)>, key: &Vec<char>) -> (at: usize)
    ensures
        at == key_position(list.deep_view(), key@),
        at <= list.len(),
{
    let mut i: usize = 0;
    while i < list.len()
        invariant
            i <= list.len(),
            forall|k: int| 0 <= k < i ==> list.deep_view()[k].0 != key@,
        decreases list.len() - i,
    {
        let name = chars_of(list[i].0.as_str());
        if same_chars(&name, key) {
            proof {
                assert(list.deep_view()[i as int].0 == key@);
                lemma_key_position(list.deep_view(), key@, i as int);
            }
            return i;
        }
        assert(list.deep_view()[i as int].0 != key@);
        i += 1;
    }
    proof {
        lemma_key_position(list.deep_view(), key@, list.len() as int);
    }
    i
}

/// Splits a path at `/`, sets aside what stands before the first `/`, and
/// gives the segments in their order, so that each stands at its place.
pub fn parse_segments(path: String) -> (r: Result<Vec<String>, ParamError>)
    ensures
        r is Ok,
        r->Ok_0.deep_view() == path_segments(path@),
{
    let pieces = split_chars(&chars_of(path.as_str()), '/');
    proof {
        crate::text::lemma_split_len(path@, '/');
    }
    let ghost rest = path_segments(path@);
    let mut segments: Vec<String> = Vec::new();
    let mut i: usize = 1;
    assert(segments.deep_view() =~= rest.take(0));
    while i < pieces.len()
        invariant
            1 <= i <= pieces.len(),
            views_of(pieces@) == split_on(path@, '/'),
            rest == path_segments(path@),
            segments.deep_view() == rest.take(i - 1),
        decreases pieces.len() - i,
    {
        let ghost before = segments.deep_view();
        segments.push(string_of(&pieces[i]));
        assert(views_of(pieces@)[i as int] == pieces@[i as int]@);
        assert(segments.deep_view() =~= before.push(rest[i - 1]));
        assert(rest.take(i as int) =~= before.push(rest[i - 1]));
        i += 1;
    }
    assert(rest.take(pieces.len() - 1) =~= rest);
    Ok(segments)
}

/// The path of a request target, and the segments of that path.
pub fn path_and_segments(url: &str) -> (r: (String, Vec<String>))
    ensures
        r.0@ == path_of(url@),
        r.1.deep_view() == path_segments(path_of(url@)),
{
    let chars = chars_of(url);
    let end = match find_char(&chars, '?') {
        Some(at) => at,
        None => chars.len(),
    };
    let path = string_of(&slice_chars(&chars, 0, end));
    assert(path@ =~= path_of(url@));
    let segments = match parse_segments(path.clone()) {
        Ok(segments) => segments,
        Err(_) => Vec::new(),
    };
    (path, segments)
}

/// What a request remembers of its path: the segments of the path, and the
/// names that the route gave to places in it.
#[derive(Debug)]
pub struct RequestMetadata {
    /// `/test/hello/world` gives `test`, `hello`, `world`.
    pub segments: Vec<String>,
    /// `/test/<param1>/<param2>` gives `param1`: 1, `param2`: 2.
    pub params_segments: Vec<(String, u8)>,
}

impl RequestMetadata {
    /// No segments and no names.
    pub fn empty() -> (meta: RequestMetadata)
        ensures
            meta.segments.deep_view() == Seq::<Seq<char>>::empty(),
            meta.params_segments.deep_view() == Seq::<(Seq<char>, u8)>::empty(),
    {
        let meta = RequestMetadata { segments: Vec::new(), params_segments: Vec::new() };
        assert(meta.segments.deep_view() =~= Seq::<Seq<char>>::empty());
        assert(meta.params_segments.deep_view() =~= Seq::<(Seq<char>, u8)>::empty());
        meta
    }

    /// The segments of the path of the request target `s`, and no names.
    pub fn from_url(s: &str) -> (r: Result<RequestMetadata, ParamError>)
        ensures
            r is Ok,
            r->Ok_0.segments.deep_view() == path_segments(path_of(s@)),
            r->Ok_0.params_segments.deep_view() == Seq::<(Seq<char>, u8)>::empty(),
    {
        let (_, segments) = path_and_segments(s);
        let meta = RequestMetadata { segments, params_segments: Vec::new() };
        assert(meta.params_segments.deep_view() =~= Seq::<(Seq<char>, u8)>::empty());
        Ok(meta)
    }
}

/// The pieces written one after another.
pub open spec fn concat(pieces: Seq<Seq<char>>) -> Seq<char>
    decreases pieces.len(),
{
    if pieces.len() == 0 {
        Seq::<char>::empty()
    } else {
        concat(pieces.drop_last()) + pieces.last()
    }
}

/// Whether a line is a header: it is not empty and holds a `:`.
pub open spec fn is_header_line(line: Seq<char>) -> bool {
    line.len() > 0 && position_of(line, ':') < line.len()
}

/// The first place at or after `from` whose line is no header, or the number
/// of lines where every line from `from` on is one.
pub open spec fn headers_end(lines: Seq<Seq<char>>, from: int) -> int
    decreases lines.len() - from,
{
    if from >= lines.len() {
        lines.len() as int
    } else if !is_header_line(lines[from]) {
        from
    } else {
        headers_end(lines, from + 1)
    }
}

/// The first place at or after `from` whose line is empty, or the number of
/// lines where none is.
pub open spec fn blank_line(lines: Seq<Seq<char>>, from: int) -> int
    decreases lines.len() - from,
{
    if from >= lines.len() {
        lines.len() as int
    } else if lines[from].len() == 0 {
        from
    } else {
        blank_line(lines, from + 1)
    }
}

/// The name and the value of a header line: what stands before its first `:`
/// and what stands after it, each trimmed.
pub open spec fn header_of(line: Seq<char>) -> (Seq<char>, Seq<char>) {
    let at = position_of(line, ':');
    (trim(line.take(at)), trim(line.skip(at + 1)))
}

/// The words of the request line: the first line, split at each space.
pub open spec fn request_words(s: Seq<char>) -> Seq<Seq<char>> {
    split_on(split_lines(s)[0], ' ')
}

/// The request target: the second word of the request line, trimmed, or the
/// empty text where the line has one word only.
pub open spec fn parsed_url(s: Seq<char>) -> Seq<char> {
    if request_words(s).len() > 1 {
        trim(request_words(s)[1])
    } else {
        Seq::<char>::empty()
    }
}

/// The protocol version: the one that the third word of the request line
/// names, if it names one, and HTTP/1.1 where the line has no third word.
pub open spec fn parsed_version(s: Seq<char>) -> Option<ProtocolVersion> {
    if request_words(s).len() > 2 {
        version_named(request_words(s)[2])
    } else {
        Some(ProtocolVersion::HTTP11)
    }
}

/// The headers: the lines after the request line, up to the first that is
/// empty or holds no `:`, in their order.
pub open spec fn parsed_headers(s: Seq<char>) -> Seq<(Seq<char>, Seq<char>)> {
    let lines = split_lines(s);
    Seq::new((headers_end(lines, 1) - 1) as nat, |i: int| header_of(lines[i + 1]))
}

/// The text of the body: the lines after the one that ends the headers, up
/// to the first empty one, written one after another.
pub open spec fn parsed_body(s: Seq<char>) -> Seq<char> {
    let lines = split_lines(s);
    let start = headers_end(lines, 1) + 1;
    if start >= lines.len() {
        Seq::<char>::empty()
    } else {
        concat(lines.subrange(start, blank_line(lines, start)))
    }
}

/// Why the text of a request is refused, if it is: its first word names no
/// method, or its third word names no protocol version.
pub open spec fn parse_failure(s: Seq<char>) -> Option<HttpError> {
    if method_named(request_words(s)[0]) is None {
        Some(HttpError::InvalidMethod)
    } else if parsed_version(s) is None {
        Some(HttpError::InvalidProtocolVersion)
    } else {
        None
    }
}

/// What the extraction of path parameters goes by while one request is
/// dispatched: the segments of the request's path, the offset of the segment
/// of each placeholder of the matched pattern, and the ordinal of the next
/// placeholder to bind.
#[derive(Debug)]
pub struct ExtractionCursor {
    /// The segments of the path after its first `/`, in order.
    pub segments: Vec<String>,
    /// For each placeholder of the pattern, in order, the offset of its
    /// segment.
    pub offsets: Vec<usize>,
    /// The ordinal of the next placeholder to bind.
    pub next_ordinal: usize,
}

/// What a cursor holds, as plain values.
pub struct CursorModel {
    pub segments: Seq<Seq<char>>,
    pub offsets: Seq<usize>,
    pub next_ordinal: usize,
}

impl View for ExtractionCursor {
    type V = CursorModel;

    open spec fn view(&self) -> CursorModel {
        CursorModel {
            segments: self.segments.deep_view(),
            offsets: self.offsets@,
            next_ordinal: self.next_ordinal,
        }
    }
}

/// The view of a cursor that may be absent.
pub open spec fn cursor_view(cursor: Option<ExtractionCursor>) -> Option<CursorModel> {
    match cursor {
        Some(c) => Some(c@),
        None => None,
    }
}

impl ExtractionCursor {
    /// A cursor that has bound no placeholder yet.
    pub fn new(segments: Vec<String>, offsets: Vec<usize>) -> (cursor: ExtractionCursor)
        ensures
            cursor@ == (CursorModel {
                segments: segments.deep_view(),
                offsets: offsets@,
                next_ordinal: 0,
            }),
    {
        ExtractionCursor { segments, offsets, next_ordinal: 0 }
    }
}

/// What a request holds besides its body, as plain values.
pub struct PartsModel {
    pub method: Method,
    pub url: Seq<char>,
    pub version: ProtocolVersion,
    pub headers: Seq<(Seq<char>, Seq<char>)>,
    pub segments: Seq<Seq<char>>,
    pub params: Seq<(Seq<char>, u8)>,
    pub cursor: Option<CursorModel>,
}

/// What a request holds, as plain values.
pub struct RequestModel {
    pub parts: PartsModel,
    pub body: Seq<u8>,
}

/// A request without its body.
#[derive(Debug)]
pub struct Parts {
    /// The method, such as GET.
    pub method: Method,
    /// The request target.
    pub url: String,
    /// The protocol version.
    pub version: ProtocolVersion,
    /// The headers, in the order in which they came.
    pub headers: Vec<(String, String)>,
    /// What the request remembers of its path.
    pub metadata: RequestMetadata,
    /// The cursor of the dispatch under way, if one is.
    pub cursor: Option<ExtractionCursor>,
}

impl View for Parts {
    type V = PartsModel;

    open spec fn view(&self) -> PartsModel {
        PartsModel {
            method: self.method,
            url: self.url@,
            version: self.version,
            headers: self.headers.deep_view(),
            segments: self.metadata.segments.deep_view(),
            params: self.metadata.params_segments.deep_view(),
            cursor: cursor_view(self.cursor),
        }
    }
}

/// A request: method, target, protocol version, headers and body.
#[derive(Debug)]
pub struct Request {
    /// The method, such as GET.
    pub method: Method,
    /// The request target: a path, and a query string after a `?` where
    /// there is one.
    pub url: String,
    /// The protocol version.
    pub version: ProtocolVersion,
    /// The headers, in the order in which they came.
    pub headers: Vec<(String, String)>,
    /// The body.
    pub body: Vec<u8>,
    /// What the request remembers of its path.
    pub metadata: RequestMetadata,
    /// The cursor of the dispatch under way, if one is.
    pub cursor: Option<ExtractionCursor>,
}

impl View for Request {
    type V = RequestModel;

    open spec fn view(&self) -> RequestModel {
        RequestModel {
            parts: PartsModel {
                method: self.method,
                url: self.url@,
                version: self.version,
                headers: self.headers.deep_view(),
                segments: self.metadata.segments.deep_view(),
                params: self.metadata.params_segments.deep_view(),
                cursor: cursor_view(self.cursor),
            },
            body: self.body@,
        }
    }
}

/// The request without its body.
pub open spec fn parts_of(request: Request) -> Parts {
    Parts {
        method: request.method,
        url: request.url,
        version: request.version,
        headers: request.headers,
        metadata: request.metadata,
        cursor: request.cursor,
    }
}

/// The request made of parts and a body.
pub open spec fn joined(parts: Parts, body: Vec<u8>) -> Request {
    Request {
        method: parts.method,
        url: parts.url,
        version: parts.version,
        headers: parts.headers,
        metadata: parts.metadata,
        cursor: parts.cursor,
        body,
    }
}

impl Request {
    /// Parts the request into its body and the rest.
    pub fn into_parts(self) -> (r: (Parts, Vec<u8>))
        ensures
            r.0 == parts_of(self),
            r.1 == self.body,
    {
        (
            Parts {
                method: self.method,
                url: self.url,
                version: self.version,
                headers: self.headers,
                metadata: self.metadata,
                cursor: self.cursor,
            },
            self.body,
        )
    }

    /// Puts a request together from its body and the rest.
    pub fn from_parts(parts: Parts, body: Vec<u8>) -> (request: Request)
        ensures
            request == joined(parts, body),
    {
        Request {
            method: parts.method,
            url: parts.url,
            version: parts.version,
            headers: parts.headers,
            metadata: parts.metadata,
            cursor: parts.cursor,
            body,
        }
    }

    /// The segments of the path that the request was made with, in order.
    pub open spec fn segments(&self) -> Seq<Seq<char>> {
        self.metadata.segments.deep_view()
    }

    /// The names that were given to places of the path.
    pub open spec fn param_names(&self) -> Seq<(Seq<char>, u8)> {
        self.metadata.params_segments.deep_view()
    }

    /// A request for `url` with no headers, an empty body and HTTP/1.1.
    pub fn new(method: Method, url: &str) -> (req: Request)
        ensures
            req.method == method,
            req.url@ == url@,
            req.version == ProtocolVersion::HTTP11,
            req.headers@.len() == 0,
            req.body@.len() == 0,
            req.segments() == path_segments(path_of(url@)),
            req.param_names() == Seq::<(Seq<char>, u8)>::empty(),
            req.cursor is None,
    {
        let metadata = match RequestMetadata::from_url(url) {
            Ok(metadata) => metadata,
            Err(_) => RequestMetadata::empty(),
        };
        Request {
            method,
            url: url.to_owned(),
            version: ProtocolVersion::HTTP11,
            headers: Vec::new(),
            body: Vec::new(),
            metadata,
            cursor: None,
        }
    }

    /// Reads the text of a request: a request line, header lines, and a body,
    /// with lines ended by a carriage return and a line feed.
    pub fn parse(s: String) -> (r: Result<Request, HttpError>)
        ensures
            match r {
                Ok(req) => {
                    &&& parse_failure(s@) is None
                    &&& method_named(request_words(s@)[0]) == Some(req.method)
                    &&& req.url@ == parsed_url(s@)
                    &&& parsed_version(s@) == Some(req.version)
                    &&& req.headers.deep_view() == parsed_headers(s@)
                    &&& req.body@ == encode_utf8(parsed_body(s@))
                    &&& req.segments() == if request_words(s@).len() > 1 {
                        path_segments(path_of(parsed_url(s@)))
                    } else {
                        Seq::<Seq<char>>::empty()
                    }
                    &&& req.param_names() == Seq::<(Seq<char>, u8)>::empty()
                    &&& req.cursor is None
                },
                Err(e) => parse_failure(s@) == Some(e),
            },
    {
        let chars = chars_of(s.as_str());
        let lines = split_lines_chars(&chars);
        proof {
            crate::text::lemma_split_lines_len(s@);
            crate::text::lemma_split_len(split_lines(s@)[0], ' ');
        }
        let ghost all = split_lines(s@);
        let words = split_chars(&lines[0], ' ');
        assert(views_of(words@) == request_words(s@));
        assert(views_of(words@)[0] == words@[0]@);
        let method = match Method::from_chars(&words[0]) {
            Ok(method) => method,
            Err(e) => {
                return Err(e);
            },
        };
        let mut url = String::new();
        let mut version = ProtocolVersion::HTTP11;
        let mut metadata = RequestMetadata::empty();
        if words.len() > 1 {
            assert(views_of(words@)[1] == words@[1]@);
            url = string_of(&trim_chars(&words[1]));
            metadata = match RequestMetadata::from_url(url.as_str()) {
                Ok(metadata) => metadata,
                Err(_) => RequestMetadata::empty(),
            };
            if words.len() > 2 {
                assert(views_of(words@)[2] == words@[2]@);
                version = match ProtocolVersion::from_chars(&words[2]) {
                    Ok(version) => version,
                    Err(e) => {
                        return Err(e);
                    },
                };
            }
        }
        let mut headers: Vec<(String, String)> = Vec::new();
        let mut i: usize = 1;
        let mut going = true;
        assert(headers.deep_view() =~= Seq::new(0, |k: int| header_of(all[k + 1])));
        while going && i < lines.len()
            invariant
                1 <= i <= lines.len(),
                views_of(lines@) == all,
                headers_end(all, 1) == headers_end(all, i as int),
                !going ==> i < lines.len() && !is_header_line(all[i as int]),
                headers.deep_view() == Seq::new((i - 1) as nat, |k: int| header_of(all[k + 1])),
            decreases lines.len() - i + if going { 1nat } else { 0nat },
        {
            let line = &lines[i];
            assert(all[i as int] == line@);
            let colon = if line.len() == 0 {
                None
            } else {
                find_char(line, ':')
            };
            match colon {
                Some(at) => {
                    let ghost before = headers.deep_view();
                    let name = string_of(&trim_chars(&slice_chars(line, 0, at)));
                    let value = string_of(&trim_chars(&slice_chars(line, at + 1, line.len())));
                    proof {
                        assert(line@.subrange(0, at as int) =~= line@.take(at as int));
                        assert(line@.subrange(at + 1, line.len() as int) =~= line@.skip(at + 1));
                    }
                    headers.push((name, value));
                    assert(headers.deep_view() =~= before.push(header_of(line@)));
                    assert(before.push(header_of(line@)) =~= Seq::new(
                        i as nat,
                        |k: int| header_of(all[k + 1]),
                    ));
                    i += 1;
                },
                None => {
                    going = false;
                },
            }
        }
        let ghost end = headers_end(all, 1);
        assert(end == i);
        let mut text: Vec<char> = Vec::new();
        if i < lines.len() {
            let start: usize = i + 1;
            let mut j: usize = start;
            assert(text@ =~= concat(all.subrange(start as int, j as int)));
            while j < lines.len() && lines[j].len() > 0
                invariant
                    start <= j <= lines.len(),
                    views_of(lines@) == all,
                    blank_line(all, start as int) == blank_line(all, j as int),
                    text@ == concat(all.subrange(start as int, j as int)),
                decreases lines.len() - j,
            {
                let line = &lines[j];
                assert(all[j as int] == line@);
                let ghost before = text@;
                let mut k: usize = 0;
                while k < line.len()
                    invariant
                        k <= line.len(),
                        text@ == before + line@.take(k as int),
                    decreases line.len() - k,
                {
                    text.push(line[k]);
                    assert(line@.take(k + 1) =~= line@.take(k as int).push(line@[k as int]));
                    k += 1;
                }
                proof {
                    assert(line@.take(line.len() as int) =~= line@);
                    assert(all.subrange(start as int, j + 1).drop_last() =~= all.subrange(
                        start as int,
                        j as int,
                    ));
                }
                j += 1;
            }
        }
        let body = string_of(&text).as_str().as_bytes_vec();
        Ok(Request { method, url, version, headers, body, metadata, cursor: None })
    }

    /// Gives names to places of the path, for `query` to find them by.
    pub fn inject_params_seqments(&mut self, params_segments: Vec<(String, u8)>)
        ensures
            final(self).param_names() == params_segments.deep_view(),
            final(self).segments() == old(self).segments(),
            final(self).method == old(self).method,
            final(self).url == old(self).url,
            final(self).version == old(self).version,
            final(self).headers == old(self).headers,
            final(self).body == old(self).body,
            final(self).cursor == old(self).cursor,
    {
        self.metadata.params_segments = params_segments;
    }

    /// The value of the path parameter that the route named `query_param`:
    /// the name gives a place, the place gives the segment of the path that
    /// stands there, and the segment is read as a value of the type asked
    /// for.
    pub fn query<F: FromParam>(&self, query_param: &str) -> (r: Result<F::Inner, ParamError>)
        ensures
            match lookup(self.param_names(), query_param@) {
                None => r == Err::<F::Inner, ParamError>(ParamError::UnknownParam),
                Some(place) => if place < self.segments().len() {
                    F::reads(self.segments()[place as int], r)
                } else {
                    r == Err::<F::Inner, ParamError>(ParamError::MissingSegment)
                },
            },
    {
        let name = chars_of(query_param);
        let at = find_segment(&self.metadata.params_segments, &name);
        if at >= self.metadata.params_segments.len() {
            return Err(ParamError::UnknownParam);
        }
        let place: usize = self.metadata.params_segments[at].1 as usize;
        if place >= self.metadata.segments.len() {
            return Err(ParamError::MissingSegment);
        }
        F::from_param(self.metadata.segments[place].clone())
    }
}

} // verus!

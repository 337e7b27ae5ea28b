//! The vocabulary of HTTP messages: protocol versions, request methods and
//! response statuses.

use crate::text::chars_of;
use crate::text::same_chars;
use crate::text::trim;
use crate::text::trim_chars;
use vstd::prelude::*;

verus! {

/// The HTTP protocol versions that a message can name.
#[derive(PartialEq, Eq, Clone, Copy, Debug, Hash, Structural)]
pub enum ProtocolVersion {
    HTTP10,
    HTTP11,
    HTTP2,
    HTTP3,
}

/// The request methods that routes can be registered for.
#[derive(PartialEq, Eq, Clone, Copy, Debug, Hash, Structural)]
pub enum Method {
    /// Requests a representation of a resource.
    Get,
    /// Sends data to the server.
    Post,
    /// Creates a resource or replaces it.
    Put,
    /// Deletes a resource.
    Delete,
}

/// The statuses that a response can carry.
#[derive(PartialEq, Eq, Clone, Copy, Debug, Structural)]
pub enum ResponseStatus {
    /// 200
    OK,
    /// 201
    Created,
    /// 400
    BadRequest,
    /// 403
    Forbidden,
    /// 404
    NotFound,
    /// 405
    MethodNotAllowed,
    /// 500
    InternalServerError,
}

/// Why a text names no method or no protocol version.
#[derive(PartialEq, Eq, Clone, Copy, Debug, Structural)]
pub enum HttpError {
    /// The text is none of `GET`, `POST`, `PUT`, `DELETE`.
    InvalidMethod,
    /// The text, trimmed, is none of `HTTP/1.0`, `HTTP/1.1`, `HTTP/2.0`,
    /// `HTTP/3.0`.
    InvalidProtocolVersion,
}

/// The text that names a protocol version.
pub open spec fn version_text(version: ProtocolVersion) -> Seq<char> {
    match version {
        ProtocolVersion::HTTP10 => "HTTP/1.0"@,
        ProtocolVersion::HTTP11 => "HTTP/1.1"@,
        ProtocolVersion::HTTP2 => "HTTP/2.0"@,
        ProtocolVersion::HTTP3 => "HTTP/3.0"@,
    }
}

/// The protocol version that `text` names once trimmed, if any.
pub open spec fn version_named(text: Seq<char>) -> Option<ProtocolVersion> {
    let t = trim(text);
    if t == "HTTP/1.0"@ {
        Some(ProtocolVersion::HTTP10)
    } else if t == "HTTP/1.1"@ {
        Some(ProtocolVersion::HTTP11)
    } else if t == "HTTP/2.0"@ {
        Some(ProtocolVersion::HTTP2)
    } else if t == "HTTP/3.0"@ {
        Some(ProtocolVersion::HTTP3)
    } else {
        None
    }
}

/// The text that names a method.
pub open spec fn method_text(method: Method) -> Seq<char> {
    match method {
        Method::Get => "GET"@,
        Method::Post => "POST"@,
        Method::Put => "PUT"@,
        Method::Delete => "DELETE"@,
    }
}

/// The method that `text` names, if any. Names are case sensitive.
pub open spec fn method_named(text: Seq<char>) -> Option<Method> {
    if text == "GET"@ {
        Some(Method::Get)
    } else if text == "POST"@ {
        Some(Method::Post)
    } else if text == "DELETE"@ {
        Some(Method::Delete)
    } else if text == "PUT"@ {
        Some(Method::Put)
    } else {
        None
    }
}

/// The number of a status.
pub open spec fn status_code(status: ResponseStatus) -> u16 {
    match status {
        ResponseStatus::OK => 200,
        ResponseStatus::Created => 201,
        ResponseStatus::BadRequest => 400,
        ResponseStatus::Forbidden => 403,
        ResponseStatus::NotFound => 404,
        ResponseStatus::MethodNotAllowed => 405,
        ResponseStatus::InternalServerError => 500,
    }
}

/// The short description that goes with a status.
pub open spec fn status_message(status: ResponseStatus) -> Seq<char> {
    match status {
        ResponseStatus::OK => "OK"@,
        ResponseStatus::Created => "Created"@,
        ResponseStatus::BadRequest => "Bad Request"@,
        ResponseStatus::Forbidden => "Forbidden"@,
        ResponseStatus::NotFound => "Not Found"@,
        ResponseStatus::MethodNotAllowed => "Method Not Allowed"@,
        ResponseStatus::InternalServerError => "Internal Server Error"@,
    }
}

impl ProtocolVersion {
    /// The version that `text` names, white space around it set aside.
    pub fn from_chars(text: &Vec<char>) -> (r: Result<ProtocolVersion, HttpError>)
        ensures
            r == match version_named(text@) {
                Some(v) => Ok::<ProtocolVersion, HttpError>(v),
                None => Err(HttpError::InvalidProtocolVersion),
            },
    {
        let t = trim_chars(text);
        if same_chars(&t, &chars_of("HTTP/1.0")) {
            Ok(ProtocolVersion::HTTP10)
        } else if same_chars(&t, &chars_of("HTTP/1.1")) {
            Ok(ProtocolVersion::HTTP11)
        } else if same_chars(&t, &chars_of("HTTP/2.0")) {
            Ok(ProtocolVersion::HTTP2)
        } else if same_chars(&t, &chars_of("HTTP/3.0")) {
            Ok(ProtocolVersion::HTTP3)
        } else {
            Err(HttpError::InvalidProtocolVersion)
        }
    }

    /// The text that names this version, such as `HTTP/1.1`.
    pub fn to_string(&self) -> (s: String)
        ensures
            s@ == version_text(*self),
    {
        match self {
            ProtocolVersion::HTTP10 => "HTTP/1.0".to_owned(),
            ProtocolVersion::HTTP11 => "HTTP/1.1".to_owned(),
            ProtocolVersion::HTTP2 => "HTTP/2.0".to_owned(),
            ProtocolVersion::HTTP3 => "HTTP/3.0".to_owned(),
        }
    }
}

impl Default for ProtocolVersion {
    fn default() -> (v: ProtocolVersion)
        ensures
            v == ProtocolVersion::HTTP11,
    {
        ProtocolVersion::HTTP11
    }
}

impl TryFrom<&str> for ProtocolVersion {
    type Error = HttpError;

    fn try_from(value: &str) -> (r: Result<ProtocolVersion, HttpError>)
    {
        ProtocolVersion::from_chars(&chars_of(value))
    }
}

impl vstd::std_specs::convert::TryFromSpecImpl<&str> for ProtocolVersion {
    open spec fn obeys_try_from_spec() -> bool {
        true
    }

    open spec fn try_from_spec(value: &str) -> Result<ProtocolVersion, HttpError> {
        match version_named(value@) {
            Some(v) => Ok(v),
            None => Err(HttpError::InvalidProtocolVersion),
        }
    }
}

impl Method {
    /// The method that `text` names.
    pub fn from_chars(text: &Vec<char>) -> (r: Result<Method, HttpError>)
        ensures
            r == match method_named(text@) {
                Some(m) => Ok::<Method, HttpError>(m),
                None => Err(HttpError::InvalidMethod),
            },
    {
        if same_chars(text, &chars_of("GET")) {
            Ok(Method::Get)
        } else if same_chars(text, &chars_of("POST")) {
            Ok(Method::Post)
        } else if same_chars(text, &chars_of("DELETE")) {
            Ok(Method::Delete)
        } else if same_chars(text, &chars_of("PUT")) {
            Ok(Method::Put)
        } else {
            Err(HttpError::InvalidMethod)
        }
    }

    /// The text that names this method, such as `GET`.
    pub fn to_string(&self) -> (s: String)
        ensures
            s@ == method_text(*self),
    {
        match self {
            Method::Get => "GET".to_owned(),
            Method::Post => "POST".to_owned(),
            Method::Put => "PUT".to_owned(),
            Method::Delete => "DELETE".to_owned(),
        }
    }
}

impl TryFrom<&str> for Method {
    type Error = HttpError;

    fn try_from(value: &str) -> (r: Result<Method, HttpError>) {
        Method::from_chars(&chars_of(value))
    }
}

impl vstd::std_specs::convert::TryFromSpecImpl<&str> for Method {
    open spec fn obeys_try_from_spec() -> bool {
        true
    }

    open spec fn try_from_spec(value: &str) -> Result<Method, HttpError> {
        match method_named(value@) {
            Some(m) => Ok(m),
            None => Err(HttpError::InvalidMethod),
        }
    }
}

impl Default for Method {
    fn default() -> (m: Method)
        ensures
            m == Method::Get,
    {
        Method::Get
    }
}

impl ResponseStatus {
    /// The number and the short description of this status.
    pub fn get_code_message(&self) -> (r: (u16, String))
        ensures
            r.0 == status_code(*self),
            r.1@ == status_message(*self),
    {
        match self {
            ResponseStatus::OK => (200, "OK".to_owned()),
            ResponseStatus::Created => (201, "Created".to_owned()),
            ResponseStatus::BadRequest => (400, "Bad Request".to_owned()),
            ResponseStatus::Forbidden => (403, "Forbidden".to_owned()),
            ResponseStatus::NotFound => (404, "Not Found".to_owned()),
            ResponseStatus::MethodNotAllowed => (405, "Method Not Allowed".to_owned()),
            ResponseStatus::InternalServerError => (500, "Internal Server Error".to_owned()),
        }
    }
}

} // verus!

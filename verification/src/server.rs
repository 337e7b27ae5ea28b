//! Servers: what answers the text of a request with the bytes of a response.
//! Listening and reading are left to the program that runs a server.

use crate::handler::Service;
use crate::http::HttpError;
use crate::http::ProtocolVersion;
use crate::http::ResponseStatus;
use crate::request::parse_failure;
use crate::request::Request;
use crate::response::integer_string;
use crate::response::integer_text;
use crate::response::response_to_bytes;
use crate::response::wire_bytes;
use crate::response::Response;
use crate::response::ResponseModel;
use vstd::prelude::*;
use vstd::string::StringExecFns;

verus! {

/// The address to listen at: the host, a colon, and the port in base ten.
pub open spec fn address_text(host: Seq<char>, port: u32) -> Seq<char> {
    host + ":"@ + integer_text(port as int)
}

fn address_of(host: &String, port: u32) -> (address: String)
    ensures
        address@ == address_text(host@, port),
{
    host.clone().concat(":").concat(integer_string(port as i64).as_str())
}

/// Why a server has no answer.
#[derive(PartialEq, Eq, Clone, Copy, Debug, Structural)]
pub enum ServerError {
    /// The server was given no service.
    NoService,
}

/// A server: an address, and the service that answers the requests that
/// come in at it.
pub struct Server<V> {
    /// The host to listen at.
    pub host: String,
    /// The port to listen at.
    pub port: u32,
    /// The service, once one is given.
    pub service: Option<V>,
}

impl<V> Server<V> where V: Service<Request> + 'static {
    /// A server for this address, with no service yet.
    pub fn new(host: &str, port: u32) -> (server: Server<V>)
        ensures
            server.host@ == host@,
            server.port == port,
            server.service is None,
    {
        Server { host: host.to_owned(), port, service: None }
    }

    /// The server with `service` as its service.
    pub fn with_service(self, service: V) -> (server: Server<V>)
        ensures
            server.host == self.host,
            server.port == self.port,
            server.service == Some(service),
    {
        Server { host: self.host, port: self.port, service: Some(service) }
    }

    /// The address to listen at.
    pub fn address(&self) -> (address: String)
        ensures
            address@ == address_text(self.host@, self.port),
    {
        address_of(&self.host, self.port)
    }

    /// The answer of the service to a request.
    pub fn fire(&self, request: Request) -> (r: Result<Response, ServerError>)
        ensures
            match self.service {
                None => r == Err::<Response, ServerError>(ServerError::NoService),
                Some(service) => r is Ok && service.responds(request, r->Ok_0),
            },
    {
        match &self.service {
            None => Err(ServerError::NoService),
            Some(service) => Ok(service.call(request)),
        }
    }

    /// The bytes to send in answer to a request.
    pub fn answer(&self, request: Request) -> (r: Result<Vec<u8>, ServerError>)
        ensures
            match self.service {
                None => r == Err::<Vec<u8>, ServerError>(ServerError::NoService),
                Some(service) => r is Ok && exists|response: Response|
                    #[trigger] service.responds(request, response) && r->Ok_0@ == wire_bytes(
                        response@,
                    ),
            },
    {
        match self.fire(request) {
            Ok(response) => {
                assert(self.service->Some_0.responds(request, response));
                Ok(response_to_bytes(response))
            },
            Err(e) => Err(e),
        }
    }
}

/// A server that answers every request that it can read in the same way.
pub struct EchoServer {
    /// The host to listen at.
    pub host: String,
    /// The port to listen at.
    pub port: u32,
}

/// What the echo server answers: status 200 under HTTP/1.0, the headers
/// `Content-Type: text/html` and `Server: My Own`, and no body.
pub open spec fn echo_response() -> ResponseModel {
    ResponseModel {
        protocol: ProtocolVersion::HTTP10,
        status: ResponseStatus::OK,
        headers: seq![("Content-Type"@, "text/html"@), ("Server"@, "My Own"@)],
        body: Seq::<u8>::empty(),
    }
}

impl EchoServer {
    /// A server for this address.
    pub fn new(host: &str, port: u32) -> (server: EchoServer)
        ensures
            server.host@ == host@,
            server.port == port,
    {
        EchoServer { host: host.to_owned(), port }
    }

    /// The address to listen at.
    pub fn address(&self) -> (address: String)
        ensures
            address@ == address_text(self.host@, self.port),
    {
        address_of(&self.host, self.port)
    }

    /// The bytes to send in answer to the text of a request: the same
    /// response for every text that reads as a request, and the error of
    /// the parser for every other.
    pub fn answer(&self, text: String) -> (r: Result<Vec<u8>, HttpError>)
        ensures
            match parse_failure(text@) {
                Some(e) => r == Err::<Vec<u8>, HttpError>(e),
                None => r is Ok && r->Ok_0@ == wire_bytes(echo_response()),
            },
    {
        match Request::parse(text) {
            Err(e) => Err(e),
            Ok(_) => {
                let mut headers: Vec<(String, String)> = Vec::new();
                headers.push(("Content-Type".to_owned(), "text/html".to_owned()));
                headers.push(("Server".to_owned(), "My Own".to_owned()));
                let response = Response {
                    protocol: ProtocolVersion::HTTP10,
                    status: ResponseStatus::OK,
                    headers,
                    body: Vec::new(),
                };
                assert(response.headers.deep_view() =~= echo_response().headers);
                assert(response@ == echo_response());
                Ok(response_to_bytes(response))
            },
        }
    }
}

} // verus!

use rhttp::http::ProtocolVersion;
use rhttp::http::ResponseStatus;
use rhttp::response::integer_string;
use rhttp::response::response_to_bytes;
use rhttp::response::settle;
use rhttp::response::RenderError;
use rhttp::response::Responder;
use rhttp::response::Response;
use rhttp::server::EchoServer;
use rhttp::server::Server;
use rhttp::server::ServerError;
use rhttp::http::HttpError;
use rhttp::http::Method;
use rhttp::request::Request;

#[test]
fn unit_renders_the_default_response() {
    let response = ().into_response().unwrap();
    assert_eq!(response.status, ResponseStatus::OK);
    assert_eq!(response.protocol, ProtocolVersion::HTTP11);
    assert!(response.headers.is_empty());
    assert!(response.body.is_empty());
}

#[test]
fn texts_and_numbers_render_as_their_text() {
    assert_eq!("hello".into_response().unwrap().body, b"hello".to_vec());
    assert_eq!("h\u{e9}".to_string().into_response().unwrap().body, "h\u{e9}".as_bytes().to_vec());
    assert_eq!(0i32.into_response().unwrap().body, b"0".to_vec());
    assert_eq!((-120i32).into_response().unwrap().body, b"-120".to_vec());
    assert_eq!(i32::MIN.into_response().unwrap().body, b"-2147483648".to_vec());
    assert_eq!(i64::MIN.into_response().unwrap().body, b"-9223372036854775808".to_vec());
    assert_eq!(u32::MAX.into_response().unwrap().body, b"4294967295".to_vec());
    assert_eq!(true.into_response().unwrap().body, b"true".to_vec());
    assert_eq!(false.into_response().unwrap().body, b"false".to_vec());
    assert_eq!(7i32.into_response().unwrap().status, ResponseStatus::OK);
    assert_eq!(integer_string(1005), "1005");
}

#[test]
fn a_response_renders_as_itself() {
    let mut response = Response::text(ResponseStatus::Created, "made");
    response.headers.push(("A".to_string(), "b".to_string()));
    let rendered = response.into_response().unwrap();
    assert_eq!(rendered.status, ResponseStatus::Created);
    assert_eq!(rendered.headers, vec![("A".to_string(), "b".to_string())]);
    assert_eq!(rendered.body, b"made".to_vec());
}

#[test]
fn a_failure_renders_as_500_with_its_text() {
    let failure: Result<String, String> = Err("it broke".to_string());
    let response = failure.into_response().unwrap();
    assert_eq!(response.status, ResponseStatus::InternalServerError);
    assert_eq!(response.body, b"it broke".to_vec());

    let success: Result<i32, String> = Ok(3);
    let response = success.into_response().unwrap();
    assert_eq!(response.status, ResponseStatus::OK);
    assert_eq!(response.body, b"3".to_vec());
}

#[test]
fn a_failed_rendering_settles_as_500() {
    let response = settle(Err(RenderError { message: "no json".to_string() }));
    assert_eq!(response.status, ResponseStatus::InternalServerError);
    assert_eq!(response.body, b"no json".to_vec());
    let response = settle(Ok(Response::text(ResponseStatus::Forbidden, "no")));
    assert_eq!(response.status, ResponseStatus::Forbidden);
}

#[test]
fn with_body_replaces_the_body_only() {
    let mut response = Response::text(ResponseStatus::NotFound, "a");
    response.with_body("other");
    assert_eq!(response.status, ResponseStatus::NotFound);
    assert_eq!(response.body, b"other".to_vec());
}

#[test]
fn a_response_is_sent_as_line_headers_and_body() {
    assert_eq!(response_to_bytes(Response::default()), b"HTTP/1.1 200 OK\n".to_vec());
    let mut response = Response::text(ResponseStatus::NotFound, "gone");
    response.headers.push(("Content-Type".to_string(), "text/plain".to_string()));
    response.headers.push(("Server".to_string(), "x".to_string()));
    assert_eq!(
        response_to_bytes(response),
        b"HTTP/1.1 404 Not Found\nContent-Type: text/plain\nServer: x\n\n\ngone".to_vec()
    );
    let response = Response {
        protocol: ProtocolVersion::HTTP3,
        status: ResponseStatus::InternalServerError,
        headers: vec![],
        body: vec![0xff, 0x00],
    };
    assert_eq!(
        response_to_bytes(response),
        [b"HTTP/3.0 500 Internal Server Error\n\n\n".to_vec(), vec![0xff, 0x00]].concat()
    );
}

#[test]
fn the_echo_server_answers_every_request_alike() {
    let server = EchoServer::new("127.0.0.1", 8080);
    assert_eq!(server.address(), "127.0.0.1:8080");
    let expected = b"HTTP/1.0 200 OK\nContent-Type: text/html\nServer: My Own\n".to_vec();
    assert_eq!(server.answer("GET / HTTP/1.1\r\n\r\n".to_string()), Ok(expected.clone()));
    assert_eq!(server.answer("POST /x\r\nA: b\r\n\r\nbody".to_string()), Ok(expected));
    assert_eq!(server.answer("nothing".to_string()), Err(HttpError::InvalidMethod));
}

#[test]
fn a_server_without_service_has_no_answer() {
    let server: Server<()> = Server::new("localhost", 80);
    assert_eq!(server.address(), "localhost:80");
    assert_eq!(server.fire(Request::new(Method::Get, "/")).err(), Some(ServerError::NoService));
    assert_eq!(server.answer(Request::new(Method::Get, "/")), Err(ServerError::NoService));
    let server = server.with_service(());
    assert_eq!(server.answer(Request::new(Method::Get, "/")), Ok(b"HTTP/1.1 200 OK\n".to_vec()));
}

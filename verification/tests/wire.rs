use rhttp::http::Method;
use rhttp::http::ProtocolVersion;
use rhttp::route::Router;
use rhttp::extract::Host;
use rhttp::extract::PathParam;
use rhttp::server::Server;
use rhttp::wire::parse_request;
use rhttp::wire::request_from_head;
use rhttp::wire::Head;
use rhttp::wire::WireError;

#[test]
fn a_request_is_read_from_the_wire() {
    let bytes = b"POST /a/b?x=1 HTTP/1.0\r\nHost: example\r\nX-Raw: caf\xe9\r\n\r\nthe body\r\n";
    let request = parse_request(bytes).unwrap();
    assert_eq!(request.method, Method::Post);
    assert_eq!(request.url, "/a/b?x=1");
    assert_eq!(request.version, ProtocolVersion::HTTP10);
    assert_eq!(
        request.headers,
        vec![
            ("Host".to_string(), "example".to_string()),
            ("X-Raw".to_string(), "caf\u{e9}".to_string()),
        ]
    );
    assert_eq!(request.body, b"the body\r\n".to_vec());
    assert!(request.cursor.is_none());
}

#[test]
fn what_is_no_request_is_refused() {
    assert_eq!(parse_request(b"GET / HTTP/1.1\r\nHost: a").err(), Some(WireError::Incomplete));
    assert_eq!(parse_request(b"").err(), Some(WireError::Incomplete));
    assert_eq!(parse_request(b"GET / HTTP/7.1\r\n\r\n").err(), Some(WireError::Malformed));
    assert_eq!(parse_request(b"\x01 / HTTP/1.1\r\n\r\n").err(), Some(WireError::Malformed));
    assert_eq!(parse_request(b"HEAD / HTTP/1.1\r\n\r\n").err(), Some(WireError::InvalidMethod));
    let mut many = b"GET / HTTP/1.1\r\n".to_vec();
    for i in 0..65 {
        many.extend_from_slice(format!("h{}: v\r\n", i).as_bytes());
    }
    many.extend_from_slice(b"\r\n");
    assert_eq!(parse_request(&many).err(), Some(WireError::Malformed));
}

#[test]
fn a_request_is_put_together_from_a_head() {
    let head = Head {
        method: Some("DELETE".to_string()),
        path: Some("/x".to_string()),
        version: Some(1),
        headers: vec![("a".to_string(), vec![0x41, 0xff])],
        body_start: 3,
    };
    let request = request_from_head(head, b"0123456").unwrap();
    assert_eq!(request.method, Method::Delete);
    assert_eq!(request.version, ProtocolVersion::HTTP11);
    assert_eq!(request.headers, vec![("a".to_string(), "A\u{ff}".to_string())]);
    assert_eq!(request.body, b"3456".to_vec());

    let head = Head {
        method: Some("GET".to_string()),
        path: None,
        version: Some(1),
        headers: vec![],
        body_start: 0,
    };
    assert_eq!(request_from_head(head, b"").err(), Some(WireError::Malformed));
    let head = Head {
        method: Some("GET".to_string()),
        path: Some("/a/b?c".to_string()),
        version: Some(0),
        headers: vec![],
        body_start: 9,
    };
    let request = request_from_head(head, b"012").unwrap();
    assert_eq!(request.version, ProtocolVersion::HTTP10);
    assert!(request.body.is_empty());
    assert_eq!(request.metadata.segments, vec!["a".to_string(), "b".to_string()]);
}

#[test]
fn a_server_answers_what_came_over_the_wire() {
    let app = Router::default().get("/hello/<name>", |Host(host): Host, PathParam(name): PathParam<String>| {
        format!("{} greets {}", host, name)
    });
    let server = Server::new("127.0.0.1", 8080).with_service(app);
    let request = parse_request(b"GET /hello/you HTTP/1.1\r\nhost: here\r\n\r\n").unwrap();
    assert_eq!(server.answer(request), Ok(b"HTTP/1.1 200 OK\n\n\nhere greets you".to_vec()));
}

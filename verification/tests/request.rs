use rhttp::http::HttpError;
use rhttp::http::Method;
use rhttp::http::ProtocolVersion;
use rhttp::http::ResponseStatus;
use rhttp::param::FromParam;
use rhttp::param::ParamError;
use rhttp::request::parse_segments;
use rhttp::request::Request;

fn pair(a: &str, b: &str) -> (String, String) {
    (a.to_string(), b.to_string())
}

#[test]
fn parse_reads_line_headers_and_body() {
    let content = "POST /api/authors HTTP/1.1\r\nHost: myWebApi.com\r\nContent-Type: application/json\r\nCache-Control: no-cache\r\n\r\n{\r\n\"Name\": \"Felipe\",\r\n\"Age\": 999\r\n}";
    let request = Request::parse(content.to_string()).expect("failed to parse request");
    assert_eq!(request.method, Method::Post);
    assert_eq!(request.url, "/api/authors");
    assert_eq!(request.version, ProtocolVersion::HTTP11);
    assert_eq!(
        request.headers,
        vec![
            pair("Host", "myWebApi.com"),
            pair("Content-Type", "application/json"),
            pair("Cache-Control", "no-cache"),
        ]
    );
    assert_eq!(request.body, b"{\"Name\": \"Felipe\",\"Age\": 999}".to_vec());
    assert!(request.cursor.is_none());
}

#[test]
fn parse_takes_non_ascii_bodies_as_utf8() {
    let content = "PUT /a HTTP/2.0\r\n\r\nGavil\u{e1}n";
    let request = Request::parse(content.to_string()).unwrap();
    assert_eq!(request.method, Method::Put);
    assert_eq!(request.version, ProtocolVersion::HTTP2);
    assert_eq!(request.body, "Gavil\u{e1}n".as_bytes().to_vec());
}

#[test]
fn parse_defaults_and_trims() {
    let request = Request::parse("GET".to_string()).unwrap();
    assert_eq!(request.method, Method::Get);
    assert_eq!(request.url, "");
    assert_eq!(request.version, ProtocolVersion::HTTP11);
    assert!(request.headers.is_empty());
    assert!(request.body.is_empty());

    let request = Request::parse("DELETE \t/x\t\r\nA :  b \r\n".to_string()).unwrap();
    assert_eq!(request.method, Method::Delete);
    assert_eq!(request.url, "/x");
    assert_eq!(request.headers, vec![pair("A", "b")]);
}

#[test]
fn parse_ends_headers_at_a_line_without_colon() {
    let request =
        Request::parse("GET /x HTTP/1.0\r\nA: b\r\nno colon here\r\nbody\r\nmore\r\n\r\nafter".to_string())
            .unwrap();
    assert_eq!(request.version, ProtocolVersion::HTTP10);
    assert_eq!(request.headers, vec![pair("A", "b")]);
    assert_eq!(request.body, b"bodymore".to_vec());
}

#[test]
fn parse_keeps_line_feeds_that_follow_no_carriage_return() {
    let request = Request::parse("GET /x\nHost:a".to_string()).unwrap();
    assert_eq!(request.url, "/x\nHost:a");
    assert!(request.headers.is_empty());
    assert_eq!(
        Request::parse("GET /x HTTP/1.1\nHost: a".to_string()).err(),
        Some(HttpError::InvalidProtocolVersion)
    );
}

#[test]
fn parse_refuses_unknown_method_and_version() {
    assert_eq!(Request::parse("FETCH / HTTP/1.1".to_string()).err(), Some(HttpError::InvalidMethod));
    assert_eq!(Request::parse("get / HTTP/1.1".to_string()).err(), Some(HttpError::InvalidMethod));
    assert_eq!(
        Request::parse("GET / HTTP/9".to_string()).err(),
        Some(HttpError::InvalidProtocolVersion)
    );
    assert_eq!(Request::parse("".to_string()).err(), Some(HttpError::InvalidMethod));
}

#[test]
fn versions_and_methods_have_names() {
    assert_eq!(ProtocolVersion::try_from(" HTTP/3.0 "), Ok(ProtocolVersion::HTTP3));
    assert_eq!(ProtocolVersion::try_from("HTTP/1.0"), Ok(ProtocolVersion::HTTP10));
    assert_eq!(ProtocolVersion::try_from("http/1.0"), Err(HttpError::InvalidProtocolVersion));
    assert_eq!(ProtocolVersion::HTTP2.to_string(), "HTTP/2.0");
    assert_eq!(ProtocolVersion::default(), ProtocolVersion::HTTP11);
    assert_eq!(Method::default(), Method::Get);
    assert_eq!(Method::from_chars(&"PUT".chars().collect()), Ok(Method::Put));
    assert_eq!(Method::from_chars(&"put".chars().collect()), Err(HttpError::InvalidMethod));
    assert_eq!(Method::Delete.to_string(), "DELETE");
    assert_eq!(Method::try_from("POST"), Ok(Method::Post));
    assert_eq!(Method::try_from("GET"), Ok(Method::Get));
    assert_eq!(Method::try_from(" GET"), Err(HttpError::InvalidMethod));
}

#[test]
fn statuses_have_codes_and_messages() {
    assert_eq!(ResponseStatus::OK.get_code_message(), (200, "OK".to_string()));
    assert_eq!(ResponseStatus::Created.get_code_message(), (201, "Created".to_string()));
    assert_eq!(ResponseStatus::BadRequest.get_code_message(), (400, "Bad Request".to_string()));
    assert_eq!(ResponseStatus::Forbidden.get_code_message(), (403, "Forbidden".to_string()));
    assert_eq!(ResponseStatus::NotFound.get_code_message(), (404, "Not Found".to_string()));
    assert_eq!(
        ResponseStatus::MethodNotAllowed.get_code_message(),
        (405, "Method Not Allowed".to_string())
    );
    assert_eq!(
        ResponseStatus::InternalServerError.get_code_message(),
        (500, "Internal Server Error".to_string())
    );
}

#[test]
fn segments_stand_at_their_places() {
    assert_eq!(
        parse_segments("/test/hello/world".to_string()),
        Ok(vec!["test".to_string(), "hello".to_string(), "world".to_string()])
    );
    assert_eq!(
        parse_segments("/a/b/a".to_string()),
        Ok(vec!["a".to_string(), "b".to_string(), "a".to_string()])
    );
    assert_eq!(parse_segments("".to_string()), Ok(vec![]));
    assert_eq!(parse_segments("/".to_string()), Ok(vec!["".to_string()]));
    assert_eq!(parse_segments("x/y".to_string()), Ok(vec!["y".to_string()]));
}

#[test]
fn the_segments_of_a_request_leave_out_the_query_string() {
    let request = Request::new(Method::Get, "/a/b?c=d/e");
    assert_eq!(request.metadata.segments, vec!["a".to_string(), "b".to_string()]);
    let request = Request::parse("GET /x/y?z HTTP/1.1\r\n\r\n".to_string()).unwrap();
    assert_eq!(request.url, "/x/y?z");
    assert_eq!(request.metadata.segments, vec!["x".to_string(), "y".to_string()]);
    let request = Request::parse("GET".to_string()).unwrap();
    assert!(request.metadata.segments.is_empty());
}

#[test]
fn query_finds_parameters_by_name() {
    let mut request = Request::new(Method::Get, "/test/john/42?x=1");
    request.inject_params_seqments(vec![
        ("name".to_string(), 1),
        ("age".to_string(), 2),
        ("far".to_string(), 3),
        ("name".to_string(), 0),
    ]);
    assert_eq!(request.query::<String>("name"), Ok("john".to_string()));
    assert_eq!(request.query::<i32>("age"), Ok(42));
    assert_eq!(request.query::<i32>("name"), Err(ParamError::Unreadable));
    assert_eq!(request.query::<String>("other"), Err(ParamError::UnknownParam));
    assert_eq!(request.query::<String>("far"), Err(ParamError::MissingSegment));
}

#[test]
fn equal_segments_are_read_each_at_its_place() {
    let mut request = Request::parse("GET /a/a HTTP/1.1\r\n\r\n".to_string()).unwrap();
    request.inject_params_seqments(vec![("x".to_string(), 0), ("y".to_string(), 1)]);
    assert_eq!(request.query::<String>("x"), Ok("a".to_string()));
    assert_eq!(request.query::<String>("y"), Ok("a".to_string()));
}

#[test]
fn places_beyond_255_segments_are_kept() {
    let mut path = String::new();
    for i in 0..258 {
        path.push_str(&format!("/s{}", i));
    }
    let segments = parse_segments(path.clone()).unwrap();
    assert_eq!(segments.len(), 258);
    assert_eq!(segments[0], "s0");
    assert_eq!(segments[256], "s256");
    let mut request = Request::new(Method::Get, &path);
    request.inject_params_seqments(vec![("first".to_string(), 0), ("last".to_string(), 255)]);
    assert_eq!(request.query::<String>("first"), Ok("s0".to_string()));
    assert_eq!(request.query::<String>("last"), Ok("s255".to_string()));
}

#[test]
fn integers_read_as_rust_reads_them() {
    assert_eq!(i32::from_param("0".to_string()), Ok(0));
    assert_eq!(i32::from_param("+5".to_string()), Ok(5));
    assert_eq!(i32::from_param("-5".to_string()), Ok(-5));
    assert_eq!(i32::from_param("007".to_string()), Ok(7));
    assert_eq!(i32::from_param("2147483647".to_string()), Ok(i32::MAX));
    assert_eq!(i32::from_param("-2147483648".to_string()), Ok(i32::MIN));
    assert_eq!(i32::from_param("2147483648".to_string()), Err(ParamError::Unreadable));
    assert_eq!(i32::from_param("-2147483649".to_string()), Err(ParamError::Unreadable));
    assert_eq!(i32::from_param("".to_string()), Err(ParamError::Unreadable));
    assert_eq!(i32::from_param("-".to_string()), Err(ParamError::Unreadable));
    assert_eq!(i32::from_param("+".to_string()), Err(ParamError::Unreadable));
    assert_eq!(i32::from_param("1_0".to_string()), Err(ParamError::Unreadable));
    assert_eq!(i32::from_param(" 1".to_string()), Err(ParamError::Unreadable));
    assert_eq!(i32::from_param("99999999999999999999999999999999999999999".to_string()), Err(ParamError::Unreadable));
    assert_eq!(u32::from_param("4294967295".to_string()), Ok(u32::MAX));
    assert_eq!(u32::from_param("-0".to_string()), Err(ParamError::Unreadable));
    assert_eq!(u32::from_param("+0".to_string()), Ok(0));
    assert_eq!(u64::from_param("18446744073709551615".to_string()), Ok(u64::MAX));
    assert_eq!(u64::from_param("18446744073709551616".to_string()), Err(ParamError::Unreadable));
    assert_eq!(i64::from_param("-9223372036854775808".to_string()), Ok(i64::MIN));
    assert_eq!(usize::from_param("12".to_string()), Ok(12));
    assert_eq!(bool::from_param("true".to_string()), Ok(true));
    assert_eq!(bool::from_param("false".to_string()), Ok(false));
    assert_eq!(bool::from_param("True".to_string()), Err(ParamError::Unreadable));
    assert_eq!(String::from_param("a b".to_string()), Ok("a b".to_string()));
    for text in ["12", "-7", "+3", "x", "", "2147483648", "-2147483648", "0012"] {
        assert_eq!(i32::from_param(text.to_string()).ok(), text.parse::<i32>().ok());
    }
}

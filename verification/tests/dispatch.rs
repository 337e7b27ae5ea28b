use rhttp::codec::decode_json;
use rhttp::codec::decode_query;
use rhttp::extract::ContentType;
use rhttp::extract::ExtractionError;
use rhttp::extract::FromJson;
use rhttp::extract::FromQuery;
use rhttp::extract::FromRequest;
use rhttp::extract::FromRequestParts;
use rhttp::extract::Headers;
use rhttp::extract::Host;
use rhttp::extract::Json;
use rhttp::extract::PathParam;
use rhttp::extract::Query;
use rhttp::extract::State;
use rhttp::extract::TypedHeader;
use rhttp::handler::BoxCloneService;
use rhttp::handler::HandlerTrait;
use rhttp::handler::HandlerTraitWithoutState;
use rhttp::handler::Service;
use rhttp::http::Method;
use rhttp::http::ResponseStatus;
use rhttp::middleware::LogMiddleware;
use rhttp::middleware::Middleware;
use rhttp::middleware::MiddlewareError;
use rhttp::pattern::RegistrationError;
use rhttp::request::ExtractionCursor;
use rhttp::request::Request;
use rhttp::response::Responder;
use rhttp::response::Response;
use rhttp::route::Route;
use rhttp::route::RouteGroup;
use rhttp::route::Router;
use rhttp::route::RoutingError;
use rhttp::testing::Client;
use std::sync::Arc;
use std::sync::Mutex;

fn get(url: &str) -> Request {
    Request::new(Method::Get, url)
}

fn text(response: &Response) -> String {
    String::from_utf8(response.body.clone()).unwrap()
}

struct Pairs(Vec<(String, String)>);

impl FromQuery for Pairs {
    fn from_query(query: &str) -> Result<Self, ExtractionError> {
        Ok(Pairs(decode_query(query)?))
    }
}

struct Numbers(Vec<u32>);

impl FromJson for Numbers {
    fn from_json(body: &[u8]) -> Result<Self, ExtractionError> {
        Ok(Numbers(decode_json(body)?))
    }
}

struct Document(serde_json::Value);

impl FromJson for Document {
    fn from_json(body: &[u8]) -> Result<Self, ExtractionError> {
        Ok(Document(decode_json(body)?))
    }
}

#[test]
fn a_placeholder_binds_its_segment() {
    let app = Router::default().get("/test/<p>", |PathParam(p): PathParam<String>| p);
    let response = app.fire(get("/test/7")).unwrap();
    assert_eq!(response.status, ResponseStatus::OK);
    assert_eq!(text(&response), "7");
}

#[test]
fn two_placeholders_bind_in_order() {
    let app = Router::default().get(
        "/a/<x>/<y>",
        |PathParam(x): PathParam<String>, PathParam(y): PathParam<String>| format!("x={} y={}", x, y),
    );
    assert_eq!(text(&app.fire(get("/a/1/2")).unwrap()), "x=1 y=2");
}

#[test]
fn path_parameters_bind_in_order_whatever_stands_between_them() {
    fn handler(
        Host(host): Host,
        PathParam(x): PathParam<i32>,
        Query(Pairs(pairs)): Query<Pairs>,
        PathParam(y): PathParam<String>,
        body: String,
    ) -> String {
        format!("{} {} {} {} {}", host, x, pairs.len(), y, body)
    }
    let app = Router::default().post("/a/<x>/b/<y>", handler);
    let mut request = Request::new(Method::Post, "/a/12/b/last?k=v&l=w");
    request.headers.push(("Host".to_string(), "here".to_string()));
    request.body = b"the body".to_vec();
    assert_eq!(text(&app.fire(request).unwrap()), "here 12 2 last the body");
}

#[test]
fn a_handler_without_arguments_is_called_as_it_is() {
    let app = Router::default().get("/", || Response::text(ResponseStatus::Created, "as it is"));
    let mut request = get("/");
    request.body = vec![0xff];
    let response = app.fire(request).unwrap();
    assert_eq!(response.status, ResponseStatus::Created);
    assert_eq!(text(&response), "as it is");
}

#[test]
fn json_comes_back_as_it_went() {
    let app = Router::default()
        .post("/body", |Json(Document(value)): Json<Document>| serde_json::to_string(&value));
    let mut request = Request::new(Method::Post, "/body");
    request.body = br#"{"val":"v","val2":1,"val3":true}"#.to_vec();
    assert_eq!(text(&app.fire(request).unwrap()), r#"{"val":"v","val2":1,"val3":true}"#);
}

#[test]
fn json_takes_what_follows_the_value_for_nothing() {
    let app = Router::default().post("/n", |Json(Numbers(n)): Json<Numbers>| n.len() as i32);
    let mut request = Request::new(Method::Post, "/n");
    request.body = b"[1, 2, 3] trailing".to_vec();
    assert_eq!(text(&app.fire(request).unwrap()), "3");
}

#[test]
fn text_round_trip() {
    for sent in ["", "plain", "h\u{e9}llo \u{1f600}"] {
        let rendered = sent.to_string().into_response().unwrap();
        let mut request = Request::new(Method::Post, "/");
        request.body = rendered.body;
        let back = <String as FromRequest<()>>::from_request(request, &());
        assert_eq!(back, Ok(sent.to_string()));
    }
}

struct Recorder {
    name: &'static str,
    log: Arc<Mutex<Vec<String>>>,
    fail_request: bool,
    fail_response: bool,
}

impl Recorder {
    fn new(name: &'static str, log: &Arc<Mutex<Vec<String>>>) -> Recorder {
        Recorder { name, log: log.clone(), fail_request: false, fail_response: false }
    }
}

impl Middleware for Recorder {
    fn on_request(&self, req: &mut Request) -> Result<(), MiddlewareError> {
        self.log.lock().unwrap().push(format!("{}.on_request", self.name));
        if self.fail_request {
            return Err(MiddlewareError { message: format!("{} refused", self.name) });
        }
        req.headers.push(("seen-by".to_string(), self.name.to_string()));
        Ok(())
    }

    fn on_response(&self, res: &mut Response) -> Result<(), MiddlewareError> {
        self.log.lock().unwrap().push(format!("{}.on_response", self.name));
        if self.fail_response {
            return Err(MiddlewareError { message: format!("{} gave up", self.name) });
        }
        res.headers.push(("left-by".to_string(), self.name.to_string()));
        Ok(())
    }
}

fn logging_handler(log: &Arc<Mutex<Vec<String>>>) -> impl Fn(Headers) -> String + Send + Sync + 'static {
    let log = log.clone();
    move |Headers(headers): Headers| {
        log.lock().unwrap().push("handler".to_string());
        headers.iter().map(|(_, v)| v.clone()).collect::<Vec<_>>().join(",")
    }
}

#[test]
fn hooks_run_in_registration_order() {
    let log = Arc::new(Mutex::new(Vec::new()));
    let group = RouteGroup::new("")
        .middleware(Recorder::new("M1", &log))
        .middleware(Recorder::new("M2", &log))
        .get("/", logging_handler(&log).into_service());
    let app = Router::default().groups(vec![group]);
    let response = app.fire(get("/")).unwrap();
    assert_eq!(
        *log.lock().unwrap(),
        vec!["M1.on_request", "M2.on_request", "handler", "M1.on_response", "M2.on_response"]
    );
    assert_eq!(text(&response), "M1,M2");
    assert_eq!(
        response.headers,
        vec![("left-by".to_string(), "M1".to_string()), ("left-by".to_string(), "M2".to_string())]
    );
}

#[test]
fn the_middleware_of_the_router_runs_before_that_of_the_route() {
    let log = Arc::new(Mutex::new(Vec::new()));
    let group = RouteGroup::new("/g")
        .middleware(Recorder::new("G", &log))
        .get("/x", logging_handler(&log).into_service());
    let app = Router::default()
        .middleware(Recorder::new("R", &log))
        .middleware(LogMiddleware {})
        .groups(vec![group])
        .get("/y", logging_handler(&log));
    app.fire(get("/g/x")).unwrap();
    assert_eq!(
        *log.lock().unwrap(),
        vec!["R.on_request", "G.on_request", "handler", "R.on_response", "G.on_response"]
    );
    log.lock().unwrap().clear();
    app.fire(get("/y")).unwrap();
    assert_eq!(*log.lock().unwrap(), vec!["R.on_request", "handler", "R.on_response"]);
}

#[test]
fn a_request_hook_that_fails_ends_the_dispatch() {
    let log = Arc::new(Mutex::new(Vec::new()));
    let mut failing = Recorder::new("M2", &log);
    failing.fail_request = true;
    let group = RouteGroup::new("")
        .middleware(Recorder::new("M1", &log))
        .middleware(failing)
        .middleware(Recorder::new("M3", &log))
        .get("/", logging_handler(&log).into_service());
    let app = Router::default().groups(vec![group]);
    let response = app.fire(get("/")).unwrap();
    assert_eq!(*log.lock().unwrap(), vec!["M1.on_request", "M2.on_request"]);
    assert_eq!(response.status, ResponseStatus::InternalServerError);
    assert_eq!(text(&response), "M2 refused");
}

#[test]
fn a_response_hook_that_fails_ends_the_dispatch() {
    let log = Arc::new(Mutex::new(Vec::new()));
    let mut failing = Recorder::new("M1", &log);
    failing.fail_response = true;
    let route = Route::new("/", BoxCloneService::new(logging_handler(&log).into_service()))
        .unwrap()
        .middlewares(vec![Arc::new(Box::new(failing)), Arc::new(Box::new(Recorder::new("M2", &log)))]);
    let outcome = route.fire(get("/"));
    assert_eq!(outcome.err().map(|e| e.message), Some("M1 gave up".to_string()));
    assert_eq!(
        *log.lock().unwrap(),
        vec!["M1.on_request", "M2.on_request", "handler", "M1.on_response"]
    );
}

#[test]
fn requests_without_route_are_refused() {
    let app = Router::default().get("/a", || "a");
    assert_eq!(app.fire(Request::new(Method::Post, "/a")).err(), Some(RoutingError::NoRouteForMethod));
    assert_eq!(app.fire(get("/b")).err(), Some(RoutingError::NoMatchingRoute));
    assert_eq!(app.fire(get("/a/b")).err(), Some(RoutingError::NoMatchingRoute));
    assert_eq!(Router::default().fire(get("/")).err(), Some(RoutingError::NoRouteForMethod));

    let response = app.call(Request::new(Method::Delete, "/a"));
    assert_eq!(response.status, ResponseStatus::MethodNotAllowed);
    assert_eq!(text(&response), "not registered routes for the method");
    let response = app.call(get("/b"));
    assert_eq!(response.status, ResponseStatus::NotFound);
    assert_eq!(text(&response), "no matching route");
    assert_eq!(text(&app.call(get("/a"))), "a");
}

#[test]
fn the_first_route_registered_wins() {
    let app = Router::default()
        .get("/a/<x>", || "placeholder")
        .get("/a/b", || "literal")
        .put("/a/b", || "put")
        .delete("/a/b", || "delete")
        .post("/a/b", || "post");
    for _ in 0..3 {
        assert_eq!(text(&app.fire(get("/a/b")).unwrap()), "placeholder");
    }
    assert_eq!(text(&app.fire(Request::new(Method::Put, "/a/b")).unwrap()), "put");
    assert_eq!(text(&app.fire(Request::new(Method::Delete, "/a/b")).unwrap()), "delete");
    assert_eq!(text(&app.fire(Request::new(Method::Post, "/a/b")).unwrap()), "post");
    assert_eq!(text(&app.fire(get("/a/b?q=1")).unwrap()), "placeholder");
    let other = Router::default().get("/a/b", || "literal").get("/a/<x>", || "placeholder");
    assert_eq!(text(&other.fire(get("/a/b")).unwrap()), "literal");
    assert_eq!(text(&other.fire(get("/a/c")).unwrap()), "placeholder");
}

#[test]
fn patterns_match_segment_by_segment() {
    let route = Route::new("/a/<x>/b", BoxCloneService::new(())).unwrap();
    assert!(route.should_fire_on_path("/a/1/b"));
    assert!(!route.should_fire_on_path("/a/b"));
    assert!(!route.should_fire_on_path("/a/1/b/c"));
    assert!(!route.should_fire_on_path("/A/1/b"));
    assert!(!route.should_fire_on_path("/a//b"));
    assert!(!route.should_fire_on_path("/a/1/b/"));
    assert!(!route.should_fire_on_path("a/1/b"));
    assert_eq!(route.metadata.origin(), "/a/<x>/b");
    assert_eq!(route.metadata.offsets_list(), vec![1]);
    assert_eq!(route.metadata.param_segments().get(&0), Some(&1));
    let copy = route.metadata.duplicate();
    assert!(copy.matches_path("/a/z/b"));
    assert_eq!(copy.offsets_list(), vec![1]);
}

#[test]
fn what_cannot_be_extracted_is_answered_with_400() {
    let app = Router::default()
        .get("/host", |Host(h): Host| h)
        .get("/type", |ContentType(t): ContentType| t)
        .get("/n/<n>", |PathParam(n): PathParam<i32>| n)
        .get("/two/<n>", |PathParam(a): PathParam<i32>, PathParam(b): PathParam<i32>| a + b)
        .get("/q", |Query(Pairs(p)): Query<Pairs>| p.len() as i32)
        .post("/json", |Json(Numbers(n)): Json<Numbers>| n.len() as i32)
        .post("/text", |body: String| body);

    let response = app.fire(get("/host")).unwrap();
    assert_eq!(response.status, ResponseStatus::BadRequest);
    assert_eq!(text(&response), "header not found");

    let mut request = get("/type");
    request.headers.push(("Content-Type".to_string(), "caf\u{e9}".to_string()));
    let response = app.fire(request).unwrap();
    assert_eq!(response.status, ResponseStatus::BadRequest);
    assert_eq!(text(&response), "header value is not visible ASCII");

    let mut request = get("/type");
    request.headers.push(("other".to_string(), "no".to_string()));
    request.headers.push(("CONTENT-type".to_string(), "text/a\tb".to_string()));
    request.headers.push(("content-type".to_string(), "second".to_string()));
    let response = app.fire(request).unwrap();
    assert_eq!(response.status, ResponseStatus::OK);
    assert_eq!(text(&response), "text/a\tb");

    let response = app.fire(get("/n/abc")).unwrap();
    assert_eq!(response.status, ResponseStatus::BadRequest);
    assert_eq!(text(&response), "path parameter could not be read");
    assert_eq!(text(&app.fire(get("/n/-4")).unwrap()), "-4");

    let response = app.fire(get("/two/1")).unwrap();
    assert_eq!(response.status, ResponseStatus::BadRequest);
    assert_eq!(text(&response), "no value for wanted ordering");

    let response = app.fire(get("/q")).unwrap();
    assert_eq!(response.status, ResponseStatus::BadRequest);
    assert_eq!(text(&response), "not queries provided");
    assert_eq!(text(&app.fire(get("/q?")).unwrap()), "0");
    assert_eq!(text(&app.fire(get("/q?a=1&b=%20")).unwrap()), "2");

    let mut request = Request::new(Method::Post, "/json");
    request.body = b"[1, x]".to_vec();
    let response = app.fire(request).unwrap();
    assert_eq!(response.status, ResponseStatus::BadRequest);
    assert_eq!(text(&response), "body could not be decoded");

    let mut request = Request::new(Method::Post, "/text");
    request.body = vec![b'a', 0xff];
    let response = app.fire(request).unwrap();
    assert_eq!(response.status, ResponseStatus::BadRequest);
    assert_eq!(text(&response), "body is not UTF-8");
}

#[test]
fn malformed_query_strings_are_refused() {
    assert_eq!(decode_query::<Vec<(String, u32)>>("a=x").err(), Some(ExtractionError::MalformedQuery));
    assert_eq!(
        decode_query::<Vec<(String, String)>>("a=1&b=c%20d"),
        Ok(vec![("a".to_string(), "1".to_string()), ("b".to_string(), "c d".to_string())])
    );
    assert_eq!(decode_json::<Vec<u32>>(b"[1,2]"), Ok(vec![1, 2]));
    assert_eq!(decode_json::<Vec<u32>>(b"{"), Err(ExtractionError::MalformedBody));
}

#[test]
fn a_path_parameter_needs_a_cursor() {
    fn handler(PathParam(p): PathParam<String>) -> String {
        p
    }
    let service = handler.into_service();
    let response = service.call(get("/a/b"));
    assert_eq!(response.status, ResponseStatus::BadRequest);
    assert_eq!(text(&response), "no segments provided");

    let mut request = get("/a");
    request.cursor = Some(ExtractionCursor::new(vec!["a".to_string()], vec![3]));
    let response = service.call(request);
    assert_eq!(response.status, ResponseStatus::BadRequest);
    assert_eq!(text(&response), "invalid value from a string");

    let mut request = get("/a");
    request.cursor = Some(ExtractionCursor::new(vec!["a".to_string(), "b".to_string()], vec![1]));
    let (mut parts, _) = request.into_parts();
    let first = <PathParam<String> as FromRequestParts<()>>::from_request_parts(&mut parts, &());
    assert_eq!(first.map(|p| p.0), Ok("b".to_string()));
    assert_eq!(parts.cursor.as_ref().map(|c| c.next_ordinal), Some(1));
    let second = <PathParam<String> as FromRequestParts<()>>::from_request_parts(&mut parts, &());
    assert_eq!(second.map(|p| p.0), Err(ExtractionError::NoPlaceholder));
    assert_eq!(parts.cursor.as_ref().map(|c| c.next_ordinal), Some(1));
}

#[test]
fn typed_headers_are_found_by_name() {
    let headers = vec![
        ("Accept".to_string(), "a".to_string()),
        ("HOST".to_string(), "first".to_string()),
        ("host".to_string(), "second".to_string()),
    ];
    assert_eq!(Host::key(), "host");
    assert_eq!(ContentType::key(), "content-type");
    assert_eq!(Host::try_from_header_map(&headers).map(|h| h.0), Ok("first".to_string()));
    assert_eq!(
        ContentType::try_from_header_map(&headers).map(|h| h.0),
        Err(ExtractionError::MissingHeader)
    );
    assert_eq!(
        Host::try_from_header_value("\u{7f}").map(|h| h.0),
        Err(ExtractionError::InvalidHeaderValue)
    );
}

#[test]
fn the_state_is_handed_to_handlers() {
    let app = Router::with_state(41).get("/", |State(n): State<i32>, request: Request| {
        format!("{} {}", n + 1, request.url)
    });
    assert_eq!(text(&app.fire(get("/?x")).unwrap()), "42 /?x");
    let copy = app.duplicate();
    assert_eq!(text(&copy.fire(get("/")).unwrap()), "42 /");
}

#[test]
fn handlers_without_arguments_and_units_answer_with_nothing() {
    let response = ().handle(get("/"), &());
    assert_eq!(response.status, ResponseStatus::OK);
    assert!(response.body.is_empty());
    let response = ().call(get("/"));
    assert!(response.body.is_empty());
    let app = Router::default().get("/", || ());
    let response = app.fire(get("/")).unwrap();
    assert_eq!(response.status, ResponseStatus::OK);
    assert!(response.body.is_empty());
}

#[test]
fn a_client_reaches_services_without_middleware() {
    let log = Arc::new(Mutex::new(Vec::new()));
    let group = RouteGroup::new("/g")
        .middleware(Recorder::new("G", &log))
        .get("/<id>", (|PathParam(id): PathParam<u32>| id).into_service())
        .post("/<id>", (|PathParam(id): PathParam<u64>, body: String| format!("{}{}", id, body))
            .into_service());
    let client = Client::new(group.routes());
    assert_eq!(text(&client.send(get("/g/7")).unwrap()), "7");
    let mut request = Request::new(Method::Post, "/g/8");
    request.body = b"!".to_vec();
    assert_eq!(text(&client.send(request).unwrap()), "8!");
    assert!(log.lock().unwrap().is_empty());
    assert_eq!(client.send(get("/h")).err(), Some(RoutingError::NoMatchingRoute));
    assert_eq!(client.send(Request::new(Method::Put, "/g/1")).err(), Some(RoutingError::NoRouteForMethod));
}

#[test]
fn handlers_of_five_arguments() {
    fn handler(
        PathParam(a): PathParam<i32>,
        PathParam(b): PathParam<i32>,
        PathParam(c): PathParam<i32>,
        PathParam(d): PathParam<bool>,
        Json(Numbers(n)): Json<Numbers>,
    ) -> i32 {
        if d {
            a + b + c + n.iter().sum::<u32>() as i32
        } else {
            0
        }
    }
    fn four(
        PathParam(a): PathParam<i32>,
        PathParam(b): PathParam<i32>,
        PathParam(c): PathParam<i32>,
        PathParam(d): PathParam<bool>,
    ) -> String {
        format!("{}{}{}{}", a, b, c, d)
    }
    let app = Router::default()
        .post("/<a>/<b>/<c>/<d>", handler)
        .get("/<a>/<b>/<c>/<d>", four);
    let mut request = Request::new(Method::Post, "/1/2/3/true");
    request.body = b"[10, 20]".to_vec();
    assert_eq!(text(&app.fire(request).unwrap()), "36");
    assert_eq!(text(&app.fire(get("/1/2/3/false")).unwrap()), "123false");
}

#[test]
fn add_route_refuses_malformed_patterns() {
    assert_eq!(
        Router::default().add_route(Method::Get, "/a/<x", || "a").err(),
        Some(RegistrationError::UnclosedPlaceholder)
    );
    assert_eq!(
        RouteGroup::new("<p>").add_route(Method::Get, "/a", ()).err(),
        Some(RegistrationError::PlaceholderOutsidePath)
    );
    assert_eq!(Route::new("/a/<x", BoxCloneService::new(())).err(), Some(RegistrationError::UnclosedPlaceholder));
    let app = Router::default().add_route(Method::Put, "/a/<x>", |PathParam(x): PathParam<u32>| x).unwrap();
    assert_eq!(text(&app.fire(Request::new(Method::Put, "/a/5")).unwrap()), "5");
}

#[test]
fn json_and_query_decode_into_plain_values() {
    let app = Router::default()
        .post("/v", |Json(value): Json<serde_json::Value>| value.to_string())
        .post("/s", |Json(value): Json<String>| value)
        .post("/i", |Json(value): Json<i64>| value)
        .post("/b", |Json(value): Json<bool>| value)
        .get("/q", |Query(pairs): Query<Vec<(String, String)>>| {
            pairs.iter().map(|(k, v)| format!("{}:{}", k, v)).collect::<Vec<_>>().join(";")
        });
    let post = |url: &str, body: &str| {
        let mut request = Request::new(Method::Post, url);
        request.body = body.as_bytes().to_vec();
        app.fire(request).unwrap()
    };
    assert_eq!(text(&post("/v", r#" {"a": [1, null]} "#)), r#"{"a":[1,null]}"#);
    assert_eq!(text(&post("/s", r#""a\nb""#)), "a\nb");
    assert_eq!(text(&post("/i", "-12")), "-12");
    assert_eq!(text(&post("/b", "true")), "true");
    assert_eq!(post("/b", "1").status, ResponseStatus::BadRequest);
    assert_eq!(text(&app.fire(get("/q?a=1&b=x+y")).unwrap()), "a:1;b:x y");
}

#[test]
fn a_boxed_service_answers_as_the_service_does() {
    fn handler(body: String) -> String {
        format!("got {}", body)
    }
    let boxed = BoxCloneService::new(handler.into_service());
    let mut request = Request::new(Method::Post, "/");
    request.body = b"this".to_vec();
    let response = boxed.0.call(request);
    assert_eq!(response.status, ResponseStatus::OK);
    assert_eq!(text(&response), "got this");
    let boxed = BoxCloneService::new(());
    assert!(boxed.0.call(get("/")).body.is_empty());
}

#[test]
fn every_dispatch_starts_with_a_fresh_cursor() {
    let app = Router::default()
        .get("/test/<p>", |PathParam(p): PathParam<String>| p)
        .get("/u/<id>", || "first")
        .get("/u/me", || "second");
    assert_eq!(text(&app.fire(get("/test/7")).unwrap()), "7");
    assert_eq!(text(&app.fire(get("/test/8")).unwrap()), "8");
    assert_eq!(text(&app.fire(get("/u/me")).unwrap()), "first");
}

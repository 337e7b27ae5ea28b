use rhttp::codec::decode_json;
use rhttp::codec::decode_query;
use rhttp::extract::ContentType;
use rhttp::extract::ExtractionError;
use rhttp::extract::FromJson;
use rhttp::extract::FromQuery;
use rhttp::extract::Host;
use rhttp::extract::Json;
use rhttp::extract::PathParam;
use rhttp::extract::Query;
use rhttp::extract::State;
use rhttp::handler::HandlerTraitWithoutState;
use rhttp::handler::Service;
use rhttp::http::Method;
use rhttp::http::ResponseStatus;
use rhttp::request::Request;
use rhttp::response::RenderError;
use rhttp::response::Responder;
use rhttp::response::Response;
use rhttp::route::RouteGroup;
use rhttp::route::Router;
use rhttp::server::Server;

fn run_case<V>(
    name: &str,
    url: &str,
    method: Method,
    service: V,
    headers: Vec<(&str, &str)>,
    body: &str,
    result: &str,
) where
    V: Service<Request> + 'static,
{
    let mut request = Request::new(method, url);
    for (key, value) in headers {
        request.headers.push((key.to_string(), value.to_string()));
    }
    request.body = body.as_bytes().to_vec();
    let server = Server::new("", 0).with_service(service);
    let response = server.fire(request).expect("a service was given");
    assert_eq!(
        response.body,
        result.as_bytes().to_vec(),
        "test case {}, left: {}, right: {}",
        name,
        String::from_utf8_lossy(&response.body),
        result
    );
}

struct OwnBody {
    val: String,
    val2: i32,
    val3: bool,
}

impl FromJson for OwnBody {
    fn from_json(body: &[u8]) -> Result<Self, ExtractionError> {
        let value: serde_json::Value = decode_json(body)?;
        let val = value.get("val").and_then(|v| v.as_str());
        let val2 = value.get("val2").and_then(|v| v.as_i64());
        let val3 = value.get("val3").and_then(|v| v.as_bool());
        match (val, val2, val3) {
            (Some(val), Some(val2), Some(val3)) => Ok(OwnBody {
                val: val.to_string(),
                val2: val2 as i32,
                val3,
            }),
            _ => Err(ExtractionError::MalformedBody),
        }
    }
}

fn own_body_text(body: &OwnBody) -> Result<String, serde_json::Error> {
    let mut map = serde_json::Map::new();
    map.insert("val".to_string(), serde_json::Value::from(body.val.clone()));
    map.insert("val2".to_string(), serde_json::Value::from(body.val2));
    map.insert("val3".to_string(), serde_json::Value::from(body.val3));
    serde_json::to_string(&serde_json::Value::Object(map))
}

impl Responder for OwnBody {
    fn into_response(self) -> Result<Response, RenderError> {
        match own_body_text(&self) {
            Ok(text) => Ok(Response::text(ResponseStatus::OK, &text)),
            Err(e) => Err(RenderError { message: e.to_string() }),
        }
    }
}

struct QueryParams {
    val: String,
    name: String,
    age: i32,
}

impl FromQuery for QueryParams {
    fn from_query(query: &str) -> Result<Self, ExtractionError> {
        let pairs: Vec<(String, String)> = decode_query(query)?;
        let find = |key: &str| pairs.iter().find(|(k, _)| k == key).map(|(_, v)| v.clone());
        let age = find("age").and_then(|v| v.parse::<i32>().ok());
        match (find("val"), find("name"), age) {
            (Some(val), Some(name), Some(age)) => Ok(QueryParams { val, name, age }),
            _ => Err(ExtractionError::MalformedQuery),
        }
    }
}

#[derive(Default, Clone)]
struct Config {
    port: i32,
    debug: bool,
    db_host: String,
    db_password: String,
}

fn config_text(config: &Config) -> String {
    format!(
        "{{\"port\":{},\"debug\":{},\"db_host\":\"{}\",\"db_password\":\"{}\"}}",
        config.port, config.debug, config.db_host, config.db_password
    )
}

#[test]
fn test_with_client() {
    fn empty() {}

    fn str() -> &'static str {
        "hello"
    }

    fn string() -> String {
        String::from("hello")
    }

    fn result() -> Result<&'static str, String> {
        Ok("ok")
    }

    fn body_handler_json(Json(body): Json<OwnBody>) -> Result<OwnBody, String> {
        Ok(body)
    }

    fn content_type_handler(ContentType(content_type): ContentType) -> String {
        content_type
    }

    fn host_handler(Host(host): Host) -> String {
        host
    }

    fn param_handler(PathParam(user): PathParam<String>) -> String {
        user
    }

    run_case("empty", "/", Method::Get, Router::default().get("/", empty), vec![], "", "");

    run_case("str", "/str", Method::Get, Router::default().get("/str", str), vec![], "", "hello");

    run_case(
        "string",
        "/string",
        Method::Get,
        Router::default().get("/string", string),
        vec![],
        "",
        "hello",
    );

    run_case(
        "result",
        "/result",
        Method::Get,
        Router::default().get("/result", result),
        vec![],
        "",
        "ok",
    );

    run_case(
        "content-type",
        "/content-type",
        Method::Get,
        Router::default().get("/content-type", content_type_handler),
        vec![("content-type", "application/json")],
        "",
        "application/json",
    );

    run_case(
        "host",
        "/host",
        Method::Get,
        Router::default().get("/host", host_handler),
        vec![("host", "localhost")],
        "",
        "localhost",
    );

    run_case(
        "param",
        "/param/test-user",
        Method::Get,
        Router::default().get("/param/<user>", param_handler),
        vec![],
        "",
        "test-user",
    );

    run_case(
        "body",
        "/body",
        Method::Post,
        Router::default().post("/body", body_handler_json),
        vec![],
        r#"{"val":"string value","val2": 123,"val3":true}"#,
        r#"{"val":"string value","val2":123,"val3":true}"#,
    );
}

#[test]
fn test_with_client_2_param_handlers() {
    fn handler(PathParam(user): PathParam<String>, Json(mut body): Json<OwnBody>) -> OwnBody {
        body.val = user;
        body
    }

    let body = r#"{"val":"string value","val2":123,"val3":true}"#;
    let changed_body = r#"{"val":"username","val2":123,"val3":true}"#;

    run_case(
        "handler with path param and body",
        "/body/username",
        Method::Post,
        Router::default().post("/body/<user>", handler),
        vec![],
        body,
        changed_body,
    );
}

#[test]
fn test_with_client_3_param_handlers() {
    fn handler(
        PathParam(user): PathParam<String>,
        PathParam(id): PathParam<i32>,
        Json(mut body): Json<OwnBody>,
    ) -> OwnBody {
        body.val = user;
        body.val2 = id;
        body
    }

    let body = r#"{"val":"string value","val2":123,"val3":true}"#;
    let changed_body = r#"{"val":"username","val2":100,"val3":true}"#;

    run_case(
        "handler with path param and body",
        "/body/username/100",
        Method::Post,
        Router::default().post("/body/<user>/<id>", handler),
        vec![],
        body,
        changed_body,
    );
}

#[test]
fn handler_query() {
    fn handler(Query(params): Query<QueryParams>) -> String {
        format!(
            "{{\"val\":\"{}\",\"name\":\"{}\",\"age\":{}}}",
            params.val, params.name, params.age
        )
    }

    let body = r#"{"val":"value","name":"john","age":123}"#;
    run_case(
        "handler with path param and body",
        "/query?val=value&name=john&age=123",
        Method::Post,
        Router::default().post("/query", handler),
        vec![],
        "",
        body,
    );
}

#[test]
fn test_state() {
    fn handler(state: State<Config>) -> Result<String, String> {
        Ok(config_text(&state.0))
    }

    let cfg = Config {
        port: 8080,
        debug: true,
        db_host: "localhost".into(),
        db_password: "1qazxsw2".into(),
    };
    let body = r#"{"port":8080,"debug":true,"db_host":"localhost","db_password":"1qazxsw2"}"#;
    run_case(
        "handler with path param and body",
        "/query?val=value&name=john&age=123",
        Method::Post,
        Router::with_state(cfg).post("/query", handler),
        vec![],
        "",
        body,
    );
}

#[test]
fn test_state_with_extractors() {
    fn handler(
        state: State<Config>,
        Query(params): Query<QueryParams>,
        Json(mut body): Json<OwnBody>,
    ) -> Result<String, serde_json::Error> {
        body.val = state.0.db_host;
        body.val2 = params.age;
        own_body_text(&body)
    }

    let cfg = Config {
        port: 8080,
        debug: true,
        db_host: "localhost".into(),
        db_password: "1qazxsw2".into(),
    };

    let body = r#"{"val":"string value","val2":123,"val3":true}"#;
    let changed_body = r#"{"val":"localhost","val2":123,"val3":true}"#;
    run_case(
        "test_state_with_extractors",
        "/query?val=value&name=john&age=123",
        Method::Post,
        Router::with_state(cfg).post("/query", handler),
        vec![],
        body,
        changed_body,
    );
}

#[test]
fn test_route_group() {
    let v1 = RouteGroup::new("/v1")
        .get("/user", (|| "v1").into_service())
        .get("/user2", (|| "v3").into_service());
    let v2 = RouteGroup::new("/v2")
        .get("/user", (|| "v2").into_service())
        .get("/user2", (|| "v4").into_service());

    let app = Router::default().groups(vec![v1, v2]);

    run_case("test_route_group", "/v1/user", Method::Get, app.duplicate(), vec![], "", "v1");
    run_case("test_route_group", "/v1/user2", Method::Get, app.duplicate(), vec![], "", "v3");
    run_case("test_route_group", "/v2/user", Method::Get, app.duplicate(), vec![], "", "v2");
    run_case("test_route_group", "/v2/user2", Method::Get, app, vec![], "", "v4");
}
